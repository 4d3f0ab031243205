use vstd::prelude::*;

verus! {

/// True when `m` holds an entry for key `k`.
pub open spec fn map_has_key<V>(m: Seq<(Seq<char>, V)>, k: Seq<char>) -> bool {
    exists|i: int| 0 <= i < m.len() && m[i].0 == k
}

/// The position of the entry for key `k` (the unique one, once keys are unique).
pub open spec fn map_key_index<V>(m: Seq<(Seq<char>, V)>, k: Seq<char>) -> int {
    choose|i: int| 0 <= i < m.len() && m[i].0 == k
}

/// The value stored under key `k`.
pub open spec fn map_value<V>(m: Seq<(Seq<char>, V)>, k: Seq<char>) -> V {
    m[map_key_index(m, k)].1
}

/// No two entries share a key.
pub open spec fn keys_unique<V>(m: Seq<(Seq<char>, V)>) -> bool {
    forall|i: int, j: int| 0 <= i < m.len() && 0 <= j < m.len() && i != j ==> m[i].0 != m[j].0
}

/// The functional update: replace the value under `k` in place, or append a
/// fresh entry at the end. Insertion order of keys is preserved.
pub open spec fn map_upsert<V>(m: Seq<(Seq<char>, V)>, k: Seq<char>, v: V) -> Seq<
    (Seq<char>, V),
> {
    if map_has_key(m, k) {
        m.update(map_key_index(m, k), (k, v))
    } else {
        m.push((k, v))
    }
}

pub proof fn lemma_unique_key_index<V>(m: Seq<(Seq<char>, V)>, k: Seq<char>, i: int)
    requires
        keys_unique(m),
        0 <= i < m.len(),
        m[i].0 == k,
    ensures
        map_key_index(m, k) == i,
{
    assert(map_has_key(m, k));
}

pub proof fn lemma_upsert_keys_unique<V>(m: Seq<(Seq<char>, V)>, k: Seq<char>, v: V)
    requires
        keys_unique(m),
    ensures
        keys_unique(map_upsert(m, k, v)),
{
    let m2 = map_upsert(m, k, v);
    if map_has_key(m, k) {
        let i = map_key_index(m, k);
        assert forall|p: int, q: int|
            0 <= p < m2.len() && 0 <= q < m2.len() && p != q implies m2[p].0 != m2[q].0 by {
            if p == i {
                assert(m2[q].0 == m[q].0);
                assert(m[i].0 == k);
            } else if q == i {
                assert(m2[p].0 == m[p].0);
                assert(m[i].0 == k);
            } else {
                assert(m2[p].0 == m[p].0 && m2[q].0 == m[q].0);
            }
        }
    } else {
        assert forall|p: int, q: int|
            0 <= p < m2.len() && 0 <= q < m2.len() && p != q implies m2[p].0 != m2[q].0 by {
            if p < m.len() && q < m.len() {
                assert(m2[p].0 == m[p].0 && m2[q].0 == m[q].0);
            } else if p < m.len() {
                assert(m2[q].0 == k && m2[p].0 == m[p].0);
                assert(!(m[p].0 == k)) by {
                    if m[p].0 == k {
                        assert(map_has_key(m, k));
                    }
                }
            } else {
                assert(m2[p].0 == k && m2[q].0 == m[q].0);
                assert(!(m[q].0 == k)) by {
                    if m[q].0 == k {
                        assert(map_has_key(m, k));
                    }
                }
            }
        }
    }
}

/// After an upsert, the map holds `v` under `k` and every other key is
/// untouched; key membership only gains `k`.
pub proof fn lemma_upsert_lookup<V>(m: Seq<(Seq<char>, V)>, k: Seq<char>, v: V)
    requires
        keys_unique(m),
    ensures
        map_has_key(map_upsert(m, k, v), k),
        map_value(map_upsert(m, k, v), k) == v,
        forall|k2: Seq<char>|
            k2 != k ==> #[trigger] map_has_key(map_upsert(m, k, v), k2) == map_has_key(m, k2),
        forall|k2: Seq<char>|
            k2 != k && map_has_key(m, k2) ==> #[trigger] map_value(map_upsert(m, k, v), k2)
                == map_value(m, k2),
{
    let m2 = map_upsert(m, k, v);
    lemma_upsert_keys_unique(m, k, v);
    if map_has_key(m, k) {
        let i = map_key_index(m, k);
        assert(m2[i].0 == k);
        lemma_unique_key_index(m2, k, i);
        assert(map_value(m2, k) == v);
        assert forall|k2: Seq<char>| k2 != k implies #[trigger] map_has_key(m2, k2)
            == map_has_key(m, k2) by {
            if map_has_key(m, k2) {
                let j = map_key_index(m, k2);
                assert(m2[j].0 == k2);
            }
            if map_has_key(m2, k2) {
                let j = map_key_index(m2, k2);
                assert(m[j].0 == k2);
            }
        }
        assert forall|k2: Seq<char>| k2 != k && map_has_key(m, k2) implies #[trigger] map_value(
            m2,
            k2,
        ) == map_value(m, k2) by {
            let j = map_key_index(m, k2);
            assert(m[j].0 == k2);
            assert(j != i);
            assert(m2[j] == m[j]);
            lemma_unique_key_index(m2, k2, j);
        }
    } else {
        let i = m.len() as int;
        assert(m2[i].0 == k);
        lemma_unique_key_index(m2, k, i);
        assert forall|k2: Seq<char>| k2 != k implies #[trigger] map_has_key(m2, k2)
            == map_has_key(m, k2) by {
            if map_has_key(m, k2) {
                let j = map_key_index(m, k2);
                assert(m2[j].0 == k2);
            }
            if map_has_key(m2, k2) {
                let j = map_key_index(m2, k2);
                assert(0 <= j < m.len());
                assert(m[j].0 == k2);
            }
        }
        assert forall|k2: Seq<char>| k2 != k && map_has_key(m, k2) implies #[trigger] map_value(
            m2,
            k2,
        ) == map_value(m, k2) by {
            let j = map_key_index(m, k2);
            assert(m[j].0 == k2);
            assert(m2[j] == m[j]);
            lemma_unique_key_index(m2, k2, j);
        }
    }
}

/// The keys of the entries, in insertion order.
pub open spec fn map_keys<V>(s: Seq<(Seq<char>, V)>) -> Seq<Seq<char>> {
    s.map(|i: int, e: (Seq<char>, V)| e.0)
}

/// A key is held exactly when it is among the keys.
pub proof fn lemma_has_key_iff_keys_contain<V>(s: Seq<(Seq<char>, V)>, k: Seq<char>)
    ensures
        map_has_key(s, k) == map_keys(s).contains(k),
{
    if map_has_key(s, k) {
        let i = map_key_index(s, k);
        assert(map_keys(s)[i] == k);
    }
    if map_keys(s).contains(k) {
        let i = choose|i: int| 0 <= i < map_keys(s).len() && map_keys(s)[i] == k;
        assert(s[i].0 == k);
    }
}

/// An upsert touches the key list only by appending a fresh key at the end.
pub proof fn lemma_upsert_map_keys<V>(s: Seq<(Seq<char>, V)>, k: Seq<char>, v: V)
    ensures
        map_keys(map_upsert(s, k, v)) == (if map_has_key(s, k) {
            map_keys(s)
        } else {
            map_keys(s).push(k)
        }),
{
    if map_has_key(s, k) {
        let i = map_key_index(s, k);
        assert(s[i].0 == k);
        assert(map_keys(map_upsert(s, k, v)) =~= map_keys(s));
    } else {
        assert(map_keys(map_upsert(s, k, v)) =~= map_keys(s).push(k));
    }
}

/// The same entries with every value sent through `f`.
pub open spec fn map_entries<V, W>(s: Seq<(Seq<char>, V)>, f: spec_fn(V) -> W) -> Seq<
    (Seq<char>, W),
> {
    s.map(|i: int, e: (Seq<char>, V)| (e.0, f(e.1)))
}

/// Sending values through `f` keeps the keys, so key lookups agree.
pub proof fn lemma_map_entries_lookup<V, W>(s: Seq<(Seq<char>, V)>, f: spec_fn(V) -> W)
    ensures
        keys_unique(s) ==> keys_unique(map_entries(s, f)),
        forall|k: Seq<char>| map_has_key(map_entries(s, f), k) == map_has_key(s, k),
        keys_unique(s) ==> forall|k: Seq<char>|
            map_has_key(s, k) ==> #[trigger] map_value(map_entries(s, f), k) == f(
                map_value(s, k),
            ),
{
    let sv = map_entries(s, f);
    assert forall|k: Seq<char>| map_has_key(sv, k) == map_has_key(s, k) by {
        if map_has_key(s, k) {
            let i = map_key_index(s, k);
            assert(sv[i].0 == k);
        }
        if map_has_key(sv, k) {
            let i = map_key_index(sv, k);
            assert(s[i].0 == k);
        }
    }
    if keys_unique(s) {
        assert forall|k: Seq<char>| map_has_key(s, k) implies #[trigger] map_value(sv, k) == f(
            map_value(s, k),
        ) by {
            let i = map_key_index(s, k);
            lemma_unique_key_index(sv, k, i);
        }
    }
}

/// Sending values through `f` commutes with an upsert.
pub proof fn lemma_map_entries_upsert<V, W>(
    s: Seq<(Seq<char>, V)>,
    k: Seq<char>,
    v: V,
    f: spec_fn(V) -> W,
)
    requires
        keys_unique(s),
    ensures
        map_entries(map_upsert(s, k, v), f) == map_upsert(map_entries(s, f), k, f(v)),
{
    let sv = map_entries(s, f);
    lemma_map_entries_lookup(s, f);
    if map_has_key(s, k) {
        let i = map_key_index(s, k);
        lemma_unique_key_index(sv, k, i);
        assert(map_entries(map_upsert(s, k, v), f) =~= map_upsert(sv, k, f(v)));
    } else {
        assert(map_entries(map_upsert(s, k, v), f) =~= map_upsert(sv, k, f(v)));
    }
}

/// A map from string keys to values, backed by a vector of entries in
/// insertion order. Keys are unique; updating a key keeps its position.
/// This is the durable-store model every actor's keyed state uses.
pub struct StrMap<V> {
    entries: Vec<(String, V)>,
}

impl<V> View for StrMap<V> {
    type V = Seq<(Seq<char>, V)>;

    closed spec fn view(&self) -> Seq<(Seq<char>, V)> {
        self.entries@.map(|i: int, e: (String, V)| (e.0@, e.1))
    }
}

impl<V> StrMap<V> {
    /// Key uniqueness, established at construction and kept by every method.
    pub open spec fn wf(&self) -> bool {
        keys_unique(self@)
    }

    pub fn new() -> (r: Self)
        ensures
            r@ == Seq::<(Seq<char>, V)>::empty(),
            r.wf(),
    {
        let r = StrMap { entries: Vec::new() };
        proof {
            assert(r@ =~= Seq::<(Seq<char>, V)>::empty());
        }
        r
    }

    pub fn len(&self) -> (r: usize)
        ensures
            r == self@.len(),
    {
        self.entries.len()
    }

    fn index_of(&self, k: &String) -> (r: Option<usize>)
        ensures
            match r {
                Some(i) => i < self@.len() && self@[i as int].0 == k@,
                None => !map_has_key(self@, k@),
            },
    {
        let n = self.entries.len();
        let mut i: usize = 0;
        while i < n
            invariant
                n == self@.len(),
                i <= n,
                forall|j: int| 0 <= j < i ==> self@[j].0 != k@,
            decreases n - i,
        {
            if self.entries[i].0 == *k {
                return Some(i);
            }
            i = i + 1;
        }
        None
    }

    pub fn contains_key(&self, k: &String) -> (r: bool)
        ensures
            r == map_has_key(self@, k@),
    {
        match self.index_of(k) {
            Some(i) => {
                proof {
                    assert(map_has_key(self@, k@));
                }
                true
            },
            None => false,
        }
    }

    pub fn get(&self, k: &String) -> (r: Option<&V>)
        requires
            self.wf(),
        ensures
            match r {
                Some(v) => map_has_key(self@, k@) && *v == map_value(self@, k@),
                None => !map_has_key(self@, k@),
            },
    {
        match self.index_of(k) {
            Some(i) => {
                proof {
                    lemma_unique_key_index(self@, k@, i as int);
                }
                Some(&self.entries[i].1)
            },
            None => None,
        }
    }

    pub fn insert(&mut self, k: String, v: V)
        requires
            old(self).wf(),
        ensures
            final(self).wf(),
            final(self)@ == map_upsert(old(self)@, k@, v),
    {
        let ghost pre = self@;
        match self.index_of(&k) {
            Some(i) => {
                proof {
                    lemma_unique_key_index(pre, k@, i as int);
                }
                let _old_entry = self.entries.remove(i);
                self.entries.insert(i, (k, v));
                proof {
                    assert(self@ =~= map_upsert(pre, k@, v));
                    lemma_upsert_keys_unique(pre, k@, v);
                }
            },
            None => {
                self.entries.push((k, v));
                proof {
                    assert(self@ =~= map_upsert(pre, k@, v));
                    lemma_upsert_keys_unique(pre, k@, v);
                }
            },
        }
    }

    pub fn key_at(&self, i: usize) -> (r: &String)
        requires
            i < self@.len(),
        ensures
            r@ == self@[i as int].0,
    {
        &self.entries[i].0
    }

    pub fn value_at(&self, i: usize) -> (r: &V)
        requires
            i < self@.len(),
        ensures
            *r == self@[i as int].1,
    {
        &self.entries[i].1
    }
}

} // verus!
