//! The canonical ranking used by the query surfaces: rows ordered by a key,
//! descending, rows of equal key kept in their original order. Defined as a
//! function of the input, so a ranked view is fully determined.

use vstd::prelude::*;

verus! {

/// `i` points at the first row with the maximal key.
pub open spec fn is_first_max<T>(s: Seq<T>, key: spec_fn(T) -> u64, i: int) -> bool {
    &&& 0 <= i < s.len()
    &&& forall|j: int| 0 <= j < s.len() ==> key(#[trigger] s[j]) <= key(s[i])
    &&& forall|j: int| 0 <= j < i ==> key(#[trigger] s[j]) < key(s[i])
}

/// The position of the first maximal row.
pub open spec fn first_max_idx<T>(s: Seq<T>, key: spec_fn(T) -> u64) -> int {
    choose|i: int| is_first_max(s, key, i)
}

/// Every non-empty sequence has a first maximal row.
pub proof fn lemma_first_max_exists<T>(s: Seq<T>, key: spec_fn(T) -> u64)
    requires
        s.len() > 0,
    ensures
        is_first_max(s, key, first_max_idx(s, key)),
    decreases s.len(),
{
    if s.len() == 1 {
        assert(is_first_max(s, key, 0));
    } else {
        let head = s.drop_last();
        lemma_first_max_exists(head, key);
        let i = first_max_idx(head, key);
        assert(forall|j: int| 0 <= j < head.len() ==> #[trigger] s[j] == head[j]);
        if key(s.last()) > key(head[i]) {
            assert(is_first_max(s, key, s.len() - 1));
        } else {
            assert(is_first_max(s, key, i));
        }
    }
}

/// And only one.
pub proof fn lemma_first_max_unique<T>(s: Seq<T>, key: spec_fn(T) -> u64, i1: int, i2: int)
    requires
        is_first_max(s, key, i1),
        is_first_max(s, key, i2),
    ensures
        i1 == i2,
{
    if i1 < i2 {
        assert(key(s[i1]) < key(s[i2]));
        assert(key(s[i2]) <= key(s[i1]));
    }
    if i2 < i1 {
        assert(key(s[i2]) < key(s[i1]));
        assert(key(s[i1]) <= key(s[i2]));
    }
}

/// The ranking: the first maximal row, then the ranking of the rest. (The
/// index is clipped so the definition is total; for a non-empty sequence the
/// first maximal row always exists.)
pub open spec fn spec_ranked<T>(s: Seq<T>, key: spec_fn(T) -> u64) -> Seq<T>
    decreases s.len(),
{
    if s.len() == 0 {
        s
    } else {
        let i0 = first_max_idx(s, key);
        let i = if 0 <= i0 < s.len() {
            i0
        } else {
            0
        };
        seq![s[i]] + spec_ranked(s.remove(i), key)
    }
}

/// Peeling the first maximal row off a non-empty sequence is one step of the
/// ranking.
pub proof fn lemma_ranked_step<T>(s: Seq<T>, key: spec_fn(T) -> u64, i: int)
    requires
        is_first_max(s, key, i),
    ensures
        spec_ranked(s, key) == seq![s[i]] + spec_ranked(s.remove(i), key),
{
    lemma_first_max_exists(s, key);
    lemma_first_max_unique(s, key, i, first_max_idx(s, key));
}

/// The ranking keeps every row: same length.
pub proof fn lemma_ranked_len<T>(s: Seq<T>, key: spec_fn(T) -> u64)
    ensures
        spec_ranked(s, key).len() == s.len(),
    decreases s.len(),
{
    if s.len() > 0 {
        lemma_first_max_exists(s, key);
        let i = first_max_idx(s, key);
        lemma_ranked_len(s.remove(i), key);
    }
}

} // verus!
