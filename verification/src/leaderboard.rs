//! The aggregator actor: per-subject win/loss/match counters with a derived
//! score. Every surface consults the idempotency store before applying an
//! effect — each subject's half of a match is counted at most once, however
//! often it is redelivered — and a ranked view shows the committed counters.

use vstd::prelude::*;
use crate::ActorError;
use crate::idempotency::ProcessedSet;
use vstd::string::StringExecFns;
use crate::strmap::{
    StrMap, lemma_has_key_iff_keys_contain, lemma_map_entries_lookup, lemma_map_entries_upsert,
    lemma_upsert_map_keys, map_entries, map_has_key, map_keys, map_upsert, map_value,
};

verus! {

broadcast use vstd::seq_lib::group_to_multiset_ensures, vstd::multiset::group_multiset_axioms;

/// One row of the ranked leaderboard view.
#[derive(Clone, Debug)]
pub struct LeaderboardEntry {
    pub user_id: String,
    pub total_matches: u64,
    pub total_wins: u64,
    pub total_losses: u64,
    pub score: u64,
}

/// The mathematical shadow of a `LeaderboardEntry`.
#[verifier::ext_equal]
pub struct EntryView {
    pub user_id: Seq<char>,
    pub total_matches: u64,
    pub total_wins: u64,
    pub total_losses: u64,
    pub score: u64,
}

impl View for LeaderboardEntry {
    type V = EntryView;

    open spec fn view(&self) -> EntryView {
        EntryView {
            user_id: self.user_id@,
            total_matches: self.total_matches,
            total_wins: self.total_wins,
            total_losses: self.total_losses,
            score: self.score,
        }
    }
}

/// A locally originated command for the aggregator.
#[derive(Clone, Debug)]
pub enum Operation {
    RecordScore { user_id: String, is_winner: bool, match_id: String },
}

/// One subject's result of one match, delivered from the recording actor.
#[derive(Clone, Debug)]
pub struct RecordScoreMessage {
    pub user_id: String,
    pub is_winner: bool,
    pub match_id: String,
}

/// The mathematical shadow of a `RecordScoreMessage`.
#[verifier::ext_equal]
pub struct RecordScoreView {
    pub user_id: Seq<char>,
    pub is_winner: bool,
    pub match_id: Seq<char>,
}

impl View for RecordScoreMessage {
    type V = RecordScoreView;

    open spec fn view(&self) -> RecordScoreView {
        RecordScoreView {
            user_id: self.user_id@,
            is_winner: self.is_winner,
            match_id: self.match_id@,
        }
    }
}

/// Durable state of the aggregator actor.
pub struct LeaderboardState {
    pub total_wins: StrMap<u64>,
    pub total_losses: StrMap<u64>,
    pub total_matches: StrMap<u64>,
    pub scores: StrMap<u64>,
    pub processed_match_ids: ProcessedSet,
}

/// The abstract state of the aggregator: counters as natural numbers, in
/// first-seen subject order, plus the set of recorded match identifiers.
#[verifier::ext_equal]
pub struct AggModel {
    pub wins: Seq<(Seq<char>, nat)>,
    pub losses: Seq<(Seq<char>, nat)>,
    pub matches: Seq<(Seq<char>, nat)>,
    pub scores: Seq<(Seq<char>, nat)>,
    pub processed: Seq<Seq<char>>,
}

/// A counter read: zero for a subject never seen.
pub open spec fn count_of(s: Seq<(Seq<char>, nat)>, u: Seq<char>) -> nat {
    if map_has_key(s, u) {
        map_value(s, u)
    } else {
        0
    }
}

/// The embedding of stored counters into the model.
pub open spec fn as_nat_fn() -> spec_fn(u64) -> nat {
    |x: u64| x as nat
}

pub open spec fn nat_views(s: Seq<(Seq<char>, u64)>) -> Seq<(Seq<char>, nat)> {
    map_entries(s, as_nat_fn())
}

/// The idempotency key of one subject's half of one match: the match
/// identifier paired with the subject. A match touches two subjects, so the
/// store is keyed by (event id, effect) — dedup per half, and the loser's
/// half of a match is never swallowed by the winner's.
pub open spec fn update_key(match_id: Seq<char>, user: Seq<char>) -> Seq<char> {
    match_id + ":"@ + user
}

/// Distinct subjects of one match have distinct idempotency keys.
pub proof fn lemma_update_key_injective(match_id: Seq<char>, u1: Seq<char>, u2: Seq<char>)
    requires
        u1 != u2,
    ensures
        update_key(match_id, u1) != update_key(match_id, u2),
{
    reveal_strlit(":");
    let k1 = update_key(match_id, u1);
    let k2 = update_key(match_id, u2);
    assert(k1.len() == match_id.len() + 1 + u1.len());
    assert(k2.len() == match_id.len() + 1 + u2.len());
    if k1 == k2 {
        assert(u1.len() == u2.len());
        assert forall|i: int| 0 <= i < u1.len() implies u1[i] == u2[i] by {
            assert(k1[match_id.len() as int + 1 + i] == u1[i]);
            assert(k2[match_id.len() as int + 1 + i] == u2[i]);
        }
        assert(u1 =~= u2);
    }
}

proof fn lemma_push_keeps_contains(s: Seq<Seq<char>>, x: Seq<char>, e: Seq<char>)
    requires
        s.contains(e),
    ensures
        s.push(x).contains(e),
{
    let i = choose|i: int| 0 <= i < s.len() && s[i] == e;
    assert(s.push(x)[i] == e);
}

fn make_update_key(match_id: &String, user_id: &String) -> (r: String)
    ensures
        r@ == update_key(match_id@, user_id@),
{
    let mut k = match_id.clone();
    k.append(":");
    k.append(user_id.as_str());
    k
}

/// One subject takes one match result, at most once per match: if this half
/// of the match was already counted nothing changes; otherwise the winner
/// gains a win, the loser a loss, either gains a match, the score is the win
/// count, and the half is recorded as applied.
pub open spec fn spec_update(
    m: AggModel,
    user: Seq<char>,
    is_winner: bool,
    match_id: Seq<char>,
) -> AggModel {
    if m.processed.contains(update_key(match_id, user)) {
        m
    } else {
        let w = count_of(m.wins, user) + if is_winner {
            1nat
        } else {
            0nat
        };
        let l = count_of(m.losses, user) + if is_winner {
            0nat
        } else {
            1nat
        };
        let t = count_of(m.matches, user) + 1;
        AggModel {
            wins: map_upsert(m.wins, user, w),
            losses: map_upsert(m.losses, user, l),
            matches: map_upsert(m.matches, user, t),
            scores: map_upsert(m.scores, user, w),
            processed: m.processed.push(update_key(match_id, user)),
        }
    }
}

/// One match outcome: both subjects updated in one unit, each half at most
/// once per `event_id`. A repeat application is a successful no-op.
pub open spec fn spec_record_outcome(
    m: AggModel,
    winner: Seq<char>,
    loser: Seq<char>,
    event_id: Seq<char>,
) -> AggModel {
    spec_update(spec_update(m, winner, true, event_id), loser, false, event_id)
}

/// `n` identical applications of one outcome.
pub open spec fn repeat_record_outcome(
    m: AggModel,
    winner: Seq<char>,
    loser: Seq<char>,
    event_id: Seq<char>,
    n: nat,
) -> AggModel
    decreases n,
{
    if n == 0 {
        m
    } else {
        spec_record_outcome(
            repeat_record_outcome(m, winner, loser, event_id, (n - 1) as nat),
            winner,
            loser,
            event_id,
        )
    }
}

/// Law: one subject's half of one match is counted at most once — a
/// redelivered per-subject update is a no-op.
pub proof fn lemma_update_idempotent(
    m: AggModel,
    user: Seq<char>,
    is_winner: bool,
    match_id: Seq<char>,
)
    ensures
        spec_update(spec_update(m, user, is_winner, match_id), user, is_winner, match_id)
            == spec_update(m, user, is_winner, match_id),
{
    let k = update_key(match_id, user);
    let m1 = spec_update(m, user, is_winner, match_id);
    if !m.processed.contains(k) {
        assert(m1.processed.last() == k);
        assert(m1.processed.contains(k));
    }
}

/// Law: recording the same outcome a second time changes nothing.
pub proof fn lemma_record_outcome_idempotent(
    m: AggModel,
    winner: Seq<char>,
    loser: Seq<char>,
    event_id: Seq<char>,
)
    ensures
        spec_record_outcome(spec_record_outcome(m, winner, loser, event_id), winner, loser, event_id)
            == spec_record_outcome(m, winner, loser, event_id),
{
    let kw = update_key(event_id, winner);
    let kl = update_key(event_id, loser);
    let m1 = spec_update(m, winner, true, event_id);
    let m2 = spec_update(m1, loser, false, event_id);
    assert(m1.processed.contains(kw)) by {
        if !m.processed.contains(kw) {
            assert(m1.processed.last() == kw);
        }
    }
    assert(m2.processed.contains(kw)) by {
        if !m1.processed.contains(kl) {
            lemma_push_keeps_contains(m1.processed, kl, kw);
        }
    }
    assert(m2.processed.contains(kl)) by {
        if !m1.processed.contains(kl) {
            assert(m2.processed.last() == kl);
        }
    }
    assert(spec_update(m2, winner, true, event_id) == m2);
    assert(spec_update(m2, loser, false, event_id) == m2);
}

/// Law: applying one outcome `n >= 1` times, with identical arguments, yields
/// the same counters as applying it exactly once.
pub proof fn lemma_record_outcome_n_times(
    m: AggModel,
    winner: Seq<char>,
    loser: Seq<char>,
    event_id: Seq<char>,
    n: nat,
)
    requires
        n >= 1,
    ensures
        repeat_record_outcome(m, winner, loser, event_id, n) == spec_record_outcome(
            m,
            winner,
            loser,
            event_id,
        ),
    decreases n,
{
    if n > 1 {
        lemma_record_outcome_n_times(m, winner, loser, event_id, (n - 1) as nat);
        lemma_record_outcome_idempotent(m, winner, loser, event_id);
    } else {
        assert(repeat_record_outcome(m, winner, loser, event_id, 0) == m);
    }
}

/// A stored counter read at the representation level, zero when absent.
pub open spec fn count64(s: Seq<(Seq<char>, u64)>, u: Seq<char>) -> u64 {
    if map_has_key(s, u) {
        map_value(s, u)
    } else {
        0
    }
}

/// The entry views of a sequence of rows.
pub open spec fn views_of(s: Seq<LeaderboardEntry>) -> Seq<EntryView> {
    s.map(|i: int, e: LeaderboardEntry| e@)
}

/// Ranked: scores never increase along the sequence.
pub open spec fn sorted_desc(s: Seq<EntryView>) -> bool {
    forall|a: int, b: int| 0 <= a < b < s.len() ==> s[a].score >= s[b].score
}

/// The key the ranking orders by: the row's score.
pub open spec fn entry_score_fn() -> spec_fn(EntryView) -> u64 {
    |e: EntryView| e.score
}

/// How many rows a query keeps.
pub open spec fn spec_limit(limit: Option<u64>, n: int) -> int {
    match limit {
        Some(l) => {
            if (l as int) < n {
                l as int
            } else {
                n
            }
        },
        None => n,
    }
}

/// `out` is a ranking of `rows` truncated to `limit`: some descending
/// reordering of exactly those rows, with the first `limit` kept.
pub open spec fn is_ranked_view(
    rows: Seq<EntryView>,
    limit: Option<u64>,
    out: Seq<EntryView>,
) -> bool {
    exists|all: Seq<EntryView>|
        {
            &&& #[trigger] all.to_multiset() == rows.to_multiset()
            &&& sorted_desc(all)
            &&& out == all.take(spec_limit(limit, all.len() as int))
        }
}

/// A stored counter read, zero when absent.
fn get_or_zero(m: &StrMap<u64>, k: &String) -> (r: u64)
    requires
        m.wf(),
    ensures
        r as nat == count_of(nat_views(m@), k@),
        r == count64(m@, k@),
{
    proof {
        lemma_map_entries_lookup(m@, as_nat_fn());
    }
    match m.get(k) {
        Some(v) => *v,
        None => 0,
    }
}

/// Reorders rows by score, descending, keeping exactly the same rows.
/// Rows of equal score are kept in their first-seen order (the first maximal
/// row is taken first), so the result is the one canonical ranking.
fn sort_entries_desc(v: Vec<LeaderboardEntry>) -> (r: Vec<LeaderboardEntry>)
    ensures
        views_of(r@) == crate::ranking::spec_ranked(views_of(v@), entry_score_fn()),
        views_of(r@).to_multiset() == views_of(v@).to_multiset(),
        sorted_desc(views_of(r@)),
{
    let ghost key = entry_score_fn();
    let mut src = v;
    let mut out: Vec<LeaderboardEntry> = Vec::new();
    proof {
        assert(views_of(out@) =~= Seq::<EntryView>::empty());
        assert(views_of(out@).to_multiset().add(views_of(src@).to_multiset()) =~= views_of(
            src@,
        ).to_multiset());
        assert(views_of(out@) + crate::ranking::spec_ranked(views_of(src@), key)
            =~= crate::ranking::spec_ranked(views_of(src@), key));
    }
    let ghost orig = views_of(src@).to_multiset();
    let ghost target = crate::ranking::spec_ranked(views_of(src@), key);
    while src.len() > 0
        invariant
            key == entry_score_fn(),
            views_of(out@).to_multiset().add(views_of(src@).to_multiset()) == orig,
            views_of(out@) + crate::ranking::spec_ranked(views_of(src@), key) == target,
            sorted_desc(views_of(out@)),
            forall|a: int, b: int|
                0 <= a < out@.len() && 0 <= b < src@.len() ==> views_of(out@)[a].score >= views_of(
                    src@,
                )[b].score,
        decreases src.len(),
    {
        let mut mx: usize = 0;
        let mut k: usize = 1;
        while k < src.len()
            invariant
                mx < src@.len(),
                k <= src@.len(),
                mx < k || mx == 0,
                forall|j: int| 0 <= j < k ==> src@[mx as int].score >= src@[j].score,
                forall|j: int| 0 <= j < mx ==> src@[j].score < src@[mx as int].score,
            decreases src.len() - k,
        {
            if src[k].score > src[mx].score {
                mx = k;
            }
            k = k + 1;
        }
        let ghost old_out = out@;
        let ghost old_src = src@;
        proof {
            assert(crate::ranking::is_first_max(views_of(old_src), key, mx as int));
        }
        let e = src.remove(mx);
        out.push(e);
        proof {
            let ev = e@;
            assert(views_of(old_src)[mx as int] == ev);
            assert(views_of(src@) =~= views_of(old_src).remove(mx as int));
            assert(views_of(out@) =~= views_of(old_out).push(ev));
            assert(views_of(old_src).to_multiset().contains(ev)) by {
                assert(views_of(old_src).contains(ev));
            }
            assert(views_of(out@).to_multiset().add(views_of(src@).to_multiset()) =~= views_of(
                old_out,
            ).to_multiset().add(views_of(old_src).to_multiset()));
            crate::ranking::lemma_ranked_step(views_of(old_src), key, mx as int);
            assert(views_of(out@) + crate::ranking::spec_ranked(views_of(src@), key)
                =~= views_of(old_out) + crate::ranking::spec_ranked(views_of(old_src), key));
            assert forall|a: int, b: int|
                0 <= a < out@.len() && 0 <= b < src@.len() implies views_of(out@)[a].score
                >= views_of(src@)[b].score by {
                if a < old_out.len() {
                    assert(views_of(out@)[a] == views_of(old_out)[a]);
                } else {
                    assert(views_of(out@)[a] == ev);
                }
                if b < mx as int {
                    assert(views_of(src@)[b] == views_of(old_src)[b]);
                } else {
                    assert(views_of(src@)[b] == views_of(old_src)[b + 1]);
                }
            }
        }
    }
    proof {
        assert(views_of(out@) =~= target);
    }
    out
}

impl LeaderboardState {
    /// The committed rows of the ranked view, one per subject, in the order
    /// the subjects were first seen.
    pub open spec fn rows(&self) -> Seq<EntryView> {
        Seq::new(
            self.scores@.len(),
            |i: int|
                EntryView {
                    user_id: self.scores@[i].0,
                    total_matches: count64(self.total_matches@, self.scores@[i].0),
                    total_wins: count64(self.total_wins@, self.scores@[i].0),
                    total_losses: count64(self.total_losses@, self.scores@[i].0),
                    score: self.scores@[i].1,
                },
        )
    }

    /// Well-formed: unique keys everywhere, and the four counter maps list
    /// exactly the same subjects in the same first-seen order, so a ranked
    /// view keyed on any one of them misses nobody.
    pub open spec fn wf(&self) -> bool {
        &&& self.total_wins.wf()
        &&& self.total_losses.wf()
        &&& self.total_matches.wf()
        &&& self.scores.wf()
        &&& self.processed_match_ids.wf()
        &&& map_keys(self.total_losses@) == map_keys(self.total_wins@)
        &&& map_keys(self.total_matches@) == map_keys(self.total_wins@)
        &&& map_keys(self.scores@) == map_keys(self.total_wins@)
    }

    pub open spec fn model(&self) -> AggModel {
        AggModel {
            wins: nat_views(self.total_wins@),
            losses: nat_views(self.total_losses@),
            matches: nat_views(self.total_matches@),
            scores: nat_views(self.scores@),
            processed: self.processed_match_ids@,
        }
    }

    pub fn new() -> (r: Self)
        ensures
            r.wf(),
            r.model().wins == Seq::<(Seq<char>, nat)>::empty(),
            r.model().losses == Seq::<(Seq<char>, nat)>::empty(),
            r.model().matches == Seq::<(Seq<char>, nat)>::empty(),
            r.model().scores == Seq::<(Seq<char>, nat)>::empty(),
            r.model().processed == Seq::<Seq<char>>::empty(),
    {
        let r = LeaderboardState {
            total_wins: StrMap::new(),
            total_losses: StrMap::new(),
            total_matches: StrMap::new(),
            scores: StrMap::new(),
            processed_match_ids: ProcessedSet::new(),
        };
        proof {
            assert(r.model().wins =~= Seq::<(Seq<char>, nat)>::empty());
            assert(r.model().losses =~= Seq::<(Seq<char>, nat)>::empty());
            assert(r.model().matches =~= Seq::<(Seq<char>, nat)>::empty());
            assert(r.model().scores =~= Seq::<(Seq<char>, nat)>::empty());
        }
        r
    }

    /// Applies one subject's side of one match result, at most once per
    /// (match identifier, subject): the idempotency store is consulted before
    /// any effect, so arbitrary redelivery of the per-subject message or
    /// operation is harmless.
    pub fn update_score_and_stats(&mut self, user_id: String, is_winner: bool, match_id: String)
        requires
            old(self).wf(),
            !old(self).model().processed.contains(update_key(match_id@, user_id@)) ==> {
                &&& is_winner ==> count_of(old(self).model().wins, user_id@) < u64::MAX
                &&& !is_winner ==> count_of(old(self).model().losses, user_id@) < u64::MAX
                &&& count_of(old(self).model().matches, user_id@) < u64::MAX
            },
        ensures
            final(self).wf(),
            final(self).model() == spec_update(old(self).model(), user_id@, is_winner, match_id@),
            old(self).model().processed.contains(update_key(match_id@, user_id@)) ==> *final(self)
                == *old(self),
            !old(self).model().processed.contains(update_key(match_id@, user_id@)) ==> {
                &&& count_of(final(self).model().wins, user_id@) == count_of(
                    old(self).model().wins,
                    user_id@,
                ) + (if is_winner {
                    1nat
                } else {
                    0nat
                })
                &&& count_of(final(self).model().losses, user_id@) == count_of(
                    old(self).model().losses,
                    user_id@,
                ) + (if is_winner {
                    0nat
                } else {
                    1nat
                })
                &&& count_of(final(self).model().matches, user_id@) == count_of(
                    old(self).model().matches,
                    user_id@,
                ) + 1
                &&& count_of(final(self).model().scores, user_id@) == count_of(
                    final(self).model().wins,
                    user_id@,
                )
                &&& final(self).model().processed == old(self).model().processed.push(
                    update_key(match_id@, user_id@),
                )
                &&& final(self).model().processed.contains(update_key(match_id@, user_id@))
            },
            forall|u: Seq<char>|
                u != user_id@ ==> #[trigger] count_of(final(self).model().wins, u) == count_of(
                    old(self).model().wins,
                    u,
                ),
            forall|u: Seq<char>|
                u != user_id@ ==> #[trigger] count_of(final(self).model().losses, u) == count_of(
                    old(self).model().losses,
                    u,
                ),
            forall|u: Seq<char>|
                u != user_id@ ==> #[trigger] count_of(final(self).model().matches, u) == count_of(
                    old(self).model().matches,
                    u,
                ),
            forall|u: Seq<char>|
                u != user_id@ ==> #[trigger] count_of(final(self).model().scores, u) == count_of(
                    old(self).model().scores,
                    u,
                ),
    {
        let ghost uv = user_id@;
        let dedup_key = make_update_key(&match_id, &user_id);
        if self.processed_match_ids.has(&dedup_key) {
            return ;
        }
        let current_wins = get_or_zero(&self.total_wins, &user_id);
        let current_losses = get_or_zero(&self.total_losses, &user_id);
        let current_matches = get_or_zero(&self.total_matches, &user_id);
        let new_wins = if is_winner {
            current_wins + 1
        } else {
            current_wins
        };
        let new_losses = if is_winner {
            current_losses
        } else {
            current_losses + 1
        };
        let new_matches = current_matches + 1;
        proof {
            lemma_map_entries_upsert(self.total_wins@, uv, new_wins, as_nat_fn());
            lemma_map_entries_upsert(self.total_losses@, uv, new_losses, as_nat_fn());
            lemma_map_entries_upsert(self.total_matches@, uv, new_matches, as_nat_fn());
            lemma_map_entries_upsert(self.scores@, uv, new_wins, as_nat_fn());
        }
        self.total_wins.insert(user_id.clone(), new_wins);
        self.total_losses.insert(user_id.clone(), new_losses);
        self.total_matches.insert(user_id.clone(), new_matches);
        self.scores.insert(user_id.clone(), new_wins);
        let _marked = self.processed_match_ids.mark(dedup_key);
        proof {
            assert(final(self).model() =~= spec_update(
                old(self).model(),
                uv,
                is_winner,
                match_id@,
            ));
            assert(final(self).model().processed.last() == update_key(match_id@, uv));
            lemma_map_entries_lookup(old(self).total_wins@, as_nat_fn());
            lemma_map_entries_lookup(old(self).total_losses@, as_nat_fn());
            lemma_map_entries_lookup(old(self).total_matches@, as_nat_fn());
            lemma_map_entries_lookup(old(self).scores@, as_nat_fn());
            crate::strmap::lemma_upsert_lookup(old(self).model().wins, uv, new_wins as nat);
            crate::strmap::lemma_upsert_lookup(old(self).model().losses, uv, new_losses as nat);
            crate::strmap::lemma_upsert_lookup(old(self).model().matches, uv, new_matches as nat);
            crate::strmap::lemma_upsert_lookup(old(self).model().scores, uv, new_wins as nat);
            // the four key lists stay aligned
            lemma_has_key_iff_keys_contain(old(self).total_wins@, uv);
            lemma_has_key_iff_keys_contain(old(self).total_losses@, uv);
            lemma_has_key_iff_keys_contain(old(self).total_matches@, uv);
            lemma_has_key_iff_keys_contain(old(self).scores@, uv);
            lemma_upsert_map_keys(old(self).total_wins@, uv, new_wins);
            lemma_upsert_map_keys(old(self).total_losses@, uv, new_losses);
            lemma_upsert_map_keys(old(self).total_matches@, uv, new_matches);
            lemma_upsert_map_keys(old(self).scores@, uv, new_wins);
        }
    }

    /// Records one whole match outcome: winner and loser updated in one unit,
    /// each half at most once per `event_id`. Empty identifiers and a winner
    /// equal to the loser are refused before any effect; a repeat application
    /// is a successful no-op.
    pub fn record_outcome(&mut self, winner: String, loser: String, event_id: String) -> (r:
        Result<(), ActorError>)
        requires
            old(self).wf(),
            count_of(old(self).model().wins, winner@) < u64::MAX,
            count_of(old(self).model().matches, winner@) < u64::MAX,
            count_of(old(self).model().losses, loser@) < u64::MAX,
            count_of(old(self).model().matches, loser@) < u64::MAX,
        ensures
            final(self).wf(),
            r is Ok <==> (winner@.len() > 0 && loser@.len() > 0 && event_id@.len() > 0 && winner@
                != loser@),
            r is Ok ==> final(self).model() == spec_record_outcome(
                old(self).model(),
                winner@,
                loser@,
                event_id@,
            ),
            r is Ok && old(self).model().processed.contains(update_key(event_id@, winner@))
                && old(self).model().processed.contains(update_key(event_id@, loser@))
                ==> *final(self) == *old(self),
            r is Ok && !old(self).model().processed.contains(update_key(event_id@, winner@))
                && !old(self).model().processed.contains(update_key(event_id@, loser@)) ==> {
                &&& count_of(final(self).model().wins, winner@) == count_of(
                    old(self).model().wins,
                    winner@,
                ) + 1
                &&& count_of(final(self).model().losses, winner@) == count_of(
                    old(self).model().losses,
                    winner@,
                )
                &&& count_of(final(self).model().matches, winner@) == count_of(
                    old(self).model().matches,
                    winner@,
                ) + 1
                &&& count_of(final(self).model().wins, loser@) == count_of(
                    old(self).model().wins,
                    loser@,
                )
                &&& count_of(final(self).model().losses, loser@) == count_of(
                    old(self).model().losses,
                    loser@,
                ) + 1
                &&& count_of(final(self).model().matches, loser@) == count_of(
                    old(self).model().matches,
                    loser@,
                ) + 1
                &&& final(self).model().processed.contains(update_key(event_id@, winner@))
                &&& final(self).model().processed.contains(update_key(event_id@, loser@))
            },
            r is Err ==> *final(self) == *old(self) && r == Err::<(), ActorError>(
                ActorError::InvalidInput,
            ),
    {
        let ghost wv = winner@;
        let ghost lv = loser@;
        let ghost ev = event_id@;
        if winner.as_str().is_empty() || loser.as_str().is_empty() || event_id.as_str().is_empty()
            || winner == loser {
            return Err(ActorError::InvalidInput);
        }
        let ghost m0 = self.model();
        let ghost kw = update_key(ev, wv);
        let ghost kl = update_key(ev, lv);
        self.update_score_and_stats(winner, true, event_id.clone());
        proof {
            lemma_map_entries_lookup(old(self).total_losses@, as_nat_fn());
            lemma_map_entries_lookup(old(self).total_matches@, as_nat_fn());
            if !m0.processed.contains(kw) {
                crate::strmap::lemma_upsert_lookup(m0.losses, wv, count_of(m0.losses, wv));
                crate::strmap::lemma_upsert_lookup(m0.matches, wv, count_of(m0.matches, wv) + 1);
            }
            assert(count_of(self.model().losses, lv) == count_of(m0.losses, lv));
            assert(count_of(self.model().matches, lv) == count_of(m0.matches, lv));
            lemma_update_key_injective(ev, wv, lv);
            if !m0.processed.contains(kl) {
                assert(!self.model().processed.contains(kl)) by {
                    if self.model().processed.contains(kl) {
                        let i = choose|i: int|
                            0 <= i < self.model().processed.len() && self.model().processed[i]
                                == kl;
                        if i < m0.processed.len() {
                            assert(m0.processed[i] == kl);
                            assert(m0.processed.contains(kl));
                        }
                    }
                }
            }
        }
        let ghost mid = self.model();
        self.update_score_and_stats(loser, false, event_id);
        proof {
            assert(final(self).model() =~= spec_record_outcome(old(self).model(), wv, lv, ev));
            assert(count_of(self.model().wins, wv) == count_of(mid.wins, wv));
            assert(count_of(self.model().matches, wv) == count_of(mid.matches, wv));
            assert(count_of(self.model().losses, wv) == count_of(mid.losses, wv));
            if !m0.processed.contains(kw) && !m0.processed.contains(kl) {
                assert(mid.processed == m0.processed.push(kw));
                assert(mid.processed.contains(kw)) by {
                    assert(mid.processed.last() == kw);
                }
                assert(self.model().processed == mid.processed.push(kl));
                lemma_push_keeps_contains(mid.processed, kl, kw);
                assert(self.model().processed.contains(kl)) by {
                    assert(self.model().processed.last() == kl);
                }
            }
        }
        Ok(())
    }

    /// Dispatches one locally originated command; a command whose half of the
    /// match was already counted changes nothing.
    pub fn execute_operation(&mut self, operation: Operation)
        requires
            old(self).wf(),
            match operation {
                Operation::RecordScore { user_id, is_winner, match_id } => !old(
                    self,
                ).model().processed.contains(update_key(match_id@, user_id@)) ==> {
                    &&& is_winner ==> count_of(old(self).model().wins, user_id@) < u64::MAX
                    &&& !is_winner ==> count_of(old(self).model().losses, user_id@) < u64::MAX
                    &&& count_of(old(self).model().matches, user_id@) < u64::MAX
                },
            },
        ensures
            final(self).wf(),
            match operation {
                Operation::RecordScore { user_id, is_winner, match_id } => {
                    &&& final(self).model() == spec_update(
                        old(self).model(),
                        user_id@,
                        is_winner,
                        match_id@,
                    )
                    &&& old(self).model().processed.contains(update_key(match_id@, user_id@))
                        ==> *final(self) == *old(self)
                    &&& !old(self).model().processed.contains(update_key(match_id@, user_id@))
                        ==> {
                        &&& count_of(final(self).model().wins, user_id@) == count_of(
                            old(self).model().wins,
                            user_id@,
                        ) + (if is_winner {
                            1nat
                        } else {
                            0nat
                        })
                        &&& count_of(final(self).model().losses, user_id@) == count_of(
                            old(self).model().losses,
                            user_id@,
                        ) + (if is_winner {
                            0nat
                        } else {
                            1nat
                        })
                        &&& count_of(final(self).model().matches, user_id@) == count_of(
                            old(self).model().matches,
                            user_id@,
                        ) + 1
                        &&& final(self).model().processed.contains(
                            update_key(match_id@, user_id@),
                        )
                    }
                },
            },
    {
        match operation {
            Operation::RecordScore { user_id, is_winner, match_id } => {
                self.update_score_and_stats(user_id, is_winner, match_id);
            },
        }
    }

    /// Dispatches one inbound per-subject message; redelivery, however late
    /// and however often, changes nothing once the half is counted.
    pub fn execute_message(&mut self, message: RecordScoreMessage)
        requires
            old(self).wf(),
            !old(self).model().processed.contains(
                update_key(message.match_id@, message.user_id@),
            ) ==> {
                &&& message.is_winner ==> count_of(old(self).model().wins, message.user_id@)
                    < u64::MAX
                &&& !message.is_winner ==> count_of(old(self).model().losses, message.user_id@)
                    < u64::MAX
                &&& count_of(old(self).model().matches, message.user_id@) < u64::MAX
            },
        ensures
            final(self).wf(),
            final(self).model() == spec_update(
                old(self).model(),
                message.user_id@,
                message.is_winner,
                message.match_id@,
            ),
            old(self).model().processed.contains(update_key(message.match_id@, message.user_id@))
                ==> *final(self) == *old(self),
            !old(self).model().processed.contains(update_key(message.match_id@, message.user_id@))
                ==> {
                &&& count_of(final(self).model().wins, message.user_id@) == count_of(
                    old(self).model().wins,
                    message.user_id@,
                ) + (if message.is_winner {
                    1nat
                } else {
                    0nat
                })
                &&& count_of(final(self).model().losses, message.user_id@) == count_of(
                    old(self).model().losses,
                    message.user_id@,
                ) + (if message.is_winner {
                    0nat
                } else {
                    1nat
                })
                &&& count_of(final(self).model().matches, message.user_id@) == count_of(
                    old(self).model().matches,
                    message.user_id@,
                ) + 1
                &&& final(self).model().processed.contains(
                    update_key(message.match_id@, message.user_id@),
                )
            },
    {
        let RecordScoreMessage { user_id, is_winner, match_id } = message;
        self.update_score_and_stats(user_id, is_winner, match_id);
    }

    /// The ranked view of the committed counters: every subject's row,
    /// ordered by score descending — rows of equal score in first-seen
    /// order — truncated to `limit` rows if one is given. The result is a
    /// function of the committed state alone.
    pub fn leaderboard(&self, limit: Option<u64>) -> (r: Vec<LeaderboardEntry>)
        requires
            self.wf(),
        ensures
            views_of(r@) == crate::ranking::spec_ranked(self.rows(), entry_score_fn()).take(
                spec_limit(limit, self.rows().len() as int),
            ),
            is_ranked_view(self.rows(), limit, views_of(r@)),
    {
        let mut entries: Vec<LeaderboardEntry> = Vec::new();
        let n = self.scores.len();
        let mut i: usize = 0;
        proof {
            assert(views_of(entries@) =~= self.rows().take(0));
        }
        while i < n
            invariant
                self.wf(),
                n == self.scores@.len(),
                i <= n,
                views_of(entries@) == self.rows().take(i as int),
            decreases n - i,
        {
            let user = self.scores.key_at(i).clone();
            let score = *self.scores.value_at(i);
            let wins = get_or_zero(&self.total_wins, &user);
            let losses = get_or_zero(&self.total_losses, &user);
            let played = get_or_zero(&self.total_matches, &user);
            let entry = LeaderboardEntry {
                user_id: user,
                total_matches: played,
                total_wins: wins,
                total_losses: losses,
                score,
            };
            proof {
                assert(entry@ =~= self.rows()[i as int]);
            }
            let ghost pre_entries = entries@;
            let ghost ev = entry@;
            entries.push(entry);
            proof {
                assert(views_of(entries@) =~= views_of(pre_entries).push(ev));
                assert(self.rows().take(i as int + 1) =~= self.rows().take(i as int).push(
                    self.rows()[i as int],
                ));
                assert(views_of(entries@) =~= self.rows().take(i as int + 1));
            }
            i = i + 1;
        }
        proof {
            assert(views_of(entries@) =~= self.rows());
        }
        let mut ranked = sort_entries_desc(entries);
        let ghost all = views_of(ranked@);
        let keep: usize = match limit {
            Some(l) => {
                let len_u64 = ranked.len() as u64;
                let keep_u64: u64 = if l < len_u64 {
                    l
                } else {
                    len_u64
                };
                keep_u64 as usize
            },
            None => ranked.len(),
        };
        ranked.truncate(keep);
        proof {
            assert(views_of(ranked@) =~= all.take(spec_limit(limit, all.len() as int)));
            assert(all.to_multiset() == self.rows().to_multiset());
            assert(is_ranked_view(self.rows(), limit, views_of(ranked@)));
            crate::ranking::lemma_ranked_len(self.rows(), entry_score_fn());
            assert(all == crate::ranking::spec_ranked(self.rows(), entry_score_fn()));
        }
        ranked
    }

    /// The committed score of one subject.
    pub fn score(&self, user_id: &String) -> (r: Option<u64>)
        requires
            self.wf(),
        ensures
            match r {
                Some(v) => map_has_key(self.model().scores, user_id@) && v as nat == map_value(
                    self.model().scores,
                    user_id@,
                ),
                None => !map_has_key(self.model().scores, user_id@),
            },
    {
        proof {
            lemma_map_entries_lookup(self.scores@, as_nat_fn());
        }
        match self.scores.get(user_id) {
            Some(v) => Some(*v),
            None => None,
        }
    }
}

} // verus!
