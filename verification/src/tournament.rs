//! The tournament actor: participants, per-match results, a tournament-local
//! score table, and the champion decided by the final match.

use vstd::prelude::*;
use crate::strmap::{StrMap, map_has_key, map_upsert, map_value};

verus! {

broadcast use vstd::seq_lib::group_to_multiset_ensures, vstd::multiset::group_multiset_axioms;

/// A locally originated command for the tournament actor.
#[derive(Clone, Debug)]
pub enum Operation {
    CreateTournament { name: String, start_time: u64, end_time: u64 },
    Register { player: String },
    RecordMatch { match_id: String, winner: String, loser: String },
    CloseTournament,
}

/// One subject's result of one match (kept for cross-actor transport
/// symmetry with the aggregator's message of the same shape).
#[derive(Clone, Debug)]
pub struct RecordScoreMessage {
    pub user_id: String,
    pub is_winner: bool,
    pub match_id: String,
}

/// Durable state of the tournament actor.
pub struct TournamentState {
    pub tournament_name: String,
    pub start_time: u64,
    pub end_time: u64,
    pub participants: StrMap<bool>,
    pub results: StrMap<(String, String)>,
    pub status: String,
    pub current_round: String,
    pub champion: String,
    pub runner_up: String,
    pub tournament_leaderboard: StrMap<u64>,
    pub opid: String,
}

/// A score read, zero for an unlisted player.
pub open spec fn score_of(s: Seq<(Seq<char>, u64)>, u: Seq<char>) -> u64 {
    if map_has_key(s, u) {
        map_value(s, u)
    } else {
        0
    }
}

/// The entry views of the tournament ranking's rows.
pub open spec fn pair_views(s: Seq<(String, u64)>) -> Seq<(Seq<char>, u64)> {
    s.map(|i: int, e: (String, u64)| (e.0@, e.1))
}

/// Ranked: scores never increase along the sequence.
pub open spec fn scores_sorted_desc(s: Seq<(Seq<char>, u64)>) -> bool {
    forall|a: int, b: int| 0 <= a < b < s.len() ==> s[a].1 >= s[b].1
}

/// The key the tournament ranking orders by: the row's score.
pub open spec fn pair_score_fn() -> spec_fn((Seq<char>, u64)) -> u64 {
    |e: (Seq<char>, u64)| e.1
}

/// Registering a list of players, first to last.
pub open spec fn add_players(m: Seq<(Seq<char>, bool)>, ps: Seq<String>) -> Seq<(Seq<char>, bool)>
    decreases ps.len(),
{
    if ps.len() == 0 {
        m
    } else {
        map_upsert(add_players(m, ps.drop_last()), ps.last()@, true)
    }
}

/// The final match decides the champion: its identifier begins with 'F'.
pub open spec fn spec_is_final(s: Seq<char>) -> bool {
    s.len() > 0 && s[0] == 'F'
}

fn is_final_match(match_id: &String) -> (r: bool)
    ensures
        r == spec_is_final(match_id@),
{
    let s = match_id.as_str();
    if s.unicode_len() == 0 {
        false
    } else {
        s.get_char(0) == 'F'
    }
}

impl TournamentState {
    pub open spec fn wf(&self) -> bool {
        &&& self.participants.wf()
        &&& self.results.wf()
        &&& self.tournament_leaderboard.wf()
    }

    pub fn new() -> (r: Self)
        ensures
            r.wf(),
            r.participants@ == Seq::<(Seq<char>, bool)>::empty(),
            r.results@ == Seq::<(Seq<char>, (String, String))>::empty(),
            r.tournament_leaderboard@ == Seq::<(Seq<char>, u64)>::empty(),
            r.tournament_name@ == Seq::<char>::empty(),
            r.status@ == Seq::<char>::empty(),
            r.current_round@ == Seq::<char>::empty(),
            r.champion@ == Seq::<char>::empty(),
            r.runner_up@ == Seq::<char>::empty(),
            r.opid@ == Seq::<char>::empty(),
            r.start_time == 0 && r.end_time == 0,
    {
        TournamentState {
            tournament_name: String::new(),
            start_time: 0,
            end_time: 0,
            participants: StrMap::new(),
            results: StrMap::new(),
            status: String::new(),
            current_round: String::new(),
            champion: String::new(),
            runner_up: String::new(),
            tournament_leaderboard: StrMap::new(),
            opid: String::new(),
        }
    }

    /// First-time setup: default metadata, an open status, the quarterfinal
    /// round, and the optional list of seeded players.
    #[verifier::loop_isolation(false)]
    pub fn instantiate(&mut self, players: Option<Vec<String>>)
        requires
            old(self).wf(),
        ensures
            final(self).wf(),
            final(self).tournament_name@ == "Tournament"@,
            final(self).start_time == 0 && final(self).end_time == 0,
            final(self).status@ == "Open"@,
            final(self).current_round@ == "Quarterfinal"@,
            final(self).champion@ == Seq::<char>::empty(),
            final(self).participants@ == add_players(
                old(self).participants@,
                match players {
                    Some(v) => v@,
                    None => Seq::empty(),
                },
            ),
            final(self).results@ == old(self).results@,
            final(self).tournament_leaderboard@ == old(self).tournament_leaderboard@,
            final(self).runner_up@ == old(self).runner_up@,
            final(self).opid@ == old(self).opid@,
    {
        self.tournament_name = "Tournament".to_owned();
        self.start_time = 0;
        self.end_time = 0;
        self.status = "Open".to_owned();
        self.current_round = "Quarterfinal".to_owned();
        self.champion = String::new();
        match players {
            Some(list) => {
                let n = list.len();
                let mut i: usize = 0;
                proof {
                    assert(self.participants@ =~= add_players(
                        old(self).participants@,
                        list@.take(0),
                    ));
                }
                while i < n
                    invariant
                        n == list@.len(),
                        i <= n,
                        self.participants.wf(),
                        self.participants@ == add_players(old(self).participants@, list@.take(
                            i as int,
                        )),
                        self.results.wf(),
                        self.tournament_leaderboard.wf(),
                        self.tournament_name@ == "Tournament"@,
                        self.start_time == 0,
                        self.end_time == 0,
                        self.status@ == "Open"@,
                        self.current_round@ == "Quarterfinal"@,
                        self.champion@ == Seq::<char>::empty(),
                        self.results@ == old(self).results@,
                        self.tournament_leaderboard@ == old(self).tournament_leaderboard@,
                        self.runner_up@ == old(self).runner_up@,
                        self.opid@ == old(self).opid@,
                    decreases n - i,
                {
                    let player = list[i].clone();
                    self.participants.insert(player, true);
                    proof {
                        assert(list@.take(i as int + 1).drop_last() =~= list@.take(i as int));
                        assert(self.participants@ =~= add_players(
                            old(self).participants@,
                            list@.take(i as int + 1),
                        ));
                    }
                    i = i + 1;
                }
                proof {
                    assert(list@.take(n as int) =~= list@);
                }
            },
            None => {
                proof {
                    assert(self.participants@ =~= add_players(
                        old(self).participants@,
                        Seq::<String>::empty(),
                    ));
                }
            },
        }
    }

    /// Opens the tournament with its metadata; `op_id` is the on-chain
    /// identity of this creation, handed in by the hosting runtime.
    pub fn create_tournament(&mut self, name: String, start_time: u64, end_time: u64, op_id: String)
        requires
            old(self).wf(),
        ensures
            final(self).wf(),
            final(self).tournament_name@ == name@,
            final(self).start_time == start_time,
            final(self).end_time == end_time,
            final(self).status@ == "Open"@,
            final(self).opid@ == op_id@,
            final(self).participants@ == old(self).participants@,
            final(self).results@ == old(self).results@,
            final(self).tournament_leaderboard@ == old(self).tournament_leaderboard@,
            final(self).champion@ == old(self).champion@,
            final(self).runner_up@ == old(self).runner_up@,
            final(self).current_round@ == old(self).current_round@,
    {
        self.tournament_name = name;
        self.start_time = start_time;
        self.end_time = end_time;
        self.status = "Open".to_owned();
        self.opid = op_id;
    }

    /// Registers one player; nothing else moves.
    pub fn register(&mut self, player: String)
        requires
            old(self).wf(),
        ensures
            final(self).wf(),
            final(self).participants@ == map_upsert(old(self).participants@, player@, true),
            final(self).results@ == old(self).results@,
            final(self).tournament_leaderboard@ == old(self).tournament_leaderboard@,
            final(self).status@ == old(self).status@,
            final(self).champion@ == old(self).champion@,
            final(self).runner_up@ == old(self).runner_up@,
            final(self).tournament_name@ == old(self).tournament_name@,
            final(self).start_time == old(self).start_time,
            final(self).end_time == old(self).end_time,
            final(self).current_round@ == old(self).current_round@,
            final(self).opid@ == old(self).opid@,
    {
        self.participants.insert(player, true);
    }

    /// Records one match, at most once per match identifier: a repeated
    /// identifier is detected by a presence check and changes nothing. On
    /// first record the result is stored, the winner gains a point on the
    /// tournament table, the loser is listed with an unchanged score, and a
    /// final match decides champion and runner-up.
    pub fn record_match(&mut self, match_id: String, winner: String, loser: String)
        requires
            old(self).wf(),
            !map_has_key(old(self).results@, match_id@) ==> score_of(
                old(self).tournament_leaderboard@,
                winner@,
            ) < u64::MAX,
        ensures
            final(self).wf(),
            map_has_key(old(self).results@, match_id@) ==> *final(self) == *old(self),
            !map_has_key(old(self).results@, match_id@) ==> {
                &&& final(self).results@ == map_upsert(
                    old(self).results@,
                    match_id@,
                    (winner, loser),
                )
                &&& final(self).tournament_leaderboard@ == ({
                    let after_win = map_upsert(
                        old(self).tournament_leaderboard@,
                        winner@,
                        (score_of(old(self).tournament_leaderboard@, winner@) + 1) as u64,
                    );
                    map_upsert(after_win, loser@, score_of(after_win, loser@))
                })
                &&& final(self).champion@ == (if spec_is_final(match_id@) {
                    winner@
                } else {
                    old(self).champion@
                })
                &&& final(self).runner_up@ == (if spec_is_final(match_id@) {
                    loser@
                } else {
                    old(self).runner_up@
                })
            },
            final(self).participants@ == old(self).participants@,
            final(self).status@ == old(self).status@,
            final(self).tournament_name@ == old(self).tournament_name@,
            final(self).start_time == old(self).start_time,
            final(self).end_time == old(self).end_time,
            final(self).current_round@ == old(self).current_round@,
            final(self).opid@ == old(self).opid@,
    {
        if self.results.contains_key(&match_id) {
            return ;
        }
        let deciding = is_final_match(&match_id);
        self.results.insert(match_id, (winner.clone(), loser.clone()));
        let win_score = match self.tournament_leaderboard.get(&winner) {
            Some(v) => *v,
            None => 0,
        };
        self.tournament_leaderboard.insert(winner.clone(), win_score + 1);
        let lose_score = match self.tournament_leaderboard.get(&loser) {
            Some(v) => *v,
            None => 0,
        };
        self.tournament_leaderboard.insert(loser.clone(), lose_score);
        if deciding {
            self.champion = winner;
            self.runner_up = loser;
        }
    }

    /// Closes the tournament; nothing but the status moves.
    pub fn close_tournament(&mut self)
        requires
            old(self).wf(),
        ensures
            final(self).wf(),
            final(self).status@ == "Finished"@,
            final(self).participants@ == old(self).participants@,
            final(self).results@ == old(self).results@,
            final(self).tournament_leaderboard@ == old(self).tournament_leaderboard@,
            final(self).champion@ == old(self).champion@,
            final(self).runner_up@ == old(self).runner_up@,
            final(self).tournament_name@ == old(self).tournament_name@,
            final(self).start_time == old(self).start_time,
            final(self).end_time == old(self).end_time,
            final(self).current_round@ == old(self).current_round@,
            final(self).opid@ == old(self).opid@,
    {
        self.status = "Finished".to_owned();
    }

    /// Dispatches one locally originated command; `op_id` is the on-chain
    /// identity of the enclosing transaction, used by `CreateTournament`.
    /// Each arm carries its method's full contract, frames included.
    pub fn execute_operation(&mut self, operation: Operation, op_id: String)
        requires
            old(self).wf(),
            match operation {
                Operation::RecordMatch { match_id, winner, loser } => !map_has_key(
                    old(self).results@,
                    match_id@,
                ) ==> score_of(old(self).tournament_leaderboard@, winner@) < u64::MAX,
                _ => true,
            },
        ensures
            final(self).wf(),
            match operation {
                Operation::CreateTournament { name, start_time, end_time } => {
                    &&& final(self).tournament_name@ == name@
                    &&& final(self).start_time == start_time
                    &&& final(self).end_time == end_time
                    &&& final(self).status@ == "Open"@
                    &&& final(self).opid@ == op_id@
                    &&& final(self).participants@ == old(self).participants@
                    &&& final(self).results@ == old(self).results@
                    &&& final(self).tournament_leaderboard@ == old(self).tournament_leaderboard@
                    &&& final(self).champion@ == old(self).champion@
                    &&& final(self).runner_up@ == old(self).runner_up@
                    &&& final(self).current_round@ == old(self).current_round@
                },
                Operation::Register { player } => {
                    &&& final(self).participants@ == map_upsert(
                        old(self).participants@,
                        player@,
                        true,
                    )
                    &&& final(self).results@ == old(self).results@
                    &&& final(self).tournament_leaderboard@ == old(self).tournament_leaderboard@
                    &&& final(self).status@ == old(self).status@
                    &&& final(self).champion@ == old(self).champion@
                    &&& final(self).runner_up@ == old(self).runner_up@
                    &&& final(self).tournament_name@ == old(self).tournament_name@
                    &&& final(self).start_time == old(self).start_time
                    &&& final(self).end_time == old(self).end_time
                    &&& final(self).current_round@ == old(self).current_round@
                    &&& final(self).opid@ == old(self).opid@
                },
                Operation::RecordMatch { match_id, winner, loser } => {
                    &&& map_has_key(old(self).results@, match_id@) ==> *final(self) == *old(self)
                    &&& !map_has_key(old(self).results@, match_id@) ==> {
                        &&& final(self).results@ == map_upsert(
                            old(self).results@,
                            match_id@,
                            (winner, loser),
                        )
                        &&& final(self).tournament_leaderboard@ == ({
                            let after_win = map_upsert(
                                old(self).tournament_leaderboard@,
                                winner@,
                                (score_of(old(self).tournament_leaderboard@, winner@) + 1) as u64,
                            );
                            map_upsert(after_win, loser@, score_of(after_win, loser@))
                        })
                        &&& final(self).champion@ == (if spec_is_final(match_id@) {
                            winner@
                        } else {
                            old(self).champion@
                        })
                        &&& final(self).runner_up@ == (if spec_is_final(match_id@) {
                            loser@
                        } else {
                            old(self).runner_up@
                        })
                    }
                    &&& final(self).participants@ == old(self).participants@
                    &&& final(self).status@ == old(self).status@
                    &&& final(self).tournament_name@ == old(self).tournament_name@
                    &&& final(self).start_time == old(self).start_time
                    &&& final(self).end_time == old(self).end_time
                    &&& final(self).current_round@ == old(self).current_round@
                    &&& final(self).opid@ == old(self).opid@
                },
                Operation::CloseTournament => {
                    &&& final(self).status@ == "Finished"@
                    &&& final(self).participants@ == old(self).participants@
                    &&& final(self).results@ == old(self).results@
                    &&& final(self).tournament_leaderboard@ == old(self).tournament_leaderboard@
                    &&& final(self).champion@ == old(self).champion@
                    &&& final(self).runner_up@ == old(self).runner_up@
                    &&& final(self).tournament_name@ == old(self).tournament_name@
                    &&& final(self).start_time == old(self).start_time
                    &&& final(self).end_time == old(self).end_time
                    &&& final(self).current_round@ == old(self).current_round@
                    &&& final(self).opid@ == old(self).opid@
                },
            },
    {
        match operation {
            Operation::CreateTournament { name, start_time, end_time } => {
                self.create_tournament(name, start_time, end_time, op_id);
            },
            Operation::Register { player } => {
                self.register(player);
            },
            Operation::RecordMatch { match_id, winner, loser } => {
                self.record_match(match_id, winner, loser);
            },
            Operation::CloseTournament => {
                self.close_tournament();
            },
        }
    }

    /// Every registered player, in registration order.
    pub fn participants_list(&self) -> (r: Vec<String>)
        ensures
            r@.len() == self.participants@.len(),
            forall|i: int| 0 <= i < r@.len() ==> r@[i]@ == self.participants@[i].0,
    {
        let n = self.participants.len();
        let mut out: Vec<String> = Vec::new();
        let mut i: usize = 0;
        while i < n
            invariant
                n == self.participants@.len(),
                i <= n,
                out@.len() == i,
                forall|j: int| 0 <= j < i ==> out@[j]@ == self.participants@[j].0,
            decreases n - i,
        {
            out.push(self.participants.key_at(i).clone());
            i = i + 1;
        }
        out
    }

    /// Every recorded match as (match id, winner, loser), in record order.
    pub fn results_list(&self) -> (r: Vec<(String, String, String)>)
        ensures
            r@.len() == self.results@.len(),
            forall|i: int|
                0 <= i < r@.len() ==> {
                    &&& (#[trigger] r@[i]).0@ == self.results@[i].0
                    &&& r@[i].1 == self.results@[i].1.0
                    &&& r@[i].2 == self.results@[i].1.1
                },
    {
        let n = self.results.len();
        let mut out: Vec<(String, String, String)> = Vec::new();
        let mut i: usize = 0;
        while i < n
            invariant
                n == self.results@.len(),
                i <= n,
                out@.len() == i,
                forall|j: int|
                    0 <= j < i ==> {
                        &&& (#[trigger] out@[j]).0@ == self.results@[j].0
                        &&& out@[j].1 == self.results@[j].1.0
                        &&& out@[j].2 == self.results@[j].1.1
                    },
            decreases n - i,
        {
            let id = self.results.key_at(i).clone();
            let pair = self.results.value_at(i);
            out.push((id, pair.0.clone(), pair.1.clone()));
            i = i + 1;
        }
        out
    }

    /// The tournament's own ranking: every listed player with their score,
    /// ordered by score descending, rows of equal score in the order the
    /// players were first listed. The result is a function of the committed
    /// table alone.
    pub fn tournament_leaderboard_ranking(&self) -> (r: Vec<(String, u64)>)
        ensures
            pair_views(r@) == crate::ranking::spec_ranked(
                self.tournament_leaderboard@,
                pair_score_fn(),
            ),
            pair_views(r@).to_multiset() == self.tournament_leaderboard@.to_multiset(),
            scores_sorted_desc(pair_views(r@)),
    {
        let ghost key = pair_score_fn();
        let n = self.tournament_leaderboard.len();
        let mut src: Vec<(String, u64)> = Vec::new();
        let mut i: usize = 0;
        while i < n
            invariant
                n == self.tournament_leaderboard@.len(),
                i <= n,
                pair_views(src@) == self.tournament_leaderboard@.take(i as int),
            decreases n - i,
        {
            let player = self.tournament_leaderboard.key_at(i).clone();
            let score = *self.tournament_leaderboard.value_at(i);
            let ghost pre = src@;
            src.push((player, score));
            proof {
                assert(pair_views(src@) =~= pair_views(pre).push(
                    self.tournament_leaderboard@[i as int],
                ));
                assert(pair_views(src@) =~= self.tournament_leaderboard@.take(i as int + 1));
            }
            i = i + 1;
        }
        proof {
            assert(pair_views(src@) =~= self.tournament_leaderboard@);
        }
        let mut out: Vec<(String, u64)> = Vec::new();
        proof {
            assert(pair_views(out@) =~= Seq::<(Seq<char>, u64)>::empty());
            assert(pair_views(out@).to_multiset().add(pair_views(src@).to_multiset())
                =~= pair_views(src@).to_multiset());
            assert(pair_views(out@) + crate::ranking::spec_ranked(pair_views(src@), key)
                =~= crate::ranking::spec_ranked(pair_views(src@), key));
        }
        let ghost whole = pair_views(src@).to_multiset();
        let ghost target = crate::ranking::spec_ranked(pair_views(src@), key);
        while src.len() > 0
            invariant
                key == pair_score_fn(),
                pair_views(out@).to_multiset().add(pair_views(src@).to_multiset()) == whole,
                pair_views(out@) + crate::ranking::spec_ranked(pair_views(src@), key) == target,
                target == crate::ranking::spec_ranked(
                    self.tournament_leaderboard@,
                    pair_score_fn(),
                ),
                whole == self.tournament_leaderboard@.to_multiset(),
                scores_sorted_desc(pair_views(out@)),
                forall|a: int, b: int|
                    0 <= a < out@.len() && 0 <= b < src@.len() ==> pair_views(out@)[a].1
                        >= pair_views(src@)[b].1,
            decreases src.len(),
        {
            let mut mx: usize = 0;
            let mut k: usize = 1;
            while k < src.len()
                invariant
                    mx < src@.len(),
                    k <= src@.len(),
                    mx < k || mx == 0,
                    forall|j: int| 0 <= j < k ==> src@[mx as int].1 >= src@[j].1,
                    forall|j: int| 0 <= j < mx ==> src@[j].1 < src@[mx as int].1,
                decreases src.len() - k,
            {
                if src[k].1 > src[mx].1 {
                    mx = k;
                }
                k = k + 1;
            }
            let ghost old_out = out@;
            let ghost old_src = src@;
            proof {
                assert(crate::ranking::is_first_max(pair_views(old_src), key, mx as int));
            }
            let e = src.remove(mx);
            out.push(e);
            proof {
                let ev = (e.0@, e.1);
                assert(pair_views(old_src)[mx as int] == ev);
                assert(pair_views(src@) =~= pair_views(old_src).remove(mx as int));
                assert(pair_views(out@) =~= pair_views(old_out).push(ev));
                assert(pair_views(old_src).to_multiset().contains(ev)) by {
                    assert(pair_views(old_src).contains(ev));
                }
                assert(pair_views(out@).to_multiset().add(pair_views(src@).to_multiset())
                    =~= pair_views(old_out).to_multiset().add(pair_views(old_src).to_multiset()));
                crate::ranking::lemma_ranked_step(pair_views(old_src), key, mx as int);
                assert(pair_views(out@) + crate::ranking::spec_ranked(pair_views(src@), key)
                    =~= pair_views(old_out) + crate::ranking::spec_ranked(
                    pair_views(old_src),
                    key,
                ));
                assert forall|a: int, b: int|
                    0 <= a < out@.len() && 0 <= b < src@.len() implies pair_views(out@)[a].1
                    >= pair_views(src@)[b].1 by {
                    if a < old_out.len() {
                        assert(pair_views(out@)[a] == pair_views(old_out)[a]);
                    } else {
                        assert(pair_views(out@)[a] == ev);
                    }
                    if b < mx as int {
                        assert(pair_views(src@)[b] == pair_views(old_src)[b]);
                    } else {
                        assert(pair_views(src@)[b] == pair_views(old_src)[b + 1]);
                    }
                }
            }
        }
        proof {
            assert(pair_views(out@) =~= target);
        }
        out
    }

    /// The champion, if a final match was recorded.
    pub fn champion_opt(&self) -> (r: Option<String>)
        ensures
            self.champion@.len() == 0 <==> r is None,
            r is Some ==> r->0@ == self.champion@,
    {
        if self.champion.as_str().is_empty() {
            None
        } else {
            Some(self.champion.clone())
        }
    }

    /// The runner-up, if a final match was recorded.
    pub fn runner_up_opt(&self) -> (r: Option<String>)
        ensures
            self.runner_up@.len() == 0 <==> r is None,
            r is Some ==> r->0@ == self.runner_up@,
    {
        if self.runner_up.as_str().is_empty() {
            None
        } else {
            Some(self.runner_up.clone())
        }
    }

    /// The creation transaction's on-chain identity, once set.
    pub fn onchain_op_id(&self) -> (r: Option<String>)
        ensures
            self.opid@.len() == 0 <==> r is None,
            r is Some ==> r->0@ == self.opid@,
    {
        if self.opid.as_str().is_empty() {
            None
        } else {
            Some(self.opid.clone())
        }
    }
}

} // verus!
