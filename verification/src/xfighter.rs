//! The match-recording actor: stores one match result per reporting chain,
//! guards its outbound per-subject score messages with a sent-flag, and keeps
//! the factory's record of spawned chains and the actor instances deployed on
//! them.

use vstd::prelude::*;
use crate::ActorError;
use crate::hexenc::{encode_hex, hex_of};
use crate::leaderboard::{RecordScoreMessage, RecordScoreView};
use crate::strmap::{StrMap, map_has_key, map_upsert, map_value};

verus! {

/// A match result as the client reports it.
#[derive(Clone, Debug)]
pub struct MatchResultInput {
    pub match_id: String,
    pub player1_username: String,
    pub player2_username: String,
    pub winner_username: String,
    pub loser_username: String,
    pub duration_seconds: u64,
    pub timestamp: u64,
    pub player1_score: u64,
    pub player2_score: u64,
    pub map_name: String,
    pub match_type: String,
    pub afk: Option<String>,
}

/// A stored match result.
#[derive(Clone, Debug)]
pub struct MatchResult {
    pub match_id: String,
    pub player1_username: String,
    pub player2_username: String,
    pub winner_username: String,
    pub loser_username: String,
    pub duration_seconds: u64,
    pub timestamp: u64,
    pub player1_score: u64,
    pub player2_score: u64,
    pub map_name: String,
    pub match_type: String,
    pub afk: Option<String>,
}

impl MatchResult {
    /// A field-exact copy.
    pub fn duplicate(&self) -> (r: Self)
        ensures
            r == *self,
    {
        MatchResult {
            match_id: self.match_id.clone(),
            player1_username: self.player1_username.clone(),
            player2_username: self.player2_username.clone(),
            winner_username: self.winner_username.clone(),
            loser_username: self.loser_username.clone(),
            duration_seconds: self.duration_seconds,
            timestamp: self.timestamp,
            player1_score: self.player1_score,
            player2_score: self.player2_score,
            map_name: self.map_name.clone(),
            match_type: self.match_type.clone(),
            afk: match &self.afk {
                Some(s) => Some(s.clone()),
                None => None,
            },
        }
    }
}

/// A locally originated command for the recording actor.
#[derive(Clone, Debug)]
pub enum Operation {
    RecordScore(MatchResultInput),
    Factory(FactoryOperation),
}

/// A provisioning command: open a fresh chain and deploy an actor instance.
#[derive(Clone, Debug)]
pub enum FactoryOperation {
    OpenAndCreate,
}

/// Durable state of the recording actor. Application instances are held by
/// their description hash, the plain value the queries render.
pub struct XfighterState {
    pub match_results: StrMap<MatchResult>,
    pub leaderboard_id: Option<Vec<u8>>,
    pub opened_chains: Vec<String>,
    pub child_apps: StrMap<Vec<u8>>,
    pub sent_messages: StrMap<bool>,
}

/// The stored form of a reported result.
pub open spec fn result_of(input: MatchResultInput) -> MatchResult {
    MatchResult {
        match_id: input.match_id,
        player1_username: input.player1_username,
        player2_username: input.player2_username,
        winner_username: input.winner_username,
        loser_username: input.loser_username,
        duration_seconds: input.duration_seconds,
        timestamp: input.timestamp,
        player1_score: input.player1_score,
        player2_score: input.player2_score,
        map_name: input.map_name,
        match_type: input.match_type,
        afk: input.afk,
    }
}

/// The winner names one of the two players.
pub open spec fn spec_valid_winner(input: MatchResultInput) -> bool {
    input.winner_username@ == input.player1_username@ || input.winner_username@
        == input.player2_username@
}

/// The subject on the losing side of the reported result.
pub open spec fn spec_loser(input: MatchResultInput) -> Seq<char> {
    if input.winner_username@ == input.player1_username@ {
        input.player2_username@
    } else {
        input.player1_username@
    }
}

/// Whether outbound score messages were already handed over for this key.
pub open spec fn sent_flag(s: Seq<(Seq<char>, bool)>, k: Seq<char>) -> bool {
    map_has_key(s, k) && map_value(s, k)
}

/// The views of a list of chain identifiers.
pub open spec fn chains_view(v: Seq<String>) -> Seq<Seq<char>> {
    v.map(|i: int, s: String| s@)
}

/// The client-side well-formedness check a report must pass before it is
/// scheduled: the winner must be one of the two players.
pub fn validate_match_input(input: &MatchResultInput) -> (r: bool)
    ensures
        r == spec_valid_winner(*input),
{
    input.winner_username == input.player1_username || input.winner_username
        == input.player2_username
}

/// Translates one inbound per-subject score message into the aggregator's
/// command, which the hosting runtime forwards to the aggregator actor.
pub fn message_to_leaderboard_operation(message: RecordScoreMessage) -> (r:
    crate::leaderboard::Operation)
    ensures
        match r {
            crate::leaderboard::Operation::RecordScore { user_id, is_winner, match_id } => {
                &&& user_id@ == message.user_id@
                &&& is_winner == message.is_winner
                &&& match_id@ == message.match_id@
            },
        },
{
    let RecordScoreMessage { user_id, is_winner, match_id } = message;
    crate::leaderboard::Operation::RecordScore { user_id, is_winner, match_id }
}

fn contains_chain(v: &Vec<String>, s: &String) -> (r: bool)
    ensures
        r == chains_view(v@).contains(s@),
{
    let n = v.len();
    let mut i: usize = 0;
    while i < n
        invariant
            n == v@.len(),
            i <= n,
            forall|j: int| 0 <= j < i ==> chains_view(v@)[j] != s@,
        decreases n - i,
    {
        if v[i] == *s {
            proof {
                assert(chains_view(v@)[i as int] == s@);
            }
            return true;
        }
        i = i + 1;
    }
    proof {
        if chains_view(v@).contains(s@) {
            let j = choose|j: int| 0 <= j < chains_view(v@).len() && chains_view(v@)[j] == s@;
            assert(chains_view(v@)[j] != s@);
        }
    }
    false
}

impl XfighterState {
    pub open spec fn wf(&self) -> bool {
        &&& self.match_results.wf()
        &&& self.child_apps.wf()
        &&& self.sent_messages.wf()
    }

    pub fn new() -> (r: Self)
        ensures
            r.wf(),
            r.match_results@ == Seq::<(Seq<char>, MatchResult)>::empty(),
            r.leaderboard_id is None,
            r.opened_chains@ == Seq::<String>::empty(),
            r.child_apps@ == Seq::<(Seq<char>, Vec<u8>)>::empty(),
            r.sent_messages@ == Seq::<(Seq<char>, bool)>::empty(),
    {
        let r = XfighterState {
            match_results: StrMap::new(),
            leaderboard_id: None,
            opened_chains: Vec::new(),
            child_apps: StrMap::new(),
            sent_messages: StrMap::new(),
        };
        proof {
            assert(r.opened_chains@ =~= Seq::<String>::empty());
        }
        r
    }

    /// Records one reported match under the reporting chain's identifier, at
    /// most once per chain, and stages the two per-subject score messages for
    /// the aggregator's chain — once, guarded by the sent-flag, so that a
    /// re-execution cannot hand them over twice.
    ///
    /// Success is owed whenever the winner names one of the players; a report
    /// for a chain that already holds one is a successful no-op.
    pub fn record_score(
        &mut self,
        input: MatchResultInput,
        chain_id: String,
        publisher_chain: String,
    ) -> (r: Result<Vec<(String, RecordScoreMessage)>, ActorError>)
        requires
            old(self).wf(),
        ensures
            final(self).wf(),
            r is Err <==> (!map_has_key(old(self).match_results@, chain_id@) && !spec_valid_winner(
                input,
            )),
            final(self).leaderboard_id == old(self).leaderboard_id,
            final(self).opened_chains@ == old(self).opened_chains@,
            final(self).child_apps@ == old(self).child_apps@,
            match r {
                Ok(msgs) => {
                    if map_has_key(old(self).match_results@, chain_id@) {
                        &&& *final(self) == *old(self)
                        &&& msgs@.len() == 0
                    } else {
                        &&& final(self).match_results@ == map_upsert(
                            old(self).match_results@,
                            chain_id@,
                            result_of(input),
                        )
                        &&& if sent_flag(old(self).sent_messages@, chain_id@) {
                            &&& final(self).sent_messages@ == old(self).sent_messages@
                            &&& msgs@.len() == 0
                        } else {
                            &&& final(self).sent_messages@ == map_upsert(
                                old(self).sent_messages@,
                                chain_id@,
                                true,
                            )
                            &&& msgs@.len() == 2
                            &&& msgs@[0].0@ == publisher_chain@
                            &&& msgs@[0].1@ == (RecordScoreView {
                                user_id: input.winner_username@,
                                is_winner: true,
                                match_id: input.match_id@,
                            })
                            &&& msgs@[1].0@ == publisher_chain@
                            &&& msgs@[1].1@ == (RecordScoreView {
                                user_id: spec_loser(input),
                                is_winner: false,
                                match_id: input.match_id@,
                            })
                        }
                    }
                },
                Err(e) => e == ActorError::InvalidInput && *final(self) == *old(self),
            },
    {
        if self.match_results.contains_key(&chain_id) {
            let empty: Vec<(String, RecordScoreMessage)> = Vec::new();
            return Ok(empty);
        }
        if !validate_match_input(&input) {
            return Err(ActorError::InvalidInput);
        }
        let stored = MatchResult {
            match_id: input.match_id.clone(),
            player1_username: input.player1_username.clone(),
            player2_username: input.player2_username.clone(),
            winner_username: input.winner_username.clone(),
            loser_username: input.loser_username.clone(),
            duration_seconds: input.duration_seconds,
            timestamp: input.timestamp,
            player1_score: input.player1_score,
            player2_score: input.player2_score,
            map_name: input.map_name.clone(),
            match_type: input.match_type.clone(),
            afk: match &input.afk {
                Some(s) => Some(s.clone()),
                None => None,
            },
        };
        proof {
            assert(stored == result_of(input));
        }
        self.match_results.insert(chain_id.clone(), stored);
        let already_sent = match self.sent_messages.get(&chain_id) {
            Some(b) => *b,
            None => false,
        };
        if already_sent {
            let empty: Vec<(String, RecordScoreMessage)> = Vec::new();
            return Ok(empty);
        }
        self.sent_messages.insert(chain_id, true);
        let loser_name = if input.winner_username == input.player1_username {
            input.player2_username.clone()
        } else {
            input.player1_username.clone()
        };
        let mut msgs: Vec<(String, RecordScoreMessage)> = Vec::new();
        msgs.push(
            (
                publisher_chain.clone(),
                RecordScoreMessage {
                    user_id: input.winner_username.clone(),
                    is_winner: true,
                    match_id: input.match_id.clone(),
                },
            ),
        );
        msgs.push(
            (
                publisher_chain,
                RecordScoreMessage {
                    user_id: loser_name,
                    is_winner: false,
                    match_id: input.match_id,
                },
            ),
        );
        Ok(msgs)
    }

    /// The factory's bookkeeping: a freshly opened chain and the actor
    /// instance deployed on it, both handed in by the hosting runtime. The
    /// record is append-only.
    pub fn register_child(&mut self, chain_id: String, app_hash: Vec<u8>)
        requires
            old(self).wf(),
        ensures
            final(self).wf(),
            chains_view(final(self).opened_chains@) == (if chains_view(
                old(self).opened_chains@,
            ).contains(chain_id@) {
                chains_view(old(self).opened_chains@)
            } else {
                chains_view(old(self).opened_chains@).push(chain_id@)
            }),
            final(self).child_apps@ == map_upsert(old(self).child_apps@, chain_id@, app_hash),
            final(self).match_results@ == old(self).match_results@,
            final(self).sent_messages@ == old(self).sent_messages@,
            final(self).leaderboard_id == old(self).leaderboard_id,
    {
        if !contains_chain(&self.opened_chains, &chain_id) {
            self.opened_chains.push(chain_id.clone());
            proof {
                assert(chains_view(self.opened_chains@) =~= chains_view(
                    old(self).opened_chains@,
                ).push(chain_id@));
            }
        }
        self.child_apps.insert(chain_id, app_hash);
    }

    /// Every stored match result, in record order.
    pub fn all_match_results(&self) -> (r: Vec<MatchResult>)
        ensures
            r@.len() == self.match_results@.len(),
            forall|i: int| 0 <= i < r@.len() ==> r@[i] == self.match_results@[i].1,
    {
        let n = self.match_results.len();
        let mut out: Vec<MatchResult> = Vec::new();
        let mut i: usize = 0;
        while i < n
            invariant
                n == self.match_results@.len(),
                i <= n,
                out@.len() == i,
                forall|j: int| 0 <= j < i ==> out@[j] == self.match_results@[j].1,
            decreases n - i,
        {
            out.push(self.match_results.value_at(i).duplicate());
            i = i + 1;
        }
        out
    }

    /// Every chain the factory opened, in creation order.
    pub fn all_opened_chains(&self) -> (r: Vec<String>)
        ensures
            chains_view(r@) == chains_view(self.opened_chains@),
    {
        let n = self.opened_chains.len();
        let mut out: Vec<String> = Vec::new();
        let mut i: usize = 0;
        while i < n
            invariant
                n == self.opened_chains@.len(),
                i <= n,
                out@.len() == i,
                forall|j: int| 0 <= j < i ==> out@[j]@ == self.opened_chains@[j]@,
            decreases n - i,
        {
            out.push(self.opened_chains[i].clone());
            i = i + 1;
        }
        proof {
            assert(chains_view(out@) =~= chains_view(self.opened_chains@));
        }
        out
    }

    /// Every spawned chain with its deployed instance, the instance hash
    /// rendered as lowercase hex.
    pub fn all_child_apps(&self) -> (r: Vec<(String, String)>)
        ensures
            r@.len() == self.child_apps@.len(),
            forall|i: int|
                0 <= i < r@.len() ==> {
                    &&& (#[trigger] r@[i]).0@ == self.child_apps@[i].0
                    &&& r@[i].1@ == hex_of(self.child_apps@[i].1@)
                },
    {
        let n = self.child_apps.len();
        let mut out: Vec<(String, String)> = Vec::new();
        let mut i: usize = 0;
        while i < n
            invariant
                n == self.child_apps@.len(),
                i <= n,
                out@.len() == i,
                forall|j: int|
                    0 <= j < i ==> {
                        &&& (#[trigger] out@[j]).0@ == self.child_apps@[j].0
                        &&& out@[j].1@ == hex_of(self.child_apps@[j].1@)
                    },
            decreases n - i,
        {
            let chain = self.child_apps.key_at(i).clone();
            let rendered = encode_hex(self.child_apps.value_at(i));
            out.push((chain, rendered));
            i = i + 1;
        }
        out
    }

    /// The aggregator instance this actor reports to, rendered as hex.
    pub fn leaderboard_id_hex(&self) -> (r: Option<String>)
        ensures
            r is Some <==> self.leaderboard_id is Some,
            r is Some ==> r->0@ == hex_of(self.leaderboard_id->0@),
    {
        match &self.leaderboard_id {
            Some(h) => Some(encode_hex(h)),
            None => None,
        }
    }
}

} // verus!
