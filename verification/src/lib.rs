pub mod decimal;
pub mod hexenc;
pub mod idempotency;
pub mod leaderboard;
pub mod outbox;
pub mod ranking;
pub mod runtime;
pub mod strmap;
pub mod tournament;
pub mod userxfighter;
pub mod xfighter;

use vstd::prelude::*;

verus! {

/// Errors surfaced by the settlement actors.
///
/// A duplicate delivery is not an error: an effect that was already applied
/// reports success, since the caller's intent is already satisfied.
#[derive(Clone, Copy, Debug, PartialEq, Eq, Structural)]
pub enum ActorError {
    /// A withdraw or debit was refused because the balance is too small.
    InsufficientFunds,
    /// A zero deposit amount, an empty identifier, or a winner who is not
    /// one of the match's participants: refused before any effect.
    InvalidInput,
    /// The idempotency store already holds the event identifier.
    AlreadyMarked,
}

} // verus!
