//! The actor runtime for the ledger actor: one pending unit of work —
//! a locally originated operation or an inbound message — is processed to
//! completion and then either committed, making the mutated state and the
//! staged outbound messages durable together, or aborted with no trace.

use vstd::prelude::*;
use crate::outbox::Outbox;
use crate::userxfighter::{
    BettingMessage, LedgerModel, MsgView, OpView, Operation, UserXfighterState, spec_message,
    spec_operation,
};

verus! {

/// One pending unit of work for the ledger actor.
pub enum UnitOfWork {
    Operation(Operation),
    Message(BettingMessage),
}

/// The mathematical shadow of a `UnitOfWork`.
#[verifier::ext_equal]
pub enum UnitView {
    Operation(OpView),
    Message(MsgView),
}

impl View for UnitOfWork {
    type V = UnitView;

    open spec fn view(&self) -> UnitView {
        match self {
            UnitOfWork::Operation(op) => UnitView::Operation(op@),
            UnitOfWork::Message(msg) => UnitView::Message(msg@),
        }
    }
}

/// What one committed unit of work does: the new ledger state and the
/// outbound messages (destination, payload) handed to transport.
pub open spec fn spec_unit(m: LedgerModel, u: UnitView, ts: u64) -> (
    LedgerModel,
    Seq<(Seq<char>, MsgView)>,
) {
    match u {
        UnitView::Operation(op) => (spec_operation(m, op, ts).0, Seq::empty()),
        UnitView::Message(msg) => {
            let r = spec_message(m, msg, ts);
            match r.1 {
                Some(out) => (r.0, seq![out]),
                None => (r.0, Seq::empty()),
            }
        },
    }
}

/// No u64 counter overflows while the unit is applied (a machine limit, not
/// a rule of the protocol).
pub open spec fn unit_fits(m: LedgerModel, u: UnitView) -> bool {
    match u {
        UnitView::Operation(OpView::Deposit { amount }) => m.balance + amount <= u64::MAX,
        UnitView::Message(MsgView::CreditForWin { amount, bet_id, .. }) => !m.processed.contains(
            bet_id,
        ) ==> m.balance + amount <= u64::MAX,
        UnitView::Message(MsgView::RefundBet { amount, bet_id, .. }) => !m.processed.contains(
            bet_id,
        ) ==> m.balance + amount <= u64::MAX,
        _ => true,
    }
}

/// The outcome of one unit of work.
pub struct StepOutcome {
    /// The durable state after the unit: mutated on commit, exactly the old
    /// state on abort.
    pub state: UserXfighterState,
    /// The messages handed to transport: the staged ones on commit, none on
    /// abort.
    pub outbound: Vec<(String, BettingMessage)>,
    /// Whether the unit committed.
    pub committed: bool,
}

/// The views of flushed outbound messages.
pub open spec fn outbound_views(v: Seq<(String, BettingMessage)>) -> Seq<(Seq<char>, MsgView)> {
    v.map(|i: int, e: (String, BettingMessage)| (e.0@, e.1@))
}

/// Processes one unit of work against the durable state `state`.
///
/// Effects are staged on a copy and outbound messages in an outbox;
/// `persist_ok` is the verdict of the durable write that ends the unit.
/// On commit the mutated state and every staged message leave together; on
/// abort the unit leaves no trace: the state handed back is the old one and
/// no message is ever observed by a destination actor.
pub fn process_unit(
    state: &UserXfighterState,
    unit: UnitOfWork,
    timestamp: u64,
    persist_ok: bool,
) -> (r: StepOutcome)
    requires
        state.wf(),
        unit_fits(state.model(), unit@),
    ensures
        r.state.wf(),
        r.committed == persist_ok,
        persist_ok ==> r.state.model() == spec_unit(state.model(), unit@, timestamp).0,
        persist_ok ==> outbound_views(r.outbound@) == spec_unit(state.model(), unit@, timestamp).1,
        !persist_ok ==> r.state.model() == state.model() && r.outbound@ == Seq::<
            (String, BettingMessage),
        >::empty(),
{
    let ghost uv = unit@;
    let mut staged = state.duplicate();
    let mut outbox: Outbox<BettingMessage> = Outbox::new();
    outbox.begin();
    match unit {
        UnitOfWork::Operation(op) => {
            let _outcome = staged.execute_operation(op, timestamp);
        },
        UnitOfWork::Message(msg) => {
            match staged.execute_message(msg, timestamp) {
                Some((destination, payload)) => {
                    outbox.stage(destination, payload);
                },
                None => {},
            }
        },
    }
    if persist_ok {
        let flushed = outbox.commit();
        proof {
            assert(outbound_views(flushed@) =~= spec_unit(state.model(), uv, timestamp).1);
        }
        StepOutcome { state: staged, outbound: flushed, committed: true }
    } else {
        outbox.abort();
        let kept = state.duplicate();
        let empty_out: Vec<(String, BettingMessage)> = Vec::new();
        proof {
            assert(empty_out@ =~= Seq::<(String, BettingMessage)>::empty());
        }
        StepOutcome { state: kept, outbound: empty_out, committed: false }
    }
}

/// Processing is sequential: a whole sequence of pending units, each with its
/// own timestamp and durable-write verdict, applied in arrival order.
/// An aborted unit contributes nothing; committed ones apply in order.
pub open spec fn spec_run(m: LedgerModel, units: Seq<(UnitView, u64, bool)>) -> LedgerModel
    decreases units.len(),
{
    if units.len() == 0 {
        m
    } else {
        let first = units[0];
        let m2 = if first.2 {
            spec_unit(m, first.0, first.1).0
        } else {
            m
        };
        spec_run(m2, units.drop_first())
    }
}

/// Law: an aborted unit of work is invisible: the run with it is the run
/// without it — no state change at the source, no message at any destination.
pub proof fn lemma_abort_is_all_or_nothing(
    m: LedgerModel,
    before: Seq<(UnitView, u64, bool)>,
    aborted: (UnitView, u64),
    after: Seq<(UnitView, u64, bool)>,
)
    ensures
        spec_run(m, before + seq![(aborted.0, aborted.1, false)] + after) == spec_run(
            m,
            before + after,
        ),
    decreases before.len(),
{
    if before.len() == 0 {
        let with_mid = before + seq![(aborted.0, aborted.1, false)] + after;
        assert(with_mid[0] == (aborted.0, aborted.1, false));
        assert(with_mid.drop_first() =~= after);
        assert(before + after =~= after);
    } else {
        let with_mid = before + seq![(aborted.0, aborted.1, false)] + after;
        let plain = before + after;
        assert(with_mid[0] == before[0]);
        assert(plain[0] == before[0]);
        let m2 = if before[0].2 {
            spec_unit(m, before[0].0, before[0].1).0
        } else {
            m
        };
        assert(with_mid.drop_first() =~= before.drop_first() + seq![
            (aborted.0, aborted.1, false),
        ] + after);
        assert(plain.drop_first() =~= before.drop_first() + after);
        lemma_abort_is_all_or_nothing(m2, before.drop_first(), aborted, after);
    }
}

} // verus!
