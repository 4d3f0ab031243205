//! The user ledger actor: a balance, an append-only transaction log, and the
//! idempotency store that makes bet settlement safe under duplicate and
//! reordered message delivery.

use vstd::prelude::*;
use vstd::string::StringExecFns;
use crate::ActorError;
use crate::decimal::{dec_rep, u64_to_decimal};
use crate::idempotency::ProcessedSet;
use crate::strmap::{StrMap, keys_unique, map_has_key, map_key_index, map_upsert};

verus! {

/// One immutable entry of the audit log. Entries are keyed by `tx_id` and are
/// never used for control decisions; the idempotency store is.
#[derive(Clone, Debug)]
pub struct Transaction {
    pub tx_id: String,
    pub tx_type: String,
    pub amount: u64,
    pub timestamp: u64,
    pub related_id: Option<String>,
    pub status: String,
}

/// The mathematical shadow of a `Transaction`.
#[verifier::ext_equal]
pub struct TxView {
    pub tx_id: Seq<char>,
    pub tx_type: Seq<char>,
    pub amount: u64,
    pub timestamp: u64,
    pub related_id: Option<Seq<char>>,
    pub status: Seq<char>,
}

impl View for Transaction {
    type V = TxView;

    open spec fn view(&self) -> TxView {
        TxView {
            tx_id: self.tx_id@,
            tx_type: self.tx_type@,
            amount: self.amount,
            timestamp: self.timestamp,
            related_id: self.related_id.deep_view(),
            status: self.status@,
        }
    }
}

impl Transaction {
    /// A field-exact copy.
    pub fn duplicate(&self) -> (r: Self)
        ensures
            r == *self,
    {
        Transaction {
            tx_id: self.tx_id.clone(),
            tx_type: self.tx_type.clone(),
            amount: self.amount,
            timestamp: self.timestamp,
            related_id: match &self.related_id {
                Some(s) => Some(s.clone()),
                None => None,
            },
            status: self.status.clone(),
        }
    }
}

/// A locally originated command.
#[derive(Clone, Debug)]
pub enum Operation {
    Deposit { amount: u64 },
    Withdraw { amount: u64 },
    Transfer { to: String, amount: u64 },
}

/// A cross-actor message concerning one bet. Delivery is at-least-once and
/// unordered across senders; every handler is idempotent on `bet_id`.
#[derive(Clone, Debug)]
pub enum BettingMessage {
    DebitForBet { amount: u64, tournament_id: String, bet_id: String, match_id: String },
    CreditForWin { amount: u64, tournament_id: String, bet_id: String, match_id: String },
    RefundBet { amount: u64, tournament_id: String, bet_id: String, match_id: String },
}

/// The mathematical shadow of an `Operation`.
#[verifier::ext_equal]
pub enum OpView {
    Deposit { amount: u64 },
    Withdraw { amount: u64 },
    Transfer { to: Seq<char>, amount: u64 },
}

/// The mathematical shadow of a `BettingMessage`.
#[verifier::ext_equal]
pub enum MsgView {
    DebitForBet { amount: u64, tournament_id: Seq<char>, bet_id: Seq<char>, match_id: Seq<char> },
    CreditForWin { amount: u64, tournament_id: Seq<char>, bet_id: Seq<char>, match_id: Seq<char> },
    RefundBet { amount: u64, tournament_id: Seq<char>, bet_id: Seq<char>, match_id: Seq<char> },
}

impl View for Operation {
    type V = OpView;

    open spec fn view(&self) -> OpView {
        match self {
            Operation::Deposit { amount } => OpView::Deposit { amount: *amount },
            Operation::Withdraw { amount } => OpView::Withdraw { amount: *amount },
            Operation::Transfer { to, amount } => OpView::Transfer { to: to@, amount: *amount },
        }
    }
}

impl View for BettingMessage {
    type V = MsgView;

    open spec fn view(&self) -> MsgView {
        match self {
            BettingMessage::DebitForBet { amount, tournament_id, bet_id, match_id } => {
                MsgView::DebitForBet {
                    amount: *amount,
                    tournament_id: tournament_id@,
                    bet_id: bet_id@,
                    match_id: match_id@,
                }
            },
            BettingMessage::CreditForWin { amount, tournament_id, bet_id, match_id } => {
                MsgView::CreditForWin {
                    amount: *amount,
                    tournament_id: tournament_id@,
                    bet_id: bet_id@,
                    match_id: match_id@,
                }
            },
            BettingMessage::RefundBet { amount, tournament_id, bet_id, match_id } => {
                MsgView::RefundBet {
                    amount: *amount,
                    tournament_id: tournament_id@,
                    bet_id: bet_id@,
                    match_id: match_id@,
                }
            },
        }
    }
}

/// The user-facing account summary.
pub struct UserInfo {
    pub balance: u64,
    pub chain_id: String,
}

/// One log entry as the query surface reports it.
pub struct TransactionView {
    pub tx_id: String,
    pub tx_type: String,
    pub amount: u64,
    pub timestamp: u64,
    pub related_id: Option<String>,
    pub status: String,
}

impl View for TransactionView {
    type V = TxView;

    open spec fn view(&self) -> TxView {
        TxView {
            tx_id: self.tx_id@,
            tx_type: self.tx_type@,
            amount: self.amount,
            timestamp: self.timestamp,
            related_id: self.related_id.deep_view(),
            status: self.status@,
        }
    }
}

/// The abstract state of the ledger actor: everything its contracts and laws
/// speak of. The balance is a natural number — it can never go negative.
#[verifier::ext_equal]
pub struct LedgerModel {
    pub balance: nat,
    pub txs: Seq<(Seq<char>, TxView)>,
    pub processed: Seq<Seq<char>>,
    pub user_chains: Seq<(Seq<char>, Seq<char>)>,
    pub tournament_app: Option<Seq<char>>,
    pub tournament_chain: Option<Seq<char>>,
}

/// Durable state of the user ledger actor.
pub struct UserXfighterState {
    pub balance: u64,
    pub transactions: StrMap<Transaction>,
    pub tournament_app_id: Option<String>,
    pub processed_bets: ProcessedSet,
    pub user_chains: StrMap<String>,
    pub tournament_chain_id: Option<String>,
}

/// Entry views of the transaction log.
pub open spec fn tx_views(s: Seq<(Seq<char>, Transaction)>) -> Seq<(Seq<char>, TxView)> {
    s.map(|i: int, e: (Seq<char>, Transaction)| (e.0, e.1@))
}

/// Entry views of the user-to-chain registry.
pub open spec fn chain_views(s: Seq<(Seq<char>, String)>) -> Seq<(Seq<char>, Seq<char>)> {
    s.map(|i: int, e: (Seq<char>, String)| (e.0, e.1@))
}

proof fn lemma_tx_views_upsert(s: Seq<(Seq<char>, Transaction)>, k: Seq<char>, tx: Transaction)
    requires
        keys_unique(s),
    ensures
        tx_views(map_upsert(s, k, tx)) == map_upsert(tx_views(s), k, tx@),
{
    let sv = tx_views(s);
    assert(sv.len() == s.len());
    assert(forall|i: int| 0 <= i < s.len() ==> sv[i].0 == s[i].0);
    assert(map_has_key(sv, k) == map_has_key(s, k)) by {
        if map_has_key(s, k) {
            let i = map_key_index(s, k);
            assert(sv[i].0 == k);
        }
        if map_has_key(sv, k) {
            let i = map_key_index(sv, k);
            assert(s[i].0 == k);
        }
    }
    if map_has_key(s, k) {
        let i = map_key_index(s, k);
        assert(keys_unique(sv));
        crate::strmap::lemma_unique_key_index(sv, k, i);
        assert(tx_views(map_upsert(s, k, tx)) =~= map_upsert(sv, k, tx@));
    } else {
        assert(tx_views(map_upsert(s, k, tx)) =~= map_upsert(sv, k, tx@));
    }
}

/// The `tx_id` of the ledger's own deposit / withdraw log entries.
pub open spec fn deposit_tx_id(ts: u64) -> Seq<char> {
    "deposit_"@ + dec_rep(ts as nat)
}

pub open spec fn withdraw_tx_id(ts: u64) -> Seq<char> {
    "withdraw_"@ + dec_rep(ts as nat)
}

/// The log entry a deposit appends.
pub open spec fn deposit_tx(amount: u64, ts: u64) -> TxView {
    TxView {
        tx_id: deposit_tx_id(ts),
        tx_type: "deposit"@,
        amount,
        timestamp: ts,
        related_id: None,
        status: "completed"@,
    }
}

pub open spec fn withdraw_tx(amount: u64, ts: u64) -> TxView {
    TxView {
        tx_id: withdraw_tx_id(ts),
        tx_type: "withdraw"@,
        amount,
        timestamp: ts,
        related_id: None,
        status: "completed"@,
    }
}

/// Deposit: the balance grows by `amount` and a `deposit` entry is logged.
/// A deposit always succeeds.
pub open spec fn spec_deposit(m: LedgerModel, amount: u64, ts: u64) -> LedgerModel {
    let tx = deposit_tx(amount, ts);
    LedgerModel {
        balance: (m.balance + amount) as nat,
        txs: map_upsert(m.txs, tx.tx_id, tx),
        ..m
    }
}

/// Withdraw: applied only when covered; an uncovered withdraw changes nothing.
pub open spec fn spec_withdraw(m: LedgerModel, amount: u64, ts: u64) -> LedgerModel {
    if m.balance >= amount {
        let tx = withdraw_tx(amount, ts);
        LedgerModel {
            balance: (m.balance - amount) as nat,
            txs: map_upsert(m.txs, tx.tx_id, tx),
            ..m
        }
    } else {
        m
    }
}

/// One locally originated command. The second component tells whether the
/// command succeeded: a zero-amount deposit is refused before any effect, and
/// an uncovered withdraw is refused; nothing else fails.
pub open spec fn spec_operation(m: LedgerModel, op: OpView, ts: u64) -> (LedgerModel, bool) {
    match op {
        OpView::Deposit { amount } => {
            if amount >= 1 {
                (spec_deposit(m, amount, ts), true)
            } else {
                (m, false)
            }
        },
        OpView::Withdraw { amount } => (spec_withdraw(m, amount, ts), m.balance >= amount),
        OpView::Transfer { to, amount } => (m, true),
    }
}

/// The log entry of a settled bet debit: keyed by the bet id itself.
pub open spec fn bet_tx(amount: u64, t: Seq<char>, bet: Seq<char>, mt: Seq<char>, ts: u64) -> TxView {
    TxView {
        tx_id: bet,
        tx_type: "bet"@,
        amount,
        timestamp: ts,
        related_id: Some(t + "_"@ + mt),
        status: "completed"@,
    }
}

/// The log entry of a credited win.
pub open spec fn win_tx(amount: u64, t: Seq<char>, bet: Seq<char>, mt: Seq<char>, ts: u64) -> TxView {
    TxView {
        tx_id: "win_"@ + bet,
        tx_type: "win"@,
        amount,
        timestamp: ts,
        related_id: Some(t + "_"@ + mt),
        status: "completed"@,
    }
}

/// The log entry of an applied refund.
pub open spec fn refund_tx(amount: u64, t: Seq<char>, bet: Seq<char>, mt: Seq<char>, ts: u64) -> TxView {
    TxView {
        tx_id: "refund_"@ + bet,
        tx_type: "refund"@,
        amount,
        timestamp: ts,
        related_id: Some(t + "_"@ + mt),
        status: "completed"@,
    }
}

/// The debit transition. Exactly one of three things happens:
/// - the bet was already settled: nothing changes;
/// - the balance covers the stake: it is deducted, a `bet` entry is logged
///   and the bet is marked settled, all in one unit;
/// - the balance is short: nothing changes and a refund is owed (the second
///   component). Insufficiency is not terminal: the bet stays unmarked, so a
///   retry after a deposit can still succeed.
pub open spec fn spec_debit(
    m: LedgerModel,
    amount: u64,
    t: Seq<char>,
    bet: Seq<char>,
    mt: Seq<char>,
    ts: u64,
) -> (LedgerModel, bool) {
    if m.processed.contains(bet) {
        (m, false)
    } else if m.balance >= amount {
        let tx = bet_tx(amount, t, bet, mt, ts);
        (
            LedgerModel {
                balance: (m.balance - amount) as nat,
                txs: map_upsert(m.txs, tx.tx_id, tx),
                processed: m.processed.push(bet),
                ..m
            },
            false,
        )
    } else {
        (m, true)
    }
}

/// The credit transition, shared by a win payout and an applied refund
/// (`as_refund` selects the log entry). Idempotent on the bet id.
pub open spec fn spec_credit(
    m: LedgerModel,
    amount: u64,
    t: Seq<char>,
    bet: Seq<char>,
    mt: Seq<char>,
    ts: u64,
    as_refund: bool,
) -> LedgerModel {
    if m.processed.contains(bet) {
        m
    } else {
        let tx = if as_refund {
            refund_tx(amount, t, bet, mt, ts)
        } else {
            win_tx(amount, t, bet, mt, ts)
        };
        LedgerModel {
            balance: (m.balance + amount) as nat,
            txs: map_upsert(m.txs, tx.tx_id, tx),
            processed: m.processed.push(bet),
            ..m
        }
    }
}

/// One inbound message. The second component is the outbound refund
/// obligation staged for the commit coordinator, addressed to the tournament
/// chain, when a debit is refused for insufficiency and the tournament is
/// known.
pub open spec fn spec_message(m: LedgerModel, msg: MsgView, ts: u64) -> (
    LedgerModel,
    Option<(Seq<char>, MsgView)>,
) {
    match msg {
        MsgView::DebitForBet { amount, tournament_id, bet_id, match_id } => {
            let r = spec_debit(m, amount, tournament_id, bet_id, match_id, ts);
            match (m.tournament_app, m.tournament_chain) {
                (Some(app), Some(chain)) => {
                    if r.1 {
                        (
                            r.0,
                            Some(
                                (
                                    chain,
                                    MsgView::RefundBet {
                                        amount,
                                        tournament_id: app,
                                        bet_id,
                                        match_id,
                                    },
                                ),
                            ),
                        )
                    } else {
                        (r.0, None)
                    }
                },
                _ => (r.0, None),
            }
        },
        MsgView::CreditForWin { amount, tournament_id, bet_id, match_id } => {
            (spec_credit(m, amount, tournament_id, bet_id, match_id, ts, false), None)
        },
        MsgView::RefundBet { amount, tournament_id, bet_id, match_id } => {
            (spec_credit(m, amount, tournament_id, bet_id, match_id, ts, true), None)
        },
    }
}

/// The event identifier a message settles: its bet id.
pub open spec fn msg_event_id(msg: MsgView) -> Seq<char> {
    match msg {
        MsgView::DebitForBet { bet_id, .. } => bet_id,
        MsgView::CreditForWin { bet_id, .. } => bet_id,
        MsgView::RefundBet { bet_id, .. } => bet_id,
    }
}

/// The amount a message moves.
pub open spec fn msg_amount(msg: MsgView) -> u64 {
    match msg {
        MsgView::DebitForBet { amount, .. } => amount,
        MsgView::CreditForWin { amount, .. } => amount,
        MsgView::RefundBet { amount, .. } => amount,
    }
}

/// Applies a sequence of deliveries (message, timestamp) in order.
pub open spec fn apply_messages(m: LedgerModel, ms: Seq<(MsgView, u64)>) -> LedgerModel
    decreases ms.len(),
{
    if ms.len() == 0 {
        m
    } else {
        apply_messages(spec_message(m, ms[0].0, ms[0].1).0, ms.drop_first())
    }
}

/// Law: a message for an already-settled event changes no state, whatever the
/// message kind and however late it is redelivered.
pub proof fn lemma_redelivery_is_noop(m: LedgerModel, msg: MsgView, ts: u64)
    requires
        m.processed.contains(msg_event_id(msg)),
    ensures
        spec_message(m, msg, ts).0 == m,
{
}

/// Law: no delivery un-settles an event; the idempotency store only grows.
pub proof fn lemma_processed_monotonic(m: LedgerModel, msg: MsgView, ts: u64)
    ensures
        forall|e: Seq<char>|
            m.processed.contains(e) ==> #[trigger] spec_message(m, msg, ts).0.processed.contains(
                e,
            ),
{
    let m2 = spec_message(m, msg, ts).0;
    assert forall|e: Seq<char>| m.processed.contains(e) implies m2.processed.contains(e) by {
        let i = choose|i: int| 0 <= i < m.processed.len() && m.processed[i] == e;
        assert(m2.processed.len() >= m.processed.len());
        assert(m2.processed[i] == e);
    }
}

/// Law: a settled event stays settled across any further traffic, so a
/// duplicate delivered after unrelated events is still a no-op.
pub proof fn lemma_settled_stays_settled(m: LedgerModel, ms: Seq<(MsgView, u64)>, e: Seq<char>)
    requires
        m.processed.contains(e),
    ensures
        apply_messages(m, ms).processed.contains(e),
    decreases ms.len(),
{
    if ms.len() > 0 {
        lemma_processed_monotonic(m, ms[0].0, ms[0].1);
        lemma_settled_stays_settled(spec_message(m, ms[0].0, ms[0].1).0, ms.drop_first(), e);
    }
}

/// Deliveries compose: a run is the run of a prefix followed by the rest.
pub proof fn lemma_apply_messages_concat(
    m: LedgerModel,
    p: Seq<(MsgView, u64)>,
    q: Seq<(MsgView, u64)>,
)
    ensures
        apply_messages(m, p + q) == apply_messages(apply_messages(m, p), q),
    decreases p.len(),
{
    if p.len() == 0 {
        assert(p + q =~= q);
    } else {
        assert((p + q)[0] == p[0]);
        assert((p + q).drop_first() =~= p.drop_first() + q);
        lemma_apply_messages_concat(spec_message(m, p[0].0, p[0].1).0, p.drop_first(), q);
    }
}

/// Law: a duplicate of a settled event, delivered after any interleaved
/// traffic, is invisible: the run with the extra delivery equals the run
/// without it. With `lemma_settled_stays_settled` this makes arbitrary
/// duplication harmless whatever else arrives in between.
pub proof fn lemma_duplicate_delivery_absorbed(
    m: LedgerModel,
    p: Seq<(MsgView, u64)>,
    d: (MsgView, u64),
    q: Seq<(MsgView, u64)>,
)
    requires
        apply_messages(m, p).processed.contains(msg_event_id(d.0)),
    ensures
        apply_messages(m, p + seq![d] + q) == apply_messages(m, p + q),
{
    let m1 = apply_messages(m, p);
    assert(p + seq![d] + q =~= p + (seq![d] + q));
    lemma_apply_messages_concat(m, p, seq![d] + q);
    lemma_apply_messages_concat(m, p, q);
    lemma_redelivery_is_noop(m1, d.0, d.1);
    assert((seq![d] + q)[0] == d);
    assert((seq![d] + q).drop_first() =~= q);
}

/// Law: delivering the same message again, at any later time, leaves the
/// state where the first delivery left it. In particular a refund redelivered
/// twice is credited once.
pub proof fn lemma_message_idempotent(m: LedgerModel, msg: MsgView, ts1: u64, ts2: u64)
    ensures
        spec_message(spec_message(m, msg, ts1).0, msg, ts2).0 == spec_message(m, msg, ts1).0,
{
    let m1 = spec_message(m, msg, ts1).0;
    if !m.processed.contains(msg_event_id(msg)) {
        if m1.processed.len() == m.processed.len() + 1 {
            assert(m1.processed.last() == msg_event_id(msg));
        }
    }
}

/// Law: a run made of duplicate deliveries of one debit message leaves the
/// ledger exactly where the first delivery left it, however many arrive and
/// at whatever times. In particular the balance changes by at most one
/// debit's worth: nothing if the bet was already settled or the balance
/// never covers it, exactly one deduction otherwise.
pub proof fn lemma_duplicate_debit_applies_once(
    m: LedgerModel,
    ms: Seq<(MsgView, u64)>,
    amount: u64,
    t: Seq<char>,
    bet: Seq<char>,
    mt: Seq<char>,
)
    requires
        forall|i: int|
            0 <= i < ms.len() ==> (#[trigger] ms[i]).0 == (MsgView::DebitForBet {
                amount,
                tournament_id: t,
                bet_id: bet,
                match_id: mt,
            }),
    ensures
        apply_messages(m, ms) == (if ms.len() == 0 {
            m
        } else {
            spec_message(m, ms[0].0, ms[0].1).0
        }),
        apply_messages(m, ms).balance == (if ms.len() == 0 || m.processed.contains(bet)
            || m.balance < amount {
            m.balance
        } else {
            (m.balance - amount) as nat
        }),
    decreases ms.len(),
{
    if ms.len() > 0 {
        let msg = ms[0].0;
        let m2 = spec_message(m, msg, ms[0].1).0;
        if m.processed.contains(bet) {
            assert(m2 == m);
        } else if m.balance >= amount {
            assert(m2.processed.last() == bet);
            assert(m2.processed.contains(bet));
        } else {
            assert(m2 == m);
        }
        lemma_duplicate_debit_applies_once(m2, ms.drop_first(), amount, t, bet, mt);
        if ms.len() > 1 {
            assert(ms.drop_first()[0] == ms[1]);
            assert(spec_message(m2, ms[1].0, ms[1].1).0 == m2);
        }
    }
}

/// Law: the balance, a natural number, never goes negative, and it decreases
/// only when a not-yet-settled debit is fully covered — by exactly its stake.
pub proof fn lemma_no_overdraft(m: LedgerModel, msg: MsgView, ts: u64)
    ensures
        spec_message(m, msg, ts).0.balance >= 0,
        spec_message(m, msg, ts).0.balance < m.balance ==> {
            &&& msg is DebitForBet
            &&& !m.processed.contains(msg_event_id(msg))
            &&& m.balance >= msg_amount(msg)
            &&& spec_message(m, msg, ts).0.balance == m.balance - msg_amount(msg)
        },
{
}

/// Law: a deposit followed by a withdraw of the same amount restores the
/// balance, whatever the starting state; the log keeps both entries.
pub proof fn lemma_deposit_withdraw_round_trip(m: LedgerModel, amount: u64, t1: u64, t2: u64)
    ensures
        spec_withdraw(spec_deposit(m, amount, t1), amount, t2).balance == m.balance,
{
}

/// Law: a locally originated command never overdraws either: its balance
/// decrease is exactly a covered withdraw's amount.
pub proof fn lemma_operation_balance_safe(m: LedgerModel, op: OpView, ts: u64)
    ensures
        spec_operation(m, op, ts).0.balance >= 0,
        spec_operation(m, op, ts).0.balance < m.balance ==> {
            &&& op is Withdraw
            &&& m.balance >= op->Withdraw_amount
            &&& spec_operation(m, op, ts).0.balance == m.balance - op->Withdraw_amount
        },
{
}

/// The view of a staged outbound message.
pub open spec fn stage_view(r: Option<(String, BettingMessage)>) -> Option<(Seq<char>, MsgView)> {
    match r {
        Some(p) => Some((p.0@, p.1@)),
        None => None,
    }
}

/// An entry-exact copy of a transaction log.
fn dup_tx_map(m: &StrMap<Transaction>) -> (r: StrMap<Transaction>)
    requires
        m.wf(),
    ensures
        r@ == m@,
        r.wf(),
{
    let n = m.len();
    let mut r = StrMap::<Transaction>::new();
    let mut i: usize = 0;
    while i < n
        invariant
            m.wf(),
            n == m@.len(),
            i <= n,
            r.wf(),
            r@ == m@.take(i as int),
        decreases n - i,
    {
        let k = m.key_at(i).clone();
        let v = m.value_at(i).duplicate();
        proof {
            assert(!map_has_key(r@, k@)) by {
                if map_has_key(r@, k@) {
                    let j = map_key_index(r@, k@);
                    assert(m@[j].0 == k@);
                }
            }
        }
        r.insert(k, v);
        proof {
            assert(r@ =~= m@.take(i as int + 1));
        }
        i = i + 1;
    }
    proof {
        assert(r@ =~= m@);
    }
    r
}

/// An entry-exact copy of a string-valued map.
fn dup_str_map(m: &StrMap<String>) -> (r: StrMap<String>)
    requires
        m.wf(),
    ensures
        r@ == m@,
        r.wf(),
{
    let n = m.len();
    let mut r = StrMap::<String>::new();
    let mut i: usize = 0;
    while i < n
        invariant
            m.wf(),
            n == m@.len(),
            i <= n,
            r.wf(),
            r@ == m@.take(i as int),
        decreases n - i,
    {
        let k = m.key_at(i).clone();
        let v = m.value_at(i).clone();
        proof {
            assert(!map_has_key(r@, k@)) by {
                if map_has_key(r@, k@) {
                    let j = map_key_index(r@, k@);
                    assert(m@[j].0 == k@);
                }
            }
        }
        r.insert(k, v);
        proof {
            assert(r@ =~= m@.take(i as int + 1));
        }
        i = i + 1;
    }
    proof {
        assert(r@ =~= m@);
    }
    r
}

impl UserXfighterState {
    pub open spec fn wf(&self) -> bool {
        &&& self.transactions.wf()
        &&& self.processed_bets.wf()
        &&& self.user_chains.wf()
        &&& forall|i: int|
            0 <= i < self.transactions@.len() ==> #[trigger] self.transactions@[i].1.tx_id@
                == self.transactions@[i].0
    }

    pub open spec fn model(&self) -> LedgerModel {
        LedgerModel {
            balance: self.balance as nat,
            txs: tx_views(self.transactions@),
            processed: self.processed_bets@,
            user_chains: chain_views(self.user_chains@),
            tournament_app: self.tournament_app_id.deep_view(),
            tournament_chain: self.tournament_chain_id.deep_view(),
        }
    }

    pub fn new() -> (r: Self)
        ensures
            r.wf(),
            r.balance == 0,
            r.model().txs == Seq::<(Seq<char>, TxView)>::empty(),
            r.model().processed == Seq::<Seq<char>>::empty(),
            r.model().user_chains == Seq::<(Seq<char>, Seq<char>)>::empty(),
            r.model().tournament_app is None,
            r.model().tournament_chain is None,
    {
        let r = UserXfighterState {
            balance: 0,
            transactions: StrMap::new(),
            tournament_app_id: None,
            processed_bets: ProcessedSet::new(),
            user_chains: StrMap::new(),
            tournament_chain_id: None,
        };
        proof {
            assert(r.model().txs =~= Seq::<(Seq<char>, TxView)>::empty());
            assert(r.model().user_chains =~= Seq::<(Seq<char>, Seq<char>)>::empty());
        }
        r
    }

    /// A copy indistinguishable from the original: same model, same chains.
    /// The runtime stages a unit of work on such a copy so that an abort can
    /// fall back to the untouched durable state.
    pub fn duplicate(&self) -> (r: Self)
        requires
            self.wf(),
        ensures
            r.wf(),
            r.model() == self.model(),
            r.balance == self.balance,
            r.user_chains@ == self.user_chains@,
    {
        let r = UserXfighterState {
            balance: self.balance,
            transactions: dup_tx_map(&self.transactions),
            tournament_app_id: match &self.tournament_app_id {
                Some(s) => Some(s.clone()),
                None => None,
            },
            processed_bets: self.processed_bets.duplicate(),
            user_chains: dup_str_map(&self.user_chains),
            tournament_chain_id: match &self.tournament_chain_id {
                Some(s) => Some(s.clone()),
                None => None,
            },
        };
        proof {
            assert(r.model() =~= self.model());
        }
        r
    }

    /// Records which tournament actor this ledger settles bets for; a refund
    /// obligation is addressed to it.
    pub fn instantiate(&mut self, tournament_id: String, tournament_chain_id: String)
        requires
            old(self).wf(),
        ensures
            final(self).wf(),
            final(self).model() == (LedgerModel {
                tournament_app: Some(tournament_id@),
                tournament_chain: Some(tournament_chain_id@),
                ..old(self).model()
            }),
    {
        self.tournament_app_id = Some(tournament_id);
        self.tournament_chain_id = Some(tournament_chain_id);
    }

    /// Ledger deposit: the amount must be positive (a zero amount is refused
    /// at the operation surface, before any effect); a valid deposit always
    /// succeeds and appends a `deposit` transaction.
    pub fn deposit(&mut self, amount: u64, timestamp: u64)
        requires
            old(self).wf(),
            amount >= 1,
            old(self).balance + amount <= u64::MAX,
        ensures
            final(self).wf(),
            final(self).model() == spec_deposit(old(self).model(), amount, timestamp),
            final(self).balance == old(self).balance + amount,
    {
        self.balance = self.balance + amount;
        let mut tx_id = "deposit_".to_owned();
        tx_id.append(u64_to_decimal(timestamp).as_str());
        let tx = Transaction {
            tx_id: tx_id.clone(),
            tx_type: "deposit".to_owned(),
            amount,
            timestamp,
            related_id: None,
            status: "completed".to_owned(),
        };
        proof {
            assert(tx@ =~= deposit_tx(amount, timestamp));
            lemma_tx_views_upsert(self.transactions@, tx_id@, tx);
        }
        self.transactions.insert(tx_id, tx);
        proof {
            assert(final(self).model() =~= spec_deposit(old(self).model(), amount, timestamp));
        }
    }

    /// Ledger withdraw: succeeds exactly when the balance covers it; a
    /// refusal reports `InsufficientFunds` and performs no mutation.
    pub fn withdraw(&mut self, amount: u64, timestamp: u64) -> (r: Result<(), ActorError>)
        requires
            old(self).wf(),
        ensures
            final(self).wf(),
            final(self).model() == spec_withdraw(old(self).model(), amount, timestamp),
            r is Ok <==> old(self).balance >= amount,
            r is Ok ==> final(self).balance == old(self).balance - amount,
            r is Err ==> *final(self) == *old(self) && r == Err::<(), ActorError>(
                ActorError::InsufficientFunds,
            ),
    {
        if self.balance >= amount {
            self.balance = self.balance - amount;
            let mut tx_id = "withdraw_".to_owned();
            tx_id.append(u64_to_decimal(timestamp).as_str());
            let tx = Transaction {
                tx_id: tx_id.clone(),
                tx_type: "withdraw".to_owned(),
                amount,
                timestamp,
                related_id: None,
                status: "completed".to_owned(),
            };
            proof {
                assert(tx@ =~= withdraw_tx(amount, timestamp));
                lemma_tx_views_upsert(self.transactions@, tx_id@, tx);
            }
            self.transactions.insert(tx_id, tx);
            proof {
                assert(final(self).model() =~= spec_withdraw(
                    old(self).model(),
                    amount,
                    timestamp,
                ));
            }
            Ok(())
        } else {
            Err(ActorError::InsufficientFunds)
        }
    }

    /// Dispatches one locally originated command, as the actor runtime does.
    pub fn execute_operation(&mut self, operation: Operation, timestamp: u64) -> (r: Result<
        (),
        ActorError,
    >)
        requires
            old(self).wf(),
            match operation {
                Operation::Deposit { amount } => old(self).balance + amount <= u64::MAX,
                _ => true,
            },
        ensures
            final(self).wf(),
            final(self).model() == spec_operation(old(self).model(), operation@, timestamp).0,
            r is Ok <==> spec_operation(old(self).model(), operation@, timestamp).1,
            r is Err ==> match operation {
                Operation::Deposit { .. } => r == Err::<(), ActorError>(ActorError::InvalidInput)
                    && *final(self) == *old(self),
                Operation::Withdraw { .. } => r == Err::<(), ActorError>(
                    ActorError::InsufficientFunds,
                ) && *final(self) == *old(self),
                Operation::Transfer { .. } => false,
            },
    {
        match operation {
            Operation::Deposit { amount } => {
                if amount == 0 {
                    return Err(ActorError::InvalidInput);
                }
                self.deposit(amount, timestamp);
                Ok(())
            },
            Operation::Withdraw { amount } => self.withdraw(amount, timestamp),
            Operation::Transfer { to, amount } => {
                // A transfer command records no local effect.
                Ok(())
            },
        }
    }

    /// Settles the stake of one bet, at most once per `bet_id`. Returns the
    /// staged refund obligation when the balance is short (spec of the debit
    /// and refund decision is `spec_message` on a `DebitForBet`).
    pub fn debit_for_event(
        &mut self,
        amount: u64,
        tournament_id: String,
        bet_id: String,
        match_id: String,
        timestamp: u64,
    ) -> (r: Option<(String, BettingMessage)>)
        requires
            old(self).wf(),
        ensures
            final(self).wf(),
            final(self).model() == spec_message(
                old(self).model(),
                MsgView::DebitForBet {
                    amount,
                    tournament_id: tournament_id@,
                    bet_id: bet_id@,
                    match_id: match_id@,
                },
                timestamp,
            ).0,
            stage_view(r) == spec_message(
                old(self).model(),
                MsgView::DebitForBet {
                    amount,
                    tournament_id: tournament_id@,
                    bet_id: bet_id@,
                    match_id: match_id@,
                },
                timestamp,
            ).1,
    {
        let ghost tv = tournament_id@;
        let ghost bv = bet_id@;
        let ghost mv = match_id@;
        let ghost msg_v = MsgView::DebitForBet {
            amount,
            tournament_id: tv,
            bet_id: bv,
            match_id: mv,
        };
        if self.processed_bets.has(&bet_id) {
            return None;
        }
        if self.balance >= amount {
            self.balance = self.balance - amount;
            let mut related = tournament_id;
            related.append("_");
            related.append(match_id.as_str());
            let tx = Transaction {
                tx_id: bet_id.clone(),
                tx_type: "bet".to_owned(),
                amount,
                timestamp,
                related_id: Some(related),
                status: "completed".to_owned(),
            };
            proof {
                assert(tx@ =~= bet_tx(amount, tv, bv, mv, timestamp));
                lemma_tx_views_upsert(self.transactions@, bv, tx);
            }
            self.transactions.insert(bet_id.clone(), tx);
            let _marked = self.processed_bets.mark(bet_id);
            proof {
                assert(final(self).model() =~= spec_message(old(self).model(), msg_v, timestamp).0);
            }
            None
        } else {
            let app = match &self.tournament_app_id {
                Some(a) => Some(a.clone()),
                None => None,
            };
            let chain = match &self.tournament_chain_id {
                Some(c) => Some(c.clone()),
                None => None,
            };
            match (app, chain) {
                (Some(a), Some(c)) => {
                    let msg = BettingMessage::RefundBet {
                        amount,
                        tournament_id: a,
                        bet_id,
                        match_id,
                    };
                    Some((c, msg))
                },
                _ => None,
            }
        }
    }

    /// Credits one bet's payout (a win) or its refund, at most once per
    /// `bet_id`. A redelivery is a successful no-op.
    pub fn credit_for_event(
        &mut self,
        amount: u64,
        tournament_id: String,
        bet_id: String,
        match_id: String,
        timestamp: u64,
        as_refund: bool,
    )
        requires
            old(self).wf(),
            !old(self).model().processed.contains(bet_id@) ==> old(self).balance + amount
                <= u64::MAX,
        ensures
            final(self).wf(),
            final(self).model() == spec_credit(
                old(self).model(),
                amount,
                tournament_id@,
                bet_id@,
                match_id@,
                timestamp,
                as_refund,
            ),
    {
        let ghost tv = tournament_id@;
        let ghost bv = bet_id@;
        let ghost mv = match_id@;
        if self.processed_bets.has(&bet_id) {
            return ;
        }
        self.balance = self.balance + amount;
        let mut tx_id = if as_refund {
            "refund_".to_owned()
        } else {
            "win_".to_owned()
        };
        tx_id.append(bet_id.as_str());
        let mut related = tournament_id;
        related.append("_");
        related.append(match_id.as_str());
        let tx = Transaction {
            tx_id: tx_id.clone(),
            tx_type: if as_refund {
                "refund".to_owned()
            } else {
                "win".to_owned()
            },
            amount,
            timestamp,
            related_id: Some(related),
            status: "completed".to_owned(),
        };
        proof {
            if as_refund {
                assert(tx@ =~= refund_tx(amount, tv, bv, mv, timestamp));
            } else {
                assert(tx@ =~= win_tx(amount, tv, bv, mv, timestamp));
            }
            lemma_tx_views_upsert(self.transactions@, tx_id@, tx);
        }
        self.transactions.insert(tx_id, tx);
        let _marked = self.processed_bets.mark(bet_id);
        proof {
            assert(final(self).model() =~= spec_credit(
                old(self).model(),
                amount,
                tv,
                bv,
                mv,
                timestamp,
                as_refund,
            ));
        }
    }

    /// The account summary: the committed balance, tagged with the hosting
    /// chain's identity, which the runtime hands in.
    pub fn user_info(&self, chain_id: String) -> (r: UserInfo)
        ensures
            r.balance == self.balance,
            r.chain_id@ == chain_id@,
    {
        UserInfo { balance: self.balance, chain_id }
    }

    /// The committed transaction log, in insertion order.
    pub fn transactions(&self) -> (r: Vec<TransactionView>)
        requires
            self.wf(),
        ensures
            r@.len() == self.model().txs.len(),
            forall|i: int| 0 <= i < r@.len() ==> (#[trigger] r@[i])@ == self.model().txs[i].1,
    {
        let n = self.transactions.len();
        let mut out: Vec<TransactionView> = Vec::new();
        let mut i: usize = 0;
        while i < n
            invariant
                self.wf(),
                n == self.transactions@.len(),
                i <= n,
                out@.len() == i,
                forall|j: int| 0 <= j < i ==> (#[trigger] out@[j])@ == self.model().txs[j].1,
            decreases n - i,
        {
            let tx = self.transactions.value_at(i);
            let view_row = TransactionView {
                tx_id: tx.tx_id.clone(),
                tx_type: tx.tx_type.clone(),
                amount: tx.amount,
                timestamp: tx.timestamp,
                related_id: match &tx.related_id {
                    Some(s) => Some(s.clone()),
                    None => None,
                },
                status: tx.status.clone(),
            };
            proof {
                assert(view_row@ =~= self.model().txs[i as int].1);
            }
            out.push(view_row);
            i = i + 1;
        }
        out
    }

    /// The chain a user's ledger actor lives on, if one was recorded.
    pub fn get_user_chain(&self, user_id: &String) -> (r: Option<String>)
        requires
            self.wf(),
        ensures
            r is Some <==> crate::strmap::map_has_key(self.user_chains@, user_id@),
            r is Some ==> r->0@ == crate::strmap::map_value(self.user_chains@, user_id@)@,
    {
        match self.user_chains.get(user_id) {
            Some(c) => Some(c.clone()),
            None => None,
        }
    }

    /// Dispatches one inbound message, as the actor runtime does; returns the
    /// staged outbound refund, if one is owed.
    pub fn execute_message(&mut self, message: BettingMessage, timestamp: u64) -> (r: Option<
        (String, BettingMessage),
    >)
        requires
            old(self).wf(),
            match message {
                BettingMessage::CreditForWin { amount, bet_id, .. } => !old(
                    self,
                ).model().processed.contains(bet_id@) ==> old(self).balance + amount <= u64::MAX,
                BettingMessage::RefundBet { amount, bet_id, .. } => !old(
                    self,
                ).model().processed.contains(bet_id@) ==> old(self).balance + amount <= u64::MAX,
                _ => true,
            },
        ensures
            final(self).wf(),
            final(self).model() == spec_message(old(self).model(), message@, timestamp).0,
            stage_view(r) == spec_message(old(self).model(), message@, timestamp).1,
    {
        match message {
            BettingMessage::DebitForBet { amount, tournament_id, bet_id, match_id } => {
                self.debit_for_event(amount, tournament_id, bet_id, match_id, timestamp)
            },
            BettingMessage::CreditForWin { amount, tournament_id, bet_id, match_id } => {
                self.credit_for_event(amount, tournament_id, bet_id, match_id, timestamp, false);
                None
            },
            BettingMessage::RefundBet { amount, tournament_id, bet_id, match_id } => {
                self.credit_for_event(amount, tournament_id, bet_id, match_id, timestamp, true);
                None
            },
        }
    }
}

} // verus!
