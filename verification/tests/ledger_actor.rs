use settlement::ActorError;
use settlement::decimal::u64_to_decimal;
use settlement::idempotency::ProcessedSet;
use settlement::outbox::Outbox;
use settlement::runtime::{UnitOfWork, process_unit};
use settlement::userxfighter::{BettingMessage, Operation, UserXfighterState};

fn debit(amount: u64, bet: &str) -> BettingMessage {
    BettingMessage::DebitForBet {
        amount,
        tournament_id: "t1".to_string(),
        bet_id: bet.to_string(),
        match_id: "m1".to_string(),
    }
}

#[test]
fn deposit_withdraw_round_trip() {
    let mut state = UserXfighterState::new();
    state.deposit(30, 1);
    assert_eq!(state.balance, 30);
    state.deposit(50, 2);
    assert_eq!(state.balance, 80);
    let r = state.withdraw(50, 3);
    assert_eq!(r, Ok(()));
    assert_eq!(state.balance, 30);
}

#[test]
fn zero_deposit_is_refused() {
    let mut state = UserXfighterState::new();
    let r = state.execute_operation(Operation::Deposit { amount: 0 }, 1);
    assert_eq!(r, Err(ActorError::InvalidInput));
    assert_eq!(state.balance, 0);
    assert_eq!(state.transactions().len(), 0);
}

#[test]
fn withdraw_on_empty_balance_is_refused() {
    let mut state = UserXfighterState::new();
    let r = state.withdraw(1, 1);
    assert_eq!(r, Err(ActorError::InsufficientFunds));
    assert_eq!(state.balance, 0);
    assert_eq!(state.transactions().len(), 0);
}

#[test]
fn duplicate_debit_is_applied_once() {
    let mut state = UserXfighterState::new();
    state.deposit(100, 1);
    for ts in 2..5 {
        let staged = state.execute_message(debit(60, "b1"), ts);
        assert!(staged.is_none());
    }
    assert_eq!(state.balance, 40);
    let txs = state.transactions();
    let bets: Vec<_> = txs.iter().filter(|t| t.tx_type == "bet").collect();
    assert_eq!(bets.len(), 1);
    assert_eq!(bets[0].tx_id, "b1");
    assert_eq!(bets[0].amount, 60);
}

#[test]
fn duplicate_debit_interleaved_with_other_events() {
    let mut state = UserXfighterState::new();
    state.deposit(100, 1);
    state.execute_message(debit(60, "b1"), 2);
    let win = BettingMessage::CreditForWin {
        amount: 10,
        tournament_id: "t1".to_string(),
        bet_id: "b2".to_string(),
        match_id: "m2".to_string(),
    };
    state.execute_message(win, 3);
    state.execute_message(debit(60, "b1"), 4);
    assert_eq!(state.balance, 100 - 60 + 10);
}

#[test]
fn insufficient_debit_stages_a_refund_and_leaves_balance() {
    let mut state = UserXfighterState::new();
    state.instantiate("tapp".to_string(), "tchain".to_string());
    state.deposit(100, 1);
    let staged = state.execute_message(debit(150, "e1"), 2);
    match staged {
        Some((dest, BettingMessage::RefundBet { amount, tournament_id, bet_id, match_id })) => {
            assert_eq!(dest, "tchain");
            assert_eq!(amount, 150);
            assert_eq!(tournament_id, "tapp");
            assert_eq!(bet_id, "e1");
            assert_eq!(match_id, "m1");
        }
        _ => panic!("expected a staged refund"),
    }
    assert_eq!(state.balance, 100);
    assert!(state.transactions().iter().all(|t| t.tx_id != "e1"));
}

#[test]
fn insufficient_debit_without_tournament_stages_nothing() {
    let mut state = UserXfighterState::new();
    state.deposit(100, 1);
    let staged = state.execute_message(debit(150, "e1"), 2);
    assert!(staged.is_none());
    assert_eq!(state.balance, 100);
}

#[test]
fn refund_redelivered_twice_credits_once() {
    let mut state = UserXfighterState::new();
    state.instantiate("tapp".to_string(), "tchain".to_string());
    state.deposit(100, 1);
    state.execute_message(debit(150, "e1"), 2);
    assert_eq!(state.balance, 100);
    let refund = BettingMessage::RefundBet {
        amount: 150,
        tournament_id: "tapp".to_string(),
        bet_id: "e1".to_string(),
        match_id: "m1".to_string(),
    };
    let first = state.execute_message(refund, 3);
    assert!(first.is_none());
    assert_eq!(state.balance, 250);
    let refund_again = BettingMessage::RefundBet {
        amount: 150,
        tournament_id: "tapp".to_string(),
        bet_id: "e1".to_string(),
        match_id: "m1".to_string(),
    };
    let second = state.execute_message(refund_again, 4);
    assert!(second.is_none());
    assert_eq!(state.balance, 250);
    let txs = state.transactions();
    let refunds: Vec<_> = txs.iter().filter(|t| t.tx_type == "refund").collect();
    assert_eq!(refunds.len(), 1);
    assert_eq!(refunds[0].tx_id, "refund_e1");
}

#[test]
fn credit_for_win_is_idempotent() {
    let mut state = UserXfighterState::new();
    let win = BettingMessage::CreditForWin {
        amount: 40,
        tournament_id: "t1".to_string(),
        bet_id: "w1".to_string(),
        match_id: "m9".to_string(),
    };
    state.execute_message(win, 1);
    assert_eq!(state.balance, 40);
    let win_again = BettingMessage::CreditForWin {
        amount: 40,
        tournament_id: "t1".to_string(),
        bet_id: "w1".to_string(),
        match_id: "m9".to_string(),
    };
    state.execute_message(win_again, 2);
    assert_eq!(state.balance, 40);
}

#[test]
fn deposit_log_entry_is_exact() {
    let mut state = UserXfighterState::new();
    state.deposit(7, 42);
    let txs = state.transactions();
    assert_eq!(txs.len(), 1);
    assert_eq!(txs[0].tx_id, "deposit_42");
    assert_eq!(txs[0].tx_type, "deposit");
    assert_eq!(txs[0].amount, 7);
    assert_eq!(txs[0].timestamp, 42);
    assert_eq!(txs[0].related_id, None);
    assert_eq!(txs[0].status, "completed");
}

#[test]
fn bet_log_entry_carries_correlation() {
    let mut state = UserXfighterState::new();
    state.deposit(100, 1);
    state.execute_message(debit(60, "b7"), 2);
    let txs = state.transactions();
    let bet = txs.iter().find(|t| t.tx_type == "bet").expect("bet entry");
    assert_eq!(bet.tx_id, "b7");
    assert_eq!(bet.related_id.as_deref(), Some("t1_m1"));
}

#[test]
fn decimal_rendering_matches_display() {
    assert_eq!(u64_to_decimal(0), "0");
    assert_eq!(u64_to_decimal(7), "7");
    assert_eq!(u64_to_decimal(10), "10");
    assert_eq!(u64_to_decimal(12345), "12345");
    assert_eq!(u64_to_decimal(u64::MAX), "18446744073709551615");
}

#[test]
fn processed_set_marks_at_most_once() {
    let mut set = ProcessedSet::new();
    assert!(!set.has(&"e1".to_string()));
    assert_eq!(set.mark("e1".to_string()), Ok(()));
    assert!(set.has(&"e1".to_string()));
    assert_eq!(set.mark("e1".to_string()), Err(ActorError::AlreadyMarked));
    assert!(set.has(&"e1".to_string()));
}

#[test]
fn outbox_commit_flushes_in_staging_order() {
    let mut outbox: Outbox<u64> = Outbox::new();
    outbox.begin();
    outbox.stage("a".to_string(), 1);
    outbox.stage("b".to_string(), 2);
    let flushed = outbox.commit();
    assert_eq!(flushed.len(), 2);
    assert_eq!(flushed[0].0, "a");
    assert_eq!(flushed[0].1, 1);
    assert_eq!(flushed[1].0, "b");
    assert_eq!(flushed[1].1, 2);
}

#[test]
fn storage_failure_aborts_without_trace() {
    let mut state = UserXfighterState::new();
    state.instantiate("tapp".to_string(), "tchain".to_string());
    state.deposit(100, 1);
    let txs_before = state.transactions().len();
    // This unit stages an outbound refund before the simulated durable-write
    // failure: neither the message nor any state change may survive.
    let unit = UnitOfWork::Message(debit(150, "e9"));
    let outcome = process_unit(&state, unit, 2, false);
    assert!(!outcome.committed);
    assert!(outcome.outbound.is_empty());
    assert_eq!(outcome.state.balance, 100);
    assert_eq!(outcome.state.transactions().len(), txs_before);
}

#[test]
fn committed_unit_hands_over_state_and_messages_together() {
    let mut state = UserXfighterState::new();
    state.instantiate("tapp".to_string(), "tchain".to_string());
    state.deposit(100, 1);
    let unit = UnitOfWork::Message(debit(150, "e9"));
    let outcome = process_unit(&state, unit, 2, true);
    assert!(outcome.committed);
    assert_eq!(outcome.outbound.len(), 1);
    assert_eq!(outcome.outbound[0].0, "tchain");
    match &outcome.outbound[0].1 {
        BettingMessage::RefundBet { amount, bet_id, .. } => {
            assert_eq!(*amount, 150);
            assert_eq!(bet_id, "e9");
        }
        _ => panic!("expected a refund message"),
    }
    assert_eq!(outcome.state.balance, 100);
}

#[test]
fn committed_operation_mutates_state() {
    let state = UserXfighterState::new();
    let unit = UnitOfWork::Operation(Operation::Deposit { amount: 25 });
    let outcome = process_unit(&state, unit, 5, true);
    assert!(outcome.committed);
    assert!(outcome.outbound.is_empty());
    assert_eq!(outcome.state.balance, 25);
    assert_eq!(state.balance, 0);
}

#[test]
fn user_info_and_user_chains() {
    let mut state = UserXfighterState::new();
    state.deposit(12, 1);
    let info = state.user_info("chain-7".to_string());
    assert_eq!(info.balance, 12);
    assert_eq!(info.chain_id, "chain-7");
    assert_eq!(state.get_user_chain(&"alice".to_string()), None);
    state.user_chains.insert("alice".to_string(), "chain-9".to_string());
    assert_eq!(state.get_user_chain(&"alice".to_string()), Some("chain-9".to_string()));
}

#[test]
fn transfer_operation_records_nothing() {
    let mut state = UserXfighterState::new();
    state.deposit(10, 1);
    let r = state.execute_operation(
        Operation::Transfer { to: "bob".to_string(), amount: 5 },
        2,
    );
    assert_eq!(r, Ok(()));
    assert_eq!(state.balance, 10);
    assert_eq!(state.transactions().len(), 1);
}
