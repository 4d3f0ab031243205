use settlement::ActorError;
use settlement::leaderboard::{LeaderboardState, Operation, RecordScoreMessage};
use settlement::tournament::TournamentState;
use settlement::xfighter::{MatchResultInput, XfighterState, message_to_leaderboard_operation};

fn report(match_id: &str, p1: &str, p2: &str, winner: &str) -> MatchResultInput {
    MatchResultInput {
        match_id: match_id.to_string(),
        player1_username: p1.to_string(),
        player2_username: p2.to_string(),
        winner_username: winner.to_string(),
        loser_username: if winner == p1 { p2.to_string() } else { p1.to_string() },
        duration_seconds: 90,
        timestamp: 1000,
        player1_score: 3,
        player2_score: 1,
        map_name: "arena".to_string(),
        match_type: "ranked".to_string(),
        afk: None,
    }
}

#[test]
fn duplicate_outcome_is_not_double_counted() {
    let mut board = LeaderboardState::new();
    assert_eq!(board.record_outcome("A".to_string(), "B".to_string(), "m1".to_string()), Ok(()));
    assert_eq!(board.record_outcome("B".to_string(), "A".to_string(), "m2".to_string()), Ok(()));
    // The duplicate of m1 reports success and changes nothing.
    assert_eq!(board.record_outcome("A".to_string(), "B".to_string(), "m1".to_string()), Ok(()));
    let rows = board.leaderboard(None);
    assert_eq!(rows.len(), 2);
    for row in &rows {
        assert_eq!(row.total_wins, 1);
        assert_eq!(row.total_losses, 1);
        assert_eq!(row.total_matches, 2);
        assert_eq!(row.score, 1);
    }
    assert_eq!(board.score(&"A".to_string()), Some(1));
    assert_eq!(board.score(&"B".to_string()), Some(1));
}

#[test]
fn record_outcome_rejects_malformed_input() {
    let mut board = LeaderboardState::new();
    assert_eq!(
        board.record_outcome("A".to_string(), "A".to_string(), "m1".to_string()),
        Err(ActorError::InvalidInput)
    );
    assert_eq!(
        board.record_outcome("".to_string(), "B".to_string(), "m1".to_string()),
        Err(ActorError::InvalidInput)
    );
    assert_eq!(
        board.record_outcome("A".to_string(), "B".to_string(), "".to_string()),
        Err(ActorError::InvalidInput)
    );
    assert_eq!(board.leaderboard(None).len(), 0);
}

#[test]
fn per_subject_duplicate_is_suppressed() {
    let mut board = LeaderboardState::new();
    board.execute_message(RecordScoreMessage {
        user_id: "A".to_string(),
        is_winner: true,
        match_id: "m1".to_string(),
    });
    // The identical message, redelivered: the store already holds this half.
    board.execute_message(RecordScoreMessage {
        user_id: "A".to_string(),
        is_winner: true,
        match_id: "m1".to_string(),
    });
    let rows = board.leaderboard(None);
    assert_eq!(rows.len(), 1);
    assert_eq!(rows[0].total_wins, 1);
    assert_eq!(rows[0].total_matches, 1);
    assert_eq!(board.score(&"A".to_string()), Some(1));
}

#[test]
fn duplicate_message_pair_is_not_double_counted() {
    // The duplicated first match arrives again, interleaved after a second
    // match: neither subject's counters move twice for it.
    let mut board = LeaderboardState::new();
    let deliveries = [
        ("A", true, "m1"),
        ("B", false, "m1"),
        ("B", true, "m2"),
        ("A", false, "m2"),
        ("A", true, "m1"),
        ("B", false, "m1"),
    ];
    for (user, won, match_id) in deliveries {
        board.execute_message(RecordScoreMessage {
            user_id: user.to_string(),
            is_winner: won,
            match_id: match_id.to_string(),
        });
    }
    let rows = board.leaderboard(None);
    assert_eq!(rows.len(), 2);
    for row in &rows {
        assert_eq!(row.total_wins, 1);
        assert_eq!(row.total_losses, 1);
        assert_eq!(row.total_matches, 2);
        assert_eq!(row.score, 1);
    }
}

#[test]
fn per_subject_update_applies_each_time() {
    let mut board = LeaderboardState::new();
    board.update_score_and_stats("A".to_string(), true, "m1".to_string());
    board.update_score_and_stats("A".to_string(), true, "m2".to_string());
    board.update_score_and_stats("A".to_string(), false, "m3".to_string());
    assert_eq!(board.score(&"A".to_string()), Some(2));
    let rows = board.leaderboard(None);
    assert_eq!(rows.len(), 1);
    assert_eq!(rows[0].total_wins, 2);
    assert_eq!(rows[0].total_losses, 1);
    assert_eq!(rows[0].total_matches, 3);
}

#[test]
fn leaderboard_is_sorted_and_truncated() {
    let mut board = LeaderboardState::new();
    board.update_score_and_stats("low".to_string(), false, "m1".to_string());
    board.update_score_and_stats("high".to_string(), true, "m2".to_string());
    board.update_score_and_stats("high".to_string(), true, "m3".to_string());
    board.update_score_and_stats("mid".to_string(), true, "m4".to_string());
    let all = board.leaderboard(None);
    assert_eq!(all.len(), 3);
    assert_eq!(all[0].user_id, "high");
    assert_eq!(all[1].user_id, "mid");
    assert_eq!(all[2].user_id, "low");
    let top2 = board.leaderboard(Some(2));
    assert_eq!(top2.len(), 2);
    assert_eq!(top2[0].user_id, "high");
    assert_eq!(top2[1].user_id, "mid");
}

#[test]
fn leaderboard_ties_keep_first_seen_order() {
    let mut board = LeaderboardState::new();
    board.update_score_and_stats("zoe".to_string(), true, "m1".to_string());
    board.update_score_and_stats("amy".to_string(), true, "m2".to_string());
    let rows = board.leaderboard(None);
    assert_eq!(rows.len(), 2);
    // Equal scores: the subject seen first stays first.
    assert_eq!(rows[0].user_id, "zoe");
    assert_eq!(rows[1].user_id, "amy");
}

#[test]
fn leaderboard_operation_and_message_paths_agree() {
    let mut by_operation = LeaderboardState::new();
    by_operation.execute_operation(Operation::RecordScore {
        user_id: "A".to_string(),
        is_winner: true,
        match_id: "m1".to_string(),
    });
    let mut by_message = LeaderboardState::new();
    by_message.execute_message(RecordScoreMessage {
        user_id: "A".to_string(),
        is_winner: true,
        match_id: "m1".to_string(),
    });
    assert_eq!(by_operation.score(&"A".to_string()), by_message.score(&"A".to_string()));
}

#[test]
fn match_report_is_stored_once_per_chain() {
    let mut recorder = XfighterState::new();
    let first = recorder
        .record_score(report("m1", "A", "B", "A"), "chainX".to_string(), "pub".to_string())
        .expect("valid report");
    assert_eq!(first.len(), 2);
    assert_eq!(first[0].0, "pub");
    assert_eq!(first[0].1.user_id, "A");
    assert!(first[0].1.is_winner);
    assert_eq!(first[0].1.match_id, "m1");
    assert_eq!(first[1].0, "pub");
    assert_eq!(first[1].1.user_id, "B");
    assert!(!first[1].1.is_winner);
    // A redelivered report for the same chain is a successful no-op.
    let second = recorder
        .record_score(report("m1", "A", "B", "A"), "chainX".to_string(), "pub".to_string())
        .expect("duplicate is no error");
    assert!(second.is_empty());
    assert_eq!(recorder.all_match_results().len(), 1);
    assert_eq!(recorder.all_match_results()[0].winner_username, "A");
}

#[test]
fn match_report_with_unknown_winner_is_refused() {
    let mut recorder = XfighterState::new();
    let r = recorder.record_score(
        report("m1", "A", "B", "C"),
        "chainX".to_string(),
        "pub".to_string(),
    );
    assert!(matches!(r, Err(ActorError::InvalidInput)));
    assert_eq!(recorder.all_match_results().len(), 0);
}

#[test]
fn loser_is_the_other_player() {
    let mut recorder = XfighterState::new();
    let msgs = recorder
        .record_score(report("m2", "A", "B", "B"), "chainY".to_string(), "pub".to_string())
        .expect("valid report");
    assert_eq!(msgs[0].1.user_id, "B");
    assert!(msgs[0].1.is_winner);
    assert_eq!(msgs[1].1.user_id, "A");
    assert!(!msgs[1].1.is_winner);
}

#[test]
fn forwarding_keeps_message_fields() {
    let op = message_to_leaderboard_operation(RecordScoreMessage {
        user_id: "A".to_string(),
        is_winner: true,
        match_id: "m5".to_string(),
    });
    match op {
        Operation::RecordScore { user_id, is_winner, match_id } => {
            assert_eq!(user_id, "A");
            assert!(is_winner);
            assert_eq!(match_id, "m5");
        }
    }
}

#[test]
fn child_app_listing_renders_hex() {
    let mut recorder = XfighterState::new();
    recorder.register_child("chain1".to_string(), vec![0x00, 0x01, 0xab, 0xff]);
    let listing = recorder.all_child_apps();
    assert_eq!(listing.len(), 1);
    assert_eq!(listing[0].0, "chain1");
    assert_eq!(listing[0].1, "0001abff");
    assert_eq!(recorder.all_opened_chains(), vec!["chain1".to_string()]);
    recorder.leaderboard_id = Some(vec![0xde, 0xad, 0xbe, 0xef]);
    assert_eq!(recorder.leaderboard_id_hex(), Some("deadbeef".to_string()));
}

#[test]
fn tournament_lifecycle() {
    let mut t = TournamentState::new();
    t.instantiate(Some(vec!["A".to_string(), "B".to_string()]));
    assert_eq!(t.tournament_name, "Tournament");
    assert_eq!(t.status, "Open");
    assert_eq!(t.current_round, "Quarterfinal");
    t.create_tournament("Cup".to_string(), 10, 20, "op-1".to_string());
    assert_eq!(t.tournament_name, "Cup");
    assert_eq!(t.start_time, 10);
    assert_eq!(t.end_time, 20);
    t.register("C".to_string());
    assert_eq!(t.participants_list(), vec!["A".to_string(), "B".to_string(), "C".to_string()]);
    t.record_match("S1".to_string(), "A".to_string(), "B".to_string());
    assert_eq!(t.champion_opt(), None);
    t.record_match("F1".to_string(), "A".to_string(), "C".to_string());
    assert_eq!(t.champion_opt(), Some("A".to_string()));
    assert_eq!(t.runner_up_opt(), Some("C".to_string()));
    let results = t.results_list();
    assert_eq!(results.len(), 2);
    assert_eq!(results[0], ("S1".to_string(), "A".to_string(), "B".to_string()));
    assert_eq!(results[1], ("F1".to_string(), "A".to_string(), "C".to_string()));
    assert_eq!(t.onchain_op_id(), Some("op-1".to_string()));
    t.close_tournament();
    assert_eq!(t.status, "Finished");
}

#[test]
fn tournament_ranking_is_sorted() {
    let mut t = TournamentState::new();
    t.instantiate(None);
    t.record_match("S1".to_string(), "A".to_string(), "B".to_string());
    t.record_match("S2".to_string(), "B".to_string(), "C".to_string());
    t.record_match("S3".to_string(), "A".to_string(), "C".to_string());
    let ranking = t.tournament_leaderboard_ranking();
    assert_eq!(ranking.len(), 3);
    assert_eq!(ranking[0], ("A".to_string(), 2));
    assert_eq!(ranking[1], ("B".to_string(), 1));
    assert_eq!(ranking[2], ("C".to_string(), 0));
}

#[test]
fn repeated_match_id_is_not_rerecorded() {
    let mut t = TournamentState::new();
    t.instantiate(None);
    t.record_match("S1".to_string(), "A".to_string(), "B".to_string());
    // The same match reported again: presence check, no re-increment.
    t.record_match("S1".to_string(), "A".to_string(), "B".to_string());
    let ranking = t.tournament_leaderboard_ranking();
    assert_eq!(ranking[0], ("A".to_string(), 1));
    assert_eq!(ranking[1], ("B".to_string(), 0));
    assert_eq!(t.results_list().len(), 1);
}

#[test]
fn non_final_match_keeps_champion_unset() {
    let mut t = TournamentState::new();
    t.instantiate(None);
    t.record_match("QF1".to_string(), "A".to_string(), "B".to_string());
    assert_eq!(t.champion_opt(), None);
    assert_eq!(t.runner_up_opt(), None);
}
