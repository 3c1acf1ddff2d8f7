use dartdetect::dart_game::game::{GamePhase, GameSession, GameVariant, ShotResult, TurnRecord};
use dartdetect::dart_game::x01::X01;
use dartdetect::dart_interpretor::multiplicator::{multiplier_from_kind, MultiplierKind};
use dartdetect::dart_interpretor::zone::sector_from_index;
use dartdetect::text::decimal;

fn shot(sector: u32, multiplier: u32) -> ShotResult {
    ShotResult { sector, multiplier }
}

#[test]
fn points_multiply_sector_and_multiplier() {
    assert_eq!(shot(20, 3).points(), 60);
    assert_eq!(shot(19, 1).points(), 19);
    assert_eq!(shot(25, 2).points(), 50);
    assert_eq!(shot(25, 1).points(), 25);
    assert_eq!(shot(1, 2).points(), 2);
}

#[test]
fn points_of_invalid_shots_are_zero() {
    assert_eq!(shot(20, 4).points(), 0);
    assert_eq!(shot(20, 0).points(), 0);
    assert_eq!(shot(21, 1).points(), 0);
    assert_eq!(shot(0, 2).points(), 0);
    assert_eq!(shot(24, 1).points(), 0);
    assert_eq!(shot(u32::MAX, u32::MAX).points(), 0);
}

#[test]
fn x01_names_follow_starting_score() {
    assert_eq!(X01::new(301, false).name, "301");
    assert_eq!(X01::new(501, true).name, "501");
    assert_eq!(X01::new(701, false).name, "701");
    assert_eq!(X01::new(1001, false).name, "1001");
    assert_eq!(X01::new(401, false).name, "X01");
    let x = X01::new(301, true);
    assert_eq!(x.starting_score, 301);
    assert!(x.require_double_out);
    assert_eq!(x.darts_per_turn(), 3);
    assert_eq!(x.max_players(), 4);
    assert_eq!(x.name(), "301");
    assert_eq!(x.init_player_data(), 301);
}

#[test]
fn x01_bust_keeps_remaining_score() {
    let x = X01::new(501, false);
    let mut remaining = 40;
    let outcome = x.resolve_shot(&mut remaining, shot(20, 3));
    assert!(outcome.is_bust);
    assert!(outcome.turn_over);
    assert!(!outcome.game_over);
    assert_eq!(outcome.score, 0);
    assert_eq!(outcome.message.as_deref(), Some("Bust!"));
    assert_eq!(remaining, 40);
}

#[test]
fn x01_double_out_refuses_single_finish() {
    let x = X01::new(501, true);
    let mut remaining = 20;
    let outcome = x.resolve_shot(&mut remaining, shot(20, 1));
    assert!(outcome.is_bust);
    assert_eq!(outcome.score, 0);
    assert_eq!(outcome.message.as_deref(), Some("Must finish on a double!"));
    assert_eq!(remaining, 20);

    let outcome = x.resolve_shot(&mut remaining, shot(10, 2));
    assert!(!outcome.is_bust);
    assert!(outcome.game_over);
    assert!(outcome.turn_over);
    assert_eq!(outcome.score, 20);
    assert_eq!(outcome.message.as_deref(), Some("Game shot!"));
    assert_eq!(remaining, 0);
}

#[test]
fn x01_single_finish_allowed_without_double_out() {
    let x = X01::new(301, false);
    let mut remaining = 20;
    let outcome = x.resolve_shot(&mut remaining, shot(20, 1));
    assert!(outcome.game_over);
    assert_eq!(remaining, 0);
}

#[test]
fn x01_regular_shot_scores_points() {
    let x = X01::new(301, true);
    let mut remaining = 301;
    let outcome = x.resolve_shot(&mut remaining, shot(19, 3));
    assert_eq!(outcome.score, 57);
    assert!(!outcome.is_bust);
    assert!(!outcome.turn_over);
    assert!(!outcome.game_over);
    assert_eq!(outcome.message, None);
    assert_eq!(remaining, 244);
}

#[test]
fn x01_check_winner_names_first_player_at_zero() {
    let x = X01::new(501, true);
    assert_eq!(x.check_winner(&[3, 0, 0]), Some(1));
    assert_eq!(x.check_winner(&[0, 5]), Some(0));
    assert_eq!(x.check_winner(&[3, 4]), None);
    assert_eq!(x.check_winner(&[]), None);
}

#[test]
fn new_session_sets_up_players() {
    let session = GameSession::new(X01::new(301, false), vec!["A".into(), "B".into(), "C".into()]);
    assert_eq!(session.players.len(), 3);
    assert_eq!(session.players[2].name, "C");
    assert_eq!(session.players[2].position, 2);
    assert_eq!(session.players[1].data, 301);
    assert!(session.players[0].history.is_empty());
    assert_eq!(session.current_player, 0);
    assert_eq!(session.current_dart, 0);
    assert_eq!(session.phase, GamePhase::Playing);
}

#[test]
fn turns_rotate_after_three_darts() {
    let mut session = GameSession::new(X01::new(501, false), vec!["A".into(), "B".into(), "C".into()]);
    for _ in 0..3 {
        assert!(!session.is_turn_over());
        session.apply_shot(shot(1, 1));
    }
    assert_eq!(session.current_player, 1);
    assert_eq!(session.current_dart, 0);
    for _ in 0..6 {
        session.apply_shot(shot(1, 1));
    }
    assert_eq!(session.current_player, 0);
    assert_eq!(session.players[0].history.len(), 1);
    assert_eq!(session.players[0].history[0].darts.len(), 3);
    assert_eq!(session.players[0].history[0].score, 3);
    assert_eq!(session.players[2].data, 498);
}

#[test]
fn bust_ends_turn_and_closes_record() {
    let mut session = GameSession::new(X01::new(301, false), vec!["A".into(), "B".into()]);
    session.players[0].data = 30;
    let outcome = session.apply_shot(shot(10, 1));
    assert!(!outcome.turn_over);
    let outcome = session.apply_shot(shot(20, 3));
    assert!(outcome.is_bust);
    assert!(outcome.turn_over);
    assert_eq!(session.current_player, 1);
    assert_eq!(session.players[0].data, 20);
    let record = &session.players[0].history[0];
    assert_eq!(record.darts.len(), 2);
    assert_eq!(record.score, 10);
    assert!(record.bust);
    // next turn of player A starts a new record
    session.apply_shot(shot(1, 1));
    session.apply_shot(shot(1, 1));
    session.apply_shot(shot(1, 1));
    session.apply_shot(shot(5, 1));
    assert_eq!(session.players[0].history.len(), 2);
    assert_eq!(session.players[0].history[1].darts, vec![shot(5, 1)]);
}

#[test]
fn shots_after_game_over_change_nothing() {
    let mut session = GameSession::new(X01::new(301, false), vec!["A".into()]);
    session.players[0].data = 20;
    let outcome = session.apply_shot(shot(20, 1));
    assert!(outcome.game_over);
    assert_eq!(session.phase, GamePhase::Finished(0));
    let outcome = session.apply_shot(shot(20, 3));
    assert_eq!(outcome.score, 0);
    assert!(outcome.game_over);
    assert!(!outcome.turn_over);
    assert!(!outcome.is_bust);
    assert_eq!(outcome.message.as_deref(), Some("Game is already over"));
    assert_eq!(session.players[0].history.len(), 1);
    assert_eq!(session.current_dart, 1);
}

#[test]
fn summary_reports_turn_and_dart() {
    let mut session = GameSession::new(X01::new(501, true), vec!["Alice".into(), "Bob".into()]);
    assert_eq!(session.summary(), "Alice's turn — dart 1/3 (501)");
    session.apply_shot(shot(20, 1));
    assert_eq!(session.summary(), "Alice's turn — dart 2/3 (501)");
    session.apply_shot(shot(20, 1));
    session.apply_shot(shot(20, 1));
    assert_eq!(session.summary(), "Bob's turn — dart 1/3 (501)");
    let session = GameSession::new(X01::new(180, false), vec!["Zoe".into()]);
    assert_eq!(session.summary(), "Zoe's turn — dart 1/3 (X01)");
}

#[test]
fn remaining_plus_recorded_points_is_starting_score() {
    let mut session = GameSession::new(X01::new(301, true), vec!["A".into(), "B".into()]);
    let darts = [shot(20, 3), shot(19, 3), shot(25, 2), shot(7, 1), shot(20, 3), shot(20, 3)];
    for _ in 0..5 {
        for d in darts.iter() {
            session.apply_shot(*d);
        }
    }
    for p in session.players.iter() {
        let recorded: u32 = p.history.iter().map(|t| t.score).sum();
        assert_eq!(p.data + recorded, 301);
    }
}

#[test]
fn decimal_renders_numbers() {
    assert_eq!(decimal(0), "0");
    assert_eq!(decimal(7), "7");
    assert_eq!(decimal(10), "10");
    assert_eq!(decimal(501), "501");
    assert_eq!(decimal(u32::MAX as u64), "4294967295");
    assert_eq!(decimal(u64::MAX), "18446744073709551615");
}

#[test]
fn sectors_follow_board_order() {
    assert_eq!(sector_from_index(0), 20);
    assert_eq!(sector_from_index(5), 6);
    assert_eq!(sector_from_index(10), 3);
    assert_eq!(sector_from_index(19), 5);
    assert_eq!(sector_from_index(20), 20);
    assert_eq!(sector_from_index(21), 1);
}

#[test]
fn rings_give_multipliers() {
    assert_eq!(multiplier_from_kind(MultiplierKind::Zero), 0);
    assert_eq!(multiplier_from_kind(MultiplierKind::BlackBorder), 0);
    assert_eq!(multiplier_from_kind(MultiplierKind::Single), 1);
    assert_eq!(multiplier_from_kind(MultiplierKind::Double), 2);
    assert_eq!(multiplier_from_kind(MultiplierKind::Triple), 3);
}

#[test]
fn first_dart_of_a_turn_starts_a_new_record() {
    let mut session = GameSession::new(X01::new(501, false), vec!["A".into()]);
    // a short turn that ended without a bust
    session.players[0].history = vec![TurnRecord { darts: vec![shot(5, 1)], score: 5, bust: false }];
    session.players[0].data = 496;
    session.apply_shot(shot(20, 1));
    assert_eq!(session.players[0].history.len(), 2);
    assert_eq!(session.players[0].history[1].darts, vec![shot(20, 1)]);
    assert_eq!(session.players[0].history[1].score, 20);
    // the next dart of the same turn extends that record
    session.apply_shot(shot(1, 3));
    assert_eq!(session.players[0].history.len(), 2);
    assert_eq!(session.players[0].history[1].darts, vec![shot(20, 1), shot(1, 3)]);
    assert_eq!(session.players[0].history[1].score, 23);
    assert_eq!(session.players[0].history[0].darts.len(), 1);
}

#[test]
fn complete_record_is_not_extended_mid_turn() {
    let mut session = GameSession::new(X01::new(501, false), vec!["A".into(), "B".into()]);
    // a full last record while the turn counter says one dart was thrown
    session.players[0].history =
        vec![TurnRecord { darts: vec![shot(1, 1), shot(1, 1), shot(1, 1)], score: 3, bust: false }];
    session.current_dart = 1;
    session.apply_shot(shot(20, 1));
    assert_eq!(session.players[0].history.len(), 2);
    assert_eq!(session.players[0].history[0].darts.len(), 3);
    assert_eq!(session.players[0].history[1].darts, vec![shot(20, 1)]);
    // a bust record is not extended either
    let mut session = GameSession::new(X01::new(501, false), vec!["A".into(), "B".into()]);
    session.players[0].history = vec![TurnRecord { darts: vec![shot(20, 3)], score: 0, bust: true }];
    session.current_dart = 1;
    session.apply_shot(shot(5, 1));
    assert_eq!(session.players[0].history.len(), 2);
    assert_eq!(session.players[0].history[1].score, 5);
}
