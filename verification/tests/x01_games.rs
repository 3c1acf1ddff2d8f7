use dartdetect::dart_game::game::{GamePhase, GameSession, ShotResult};
use dartdetect::dart_game::x01::X01;

fn t(sector: u32) -> ShotResult {
    ShotResult { sector, multiplier: 3 }
}

fn d(sector: u32) -> ShotResult {
    ShotResult { sector, multiplier: 2 }
}

fn s(sector: u32) -> ShotResult {
    ShotResult { sector, multiplier: 1 }
}

/// Simulates a perfect 9-dart finish (501, double out).
/// Sequence: T20 T20 T20 | T20 T20 T20 | T20 T19 D12
#[test]
fn nine_dart_finish() {
    let mut session = GameSession::new(
        X01::new(501, true),
        vec!["Phil Taylor".into()],
    );

    // Turn 1 — 180
    let outcome = session.apply_shot(t(20));
    assert!(!outcome.turn_over);
    let outcome = session.apply_shot(t(20));
    assert!(!outcome.turn_over);
    let outcome = session.apply_shot(t(20));
    assert!(outcome.turn_over);
    assert!(!outcome.game_over);

    // Turn 2 — 180 → 321 remaining
    let outcome = session.apply_shot(t(20));
    assert!(!outcome.turn_over);
    let outcome = session.apply_shot(t(20));
    assert!(!outcome.turn_over);
    let outcome = session.apply_shot(t(20));
    assert!(outcome.turn_over);
    assert!(!outcome.game_over);

    // Turn 3 — 141 checkout: T20 T19 D12
    let outcome = session.apply_shot(t(20));   // 60 → 81 remaining
    assert!(!outcome.turn_over);
    assert_eq!(session.players[0].data, 81);

    let outcome = session.apply_shot(t(19));   // 57 → 24 remaining
    assert!(!outcome.turn_over);
    assert_eq!(session.players[0].data, 24);

    let outcome = session.apply_shot(d(12));   // D12 → 0
    assert!(outcome.game_over);
    assert!(outcome.turn_over);
    assert_eq!(outcome.message.as_deref(), Some("Game shot!"));
    assert_eq!(session.phase, GamePhase::Finished(0));

    // Total of 9 darts
    assert_eq!(session.players[0].history.len(), 3);
    let total_darts: usize = session.players[0].history.iter()
        .map(|t| t.darts.len())
        .sum();
    assert_eq!(total_darts, 9);
}

/// Two-player match where both have a slow start, then Player 0 checks out.
/// Sequence:
///   P0:  60  60  60 → 180 (321 left)
///   P1:  20  20  20 →  60 (441 left)
///   P0: 100 100 100 → bust (exceeds 321)
///   P1:  60  60  60 → 180 (261 left)
///   P0: 100 100 100 → bust again
///   P1: 141 checkout: T20 T19 D12 → 261 - 141 = 120 (not finished, need double)
///   P0:  60 100  60 → bust
///   P1:  T20  T20  D12 → 120 - 120 = 0 🎯
#[test]
fn two_player_match() {
    let mut session = GameSession::new(
        X01::new(501, true),
        vec!["Alice".into(), "Bob".into()],
    );

    println!("=== Match start: Alice vs Bob (501, double out) ===\n");

    // ─── Round 1 ───────────────────────────────
    println!("── Round 1 ──");

    // Alice
    println!("Alice:");
    let _ = session.apply_shot(t(20));
    let _ = session.apply_shot(t(20));
    let outcome = session.apply_shot(t(20));
    println!("  T20 T20 T20 → 180 ({} left)", session.players[0].data);
    assert!(outcome.turn_over);
    assert_eq!(session.players[0].data, 321);

    // Bob
    println!("Bob:");
    let _ = session.apply_shot(s(20));
    let _ = session.apply_shot(s(20));
    let outcome = session.apply_shot(s(20));
    println!("  S20 S20 S20 → 60 ({} left)", session.players[1].data);
    assert!(outcome.turn_over);
    assert_eq!(session.players[1].data, 441);

    // ─── Round 2 ───────────────────────────────
    println!("\n── Round 2 ──");

    // Alice
    println!("Alice:");
    let _ = session.apply_shot(s(20)); // 321 → 301
    let _ = session.apply_shot(s(20)); // 301 → 281
    let outcome = session.apply_shot(t(20)); // 281 - 60 = 221
    println!("  S20 S20 T20 → 100 ({} left)", session.players[0].data);
    assert!(!outcome.is_bust);
    assert!(outcome.turn_over);
    assert_eq!(session.players[0].data, 221);

    // Bob
    println!("Bob:");
    let _ = session.apply_shot(t(20));
    let _ = session.apply_shot(t(20));
    let outcome = session.apply_shot(t(20));
    println!("  T20 T20 T20 → 180 ({} left)", session.players[1].data);
    assert!(outcome.turn_over);
    assert_eq!(session.players[1].data, 261);

    // ─── Round 3 ───────────────────────────────
    println!("\n── Round 3 ──");

    // Alice
    println!("Alice:");
    let _ = session.apply_shot(t(20)); // 221 - 60 = 161
    let _ = session.apply_shot(t(20)); // 161 - 60 = 101
    let outcome = session.apply_shot(t(20)); // 101 - 60 = 41
    println!("  T20 T20 T20 → 180 ({} left)", session.players[0].data);
    assert!(!outcome.is_bust);
    assert!(outcome.turn_over);
    assert_eq!(session.players[0].data, 41);

    // Bob
    println!("Bob:");
    let _ = session.apply_shot(t(20));
    let _ = session.apply_shot(t(20));
    let _ = session.apply_shot(t(20));
    println!("  T20 T20 T20 → 180 ({} left)", session.players[1].data);
    assert_eq!(session.players[1].data, 81);

    // ─── Round 4 ───────────────────────────────
    println!("\n── Round 4 ──");

    // Alice
    println!("Alice:");
    let _ = session.apply_shot(s(1));  // 41 - 1 = 40
    let _ = session.apply_shot(d(10)); // 40 - 20 = 20
    let outcome = session.apply_shot(s(20)); // S20 on 20 → bust (not a double)
    println!("  S1 D10 S20 → BUST! ({} left, needs double)", session.players[0].data);
    assert!(outcome.is_bust);
    assert_eq!(session.players[0].data, 20);

    // Bob
    println!("Bob:");
    let _ = session.apply_shot(t(19)); // 81 - 57 = 24
    let outcome = session.apply_shot(d(12)); // D12 → 0 🎯
    println!("  T19 D12 → 0 🏆 Bob wins!");
    assert!(outcome.game_over);
    assert_eq!(session.phase, GamePhase::Finished(1));
    assert_eq!(session.players[1].data, 0);

    println!("\n=== Match finished: Bob wins ===");
}
