use dartdetect::dart_game::game::{GamePhase, ShotResult};
use dartdetect::dart_interpretor::zone::sector_from_index;
use dartdetect::game_manager::{apply_shot, game_state_from_session, start_game_session};

#[test]
fn board_sectors_are_a_permutation() {
    let mut seen = [false; 21];
    for i in 0..20 {
        let s = sector_from_index(i) as usize;
        assert!((1..=20).contains(&s));
        assert!(!seen[s]);
        seen[s] = true;
    }
}

#[test]
fn started_game_names_players() {
    let session = start_game_session(3, 301);
    assert_eq!(session.players.len(), 3);
    assert_eq!(session.players[0].name, "Player 1");
    assert_eq!(session.players[2].name, "Player 3");
    assert_eq!(session.players[1].data, 301);
    assert!(!session.variant.require_double_out);
    assert_eq!(session.variant.name, "301");
    assert!(start_game_session(0, 501).players.is_empty());
}

#[test]
fn snapshot_describes_session() {
    let session = start_game_session(2, 501);
    let g = game_state_from_session(&session);
    assert_eq!(g.players.len(), 2);
    assert_eq!(g.players[1].name, "Player 2");
    assert_eq!(g.players[1].score, 501);
    assert_eq!(g.current_player, 0);
    assert_eq!(g.current_dart, 0);
    assert_eq!(g.phase, "playing");
    assert_eq!(g.winner, None);
}

#[test]
fn applying_the_winning_shot_names_the_winner() {
    let mut session = start_game_session(2, 301);
    session.players[0].data = 40;
    let (g, over) = apply_shot(&mut session, ShotResult { sector: 20, multiplier: 1 });
    assert!(over.is_none());
    assert_eq!(g.players[0].score, 20);
    assert_eq!(g.current_dart, 1);
    let (g, over) = apply_shot(&mut session, ShotResult { sector: 10, multiplier: 2 });
    assert_eq!(over, Some((0, String::from("Player 1"))));
    assert_eq!(g.phase, "finished:0");
    assert_eq!(g.winner, Some(0));
    assert_eq!(session.phase, GamePhase::Finished(0));
    // a later shot is answered with the same winner
    let (_, over) = apply_shot(&mut session, ShotResult { sector: 1, multiplier: 1 });
    assert_eq!(over, Some((0, String::from("Player 1"))));
}
