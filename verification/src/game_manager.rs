use vstd::prelude::*;

use crate::dart_game::game::{
    after_shot, can_apply_shot, new_session, GamePhase, GameSession, SessionView, ShotResult,
};
use crate::dart_game::x01::X01;
use crate::text::{decimal, decimal_text, is_numeral, lemma_decimal_text_reads_back, numeral_value};

verus! {

/// A single player's name and remaining score within the game.
pub struct PlayerState {
    pub name: String,
    pub score: u32,
}

/// Snapshot of an X01 game for the clients: player states, current turn,
/// phase and winner.
pub struct GameStatePayload {
    pub players: Vec<PlayerState>,
    pub current_player: usize,
    pub current_dart: u32,
    pub phase: String,
    pub winner: Option<usize>,
}

/// The phase as the clients read it: "playing", or "finished:" and the
/// winner's index.
pub open spec fn phase_text(phase: GamePhase) -> Seq<char> {
    match phase {
        GamePhase::Playing => "playing"@,
        GamePhase::Finished(w) => "finished:"@ + decimal_text(w as nat),
    }
}

/// The winner of a finished game.
pub open spec fn phase_winner(phase: GamePhase) -> Option<usize> {
    match phase {
        GamePhase::Playing => None,
        GamePhase::Finished(w) => Some(w),
    }
}

/// `g` is the snapshot of the session `s`: each player's name and remaining
/// score in order, the current player and dart, the phase text and the winner.
pub open spec fn describes(g: GameStatePayload, s: SessionView<u32>) -> bool {
    &&& g.players@.len() == s.players.len()
    &&& forall|i: int|
        0 <= i < s.players.len() ==> #[trigger] g.players@[i].name@ == s.players[i].name
            && g.players@[i].score == s.players[i].data
    &&& g.current_player == s.current_player
    &&& g.current_dart == s.current_dart
    &&& g.phase@ == phase_text(s.phase)
    &&& g.winner == phase_winner(s.phase)
}

/// The snapshot of a game tells its phase: for a game still played the phase
/// text is "playing" and there is no winner; for a game won by the player at
/// index `w` the phase text is "finished:" followed by a decimal numeral
/// that reads as `w`, and the winner is `w`. The players' names and scores
/// and the turn are those of the session.
pub proof fn lemma_snapshot_tells_phase(g: GameStatePayload, s: SessionView<u32>)
    requires
        describes(g, s),
    ensures
        s.phase is Playing ==> g.phase@ == "playing"@ && g.winner is None,
        s.phase matches GamePhase::Finished(w) ==> {
            &&& g.winner == Some(w)
            &&& g.phase@.len() > 9
            &&& g.phase@.take(9) == "finished:"@
            &&& is_numeral(g.phase@.skip(9))
            &&& numeral_value(g.phase@.skip(9)) == w
        },
        g.current_player == s.current_player,
        g.current_dart == s.current_dart,
        g.players@.len() == s.players.len(),
        forall|i: int|
            0 <= i < s.players.len() ==> #[trigger] g.players@[i].name@ == s.players[i].name
                && g.players@[i].score == s.players[i].data,
{
    if let GamePhase::Finished(w) = s.phase {
        lemma_decimal_text_reads_back(w as nat);
        reveal_strlit("finished:");
        let t = decimal_text(w as nat);
        assert(g.phase@ == "finished:"@ + t);
        assert(g.phase@.take(9) =~= "finished:"@);
        assert(g.phase@.skip(9) =~= t);
    }
}

/// Converts a game session into the snapshot that is sent to the clients.
pub fn game_state_from_session(session: &GameSession<X01>) -> (g: GameStatePayload)
    ensures
        describes(g, session@),
{
    let mut players: Vec<PlayerState> = Vec::new();
    let mut i: usize = 0;
    while i < session.players.len()
        invariant
            i <= session.players@.len(),
            players@.len() == i,
            forall|j: int|
                0 <= j < i ==> #[trigger] players@[j].name@ == session@.players[j].name
                    && players@[j].score == session@.players[j].data,
        decreases session.players@.len() - i,
    {
        let ghost before = players@;
        let p = &session.players[i];
        players.push(PlayerState { name: p.name.clone(), score: p.data });
        assert forall|j: int| 0 <= j < i + 1 implies #[trigger] players@[j].name@
            == session@.players[j].name && players@[j].score == session@.players[j].data by {
            if j < i {
                assert(players@[j] == before[j]);
                assert(before[j].name@ == session@.players[j].name);
            } else {
                assert(session@.players[j] == session.players@[j]@);
            }
        }
        i = i + 1;
    }
    let (phase, winner) = match session.phase {
        GamePhase::Playing => (String::from_str("playing"), None),
        GamePhase::Finished(w) => {
            let mut text = String::from_str("finished:");
            let index = decimal(w as u64);
            text.append(index.as_str());
            (text, Some(w))
        },
    };
    GameStatePayload {
        players,
        current_player: session.current_player,
        current_dart: session.current_dart,
        phase,
        winner,
    }
}

/// The generated names of `count` players: "Player 1", "Player 2", ...
pub open spec fn generated_names(count: nat) -> Seq<Seq<char>> {
    Seq::new(count, |i: int| "Player "@ + decimal_text((i + 1) as nat))
}

/// The generated name of the player at index `i` is "Player " followed by a
/// decimal numeral that reads as `i + 1`.
pub proof fn lemma_generated_names(count: nat, i: int)
    requires
        0 <= i < count,
    ensures
        generated_names(count).len() == count,
        generated_names(count)[i].len() > 7,
        generated_names(count)[i].take(7) == "Player "@,
        is_numeral(generated_names(count)[i].skip(7)),
        numeral_value(generated_names(count)[i].skip(7)) == i + 1,
{
    reveal_strlit("Player ");
    lemma_decimal_text_reads_back((i + 1) as nat);
    let t = decimal_text((i + 1) as nat);
    let name = generated_names(count)[i];
    assert(name == "Player "@ + t);
    assert(name.take(7) =~= "Player "@);
    assert(name.skip(7) =~= t);
}

/// Starts a new X01 game without double-out for `players_count` players named
/// "Player 1", "Player 2", ..., each starting at `starting_score`.
pub fn start_game_session(players_count: u32, starting_score: u32) -> (s: GameSession<X01>)
    ensures
        s.variant.starting_score == starting_score,
        !s.variant.require_double_out,
        s.variant.name@ == crate::dart_game::x01::x01_name(starting_score),
        s@ == new_session(generated_names(players_count as nat), starting_score),
{
    let mut names: Vec<String> = Vec::new();
    let mut i: u64 = 1;
    while i <= players_count as u64
        invariant
            1 <= i <= players_count as u64 + 1,
            names@.len() == i - 1,
            forall|j: int|
                0 <= j < i - 1 ==> #[trigger] names@[j]@ == generated_names(
                    players_count as nat,
                )[j],
        decreases players_count as u64 + 1 - i,
    {
        let mut name = String::from_str("Player ");
        let number = decimal(i);
        name.append(number.as_str());
        names.push(name);
        i = i + 1;
    }
    let ghost given = names@;
    let session = GameSession::new(X01::new(starting_score, false), names);
    assert(given.map_values(|n: String| n@) =~= generated_names(players_count as nat));
    session
}

/// The winner's index and name after a shot that ended the game (the
/// winner of the finished phase, or the current player otherwise).
pub open spec fn winner_of(s: SessionView<u32>) -> usize {
    match s.phase {
        GamePhase::Finished(i) => i,
        GamePhase::Playing => s.current_player,
    }
}

/// Applies a dart to the active game: returns the new snapshot of the game
/// and, when the shot is answered with game over, the winner's index and name.
pub fn apply_shot(session: &mut GameSession<X01>, shot: ShotResult) -> (r: (
    GameStatePayload,
    Option<(usize, String)>,
))
    requires
        can_apply_shot(old(session)@),
        old(session).phase matches GamePhase::Finished(w) ==> w < old(session).players.len(),
    ensures
        final(session).variant == old(session).variant,
        final(session)@ == after_shot(old(session).variant, old(session)@, shot).0,
        describes(r.0, final(session)@),
        r.1 is Some <==> after_shot(old(session).variant, old(session)@, shot).1.game_over,
        r.1 matches Some((i, name)) ==> i == winner_of(final(session)@) && name@
            == final(session)@.players[i as int].name,
{
    let outcome = session.apply_shot(shot);
    let game_state = game_state_from_session(session);
    let game_over = if outcome.game_over {
        let winner: usize = match session.phase {
            GamePhase::Finished(i) => i,
            _ => session.current_player,
        };
        Some((winner, session.players[winner].name.clone()))
    } else {
        None
    };
    (game_state, game_over)
}

} // verus!
