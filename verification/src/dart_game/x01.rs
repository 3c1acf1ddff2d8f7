use vstd::prelude::*;

use crate::text::decimal_text;
use crate::dart_game::game::{
    after_shot, after_shots, can_apply_shot, lemma_recorded_ends_with_shot,
    lemma_shot_keeps_well_formed, lemma_shot_points, new_session, player_data, recorded,
    shot_points, starts_new_record, well_formed, GamePhase, GameVariant, OutcomeView,
    SessionView, ShotOutcome, ShotResult, TurnView,
};

verus! {

/// The X01 game variant (301, 501, ...): each player counts down from the
/// starting score, optionally finishing on a double.
pub struct X01 {
    pub starting_score: u32,
    pub require_double_out: bool,
    pub name: &'static str,
}

/// The name of an X01 game with the given starting score.
pub open spec fn x01_name(starting_score: u32) -> Seq<char> {
    if starting_score == 301 {
        "301"@
    } else if starting_score == 501 {
        "501"@
    } else if starting_score == 701 {
        "701"@
    } else if starting_score == 1001 {
        "1001"@
    } else {
        "X01"@
    }
}

/// The standard X01 games (301, 501, 701 and 1001) are named by their
/// starting score in decimal; any other starting score gives "X01".
pub proof fn lemma_x01_name(starting_score: u32)
    ensures
        (starting_score == 301 || starting_score == 501 || starting_score == 701 || starting_score
            == 1001) ==> x01_name(starting_score) == decimal_text(starting_score as nat),
        !(starting_score == 301 || starting_score == 501 || starting_score == 701 || starting_score
            == 1001) ==> x01_name(starting_score) == "X01"@,
{
    reveal_strlit("301");
    reveal_strlit("501");
    reveal_strlit("701");
    reveal_strlit("1001");
    reveal_with_fuel(decimal_text, 5);
    if starting_score == 301 {
        assert(decimal_text(301) =~= "301"@);
    } else if starting_score == 501 {
        assert(decimal_text(501) =~= "501"@);
    } else if starting_score == 701 {
        assert(decimal_text(701) =~= "701"@);
    } else if starting_score == 1001 {
        assert(decimal_text(1001) =~= "1001"@);
    }
}

/// Outcome of a bust: no points, the turn ends, with the given message.
pub open spec fn bust_outcome(message: Seq<char>) -> OutcomeView {
    OutcomeView {
        score: 0,
        is_bust: true,
        turn_over: true,
        game_over: false,
        message: Some(message),
    }
}

/// A shot against a remaining score under X01 rules: the remaining score
/// afterwards and the outcome.
///
/// A shot worth more than what remains is a bust; with double-out, a shot
/// that would reach exactly zero without being a double is a bust too. A
/// bust leaves the remaining score as it is. Otherwise the points are taken
/// off, and reaching zero wins the game.
pub open spec fn x01_resolved(
    require_double_out: bool,
    remaining: u32,
    shot: ShotResult,
) -> (u32, OutcomeView) {
    let thrown: u32 = shot_points(shot);
    if thrown > remaining {
        (remaining, bust_outcome("Bust!"@))
    } else if require_double_out && thrown == remaining && shot.multiplier != 2 {
        (remaining, bust_outcome("Must finish on a double!"@))
    } else {
        let left = (remaining - thrown) as u32;
        (
            left,
            OutcomeView {
                score: thrown,
                is_bust: false,
                turn_over: left == 0,
                game_over: left == 0,
                message: if left == 0 {
                    Some("Game shot!"@)
                } else {
                    None
                },
            },
        )
    }
}

/// Index of the first player with no points left, if any.
pub open spec fn first_checked_out(players: Seq<u32>) -> Option<usize>
    decreases players.len(),
{
    if players.len() == 0 {
        None
    } else {
        match first_checked_out(players.drop_last()) {
            Some(i) => Some(i),
            None => if players.last() == 0 {
                Some((players.len() - 1) as usize)
            } else {
                None
            },
        }
    }
}

/// The first player with no points left is the one `first_checked_out` names.
pub proof fn lemma_first_checked_out(players: Seq<u32>)
    requires
        players.len() <= usize::MAX,
    ensures
        first_checked_out(players) matches Some(i) ==> {
            &&& i < players.len()
            &&& players[i as int] == 0
            &&& forall|j: int| 0 <= j < i ==> players[j] != 0
        },
        first_checked_out(players) is None ==> forall|j: int|
            0 <= j < players.len() ==> players[j] != 0,
    decreases players.len(),
{
    if players.len() > 0 {
        lemma_first_checked_out(players.drop_last());
        assert forall|j: int| 0 <= j < players.len() - 1 implies players.drop_last()[j]
            == players[j] by {}
    }
}


/// Points recorded in a player's turn history.
pub open spec fn history_total(history: Seq<TurnView>) -> nat
    decreases history.len(),
{
    if history.len() == 0 {
        0
    } else {
        history_total(history.drop_last()) + history.last().score as nat
    }
}

/// Under X01 rules a shot takes its points off the remaining score, or
/// nothing when it is a bust: the remaining score never grows, a bust
/// scores nothing and leaves the remaining score as it is, any other shot
/// scores its points, and the game is won exactly when a shot that is no bust
/// reaches zero, which with double-out takes a double.
pub proof fn lemma_x01_shot_accounting(require_double_out: bool, remaining: u32, shot: ShotResult)
    ensures
        ({
            let (left, out) = x01_resolved(require_double_out, remaining, shot);
            &&& left + out.score == remaining
            &&& out.is_bust ==> out.score == 0 && left == remaining && out.turn_over
            &&& !out.is_bust ==> out.score == shot_points(shot)
            &&& out.game_over <==> (!out.is_bust && left == 0)
            &&& out.game_over ==> out.turn_over
            &&& (require_double_out && out.game_over) ==> shot.multiplier == 2
        }),
{
}

/// The X01 rule for a shot worth `points` (the sector times the multiplier
/// for a sector 1 to 20 or 25 and a multiplier 1 to 3, nothing otherwise):
/// it is a bust exactly when it is worth more than what remains, or, with
/// double-out, when it is worth exactly what remains without being a double
/// (multiplier 2; the double bull counts). A bust scores nothing, keeps the
/// remaining score and says "Bust!" or "Must finish on a double!"; any other
/// shot scores its points and takes them off, and reaching zero wins the
/// game with "Game shot!".
pub proof fn lemma_x01_bust_rule(require_double_out: bool, remaining: u32, shot: ShotResult)
    ensures
        ({
            let (left, out) = x01_resolved(require_double_out, remaining, shot);
            let points: int = if (1 <= shot.sector <= 20 || shot.sector == 25) && 1
                <= shot.multiplier <= 3 {
                shot.sector * shot.multiplier
            } else {
                0
            };
            &&& out.is_bust <==> (points > remaining || (require_double_out && points == remaining
                && shot.multiplier != 2))
            &&& points > remaining ==> out.is_bust && out.message == Some("Bust!"@)
            &&& (points <= remaining && out.is_bust) ==> out.message == Some(
                "Must finish on a double!"@,
            )
            &&& out.is_bust ==> out.score == 0 && left == remaining && out.turn_over
                && !out.game_over
            &&& !out.is_bust ==> out.score == points && left == remaining - points
            &&& out.game_over <==> (!out.is_bust && points == remaining)
            &&& out.game_over ==> out.turn_over && out.message == Some("Game shot!"@)
            &&& (!out.is_bust && !out.game_over) ==> !out.turn_over && out.message is None
        }),
{
    lemma_shot_points(shot.sector, shot.multiplier);
}

/// Under double-out, a double (the double bull included) worth exactly the
/// remaining score checks out: it scores the remaining score, leaves zero
/// and wins the game.
pub proof fn lemma_x01_double_checkout(remaining: u32, sector: u32)
    requires
        1 <= sector <= 20 || sector == 25,
        remaining == 2 * sector,
    ensures
        ({
            let (left, out) = x01_resolved(true, remaining, ShotResult { sector, multiplier: 2 });
            &&& !out.is_bust
            &&& out.score == remaining
            &&& left == 0
            &&& out.game_over
            &&& out.turn_over
        }),
{
    lemma_x01_bust_rule(true, remaining, ShotResult { sector, multiplier: 2 });
}

/// The points recorded after a dart grow by the dart's score.
pub proof fn lemma_recorded_total(
    history: Seq<TurnView>,
    shot: ShotResult,
    score: u32,
    bust: bool,
    new_record: bool,
)
    requires
        history_total(history) + score <= u32::MAX,
    ensures
        history_total(recorded(history, shot, score, bust, new_record)) == history_total(history)
            + score,
{
    let h = recorded(history, shot, score, bust, new_record);
    if new_record || history.len() == 0 {
        assert(h.drop_last() =~= history);
    } else {
        assert(h.drop_last() =~= history.drop_last());
    }
}

/// Every player's remaining score plus the points recorded in the player's
/// history is the starting score.
pub open spec fn x01_accounted(x: X01, s: SessionView<u32>) -> bool {
    forall|i: int|
        0 <= i < s.players.len() ==> #[trigger] s.players[i].data + history_total(
            s.players[i].history,
        ) == x.starting_score
}

/// The invariant of an X01 game: the session is well formed; every player's
/// remaining score plus the points in the player's history is the starting
/// score; the winner of a finished game has no points left; with a
/// positive starting score, no player is at zero while the game is played,
/// and with double-out the winner's last dart was a double.
pub open spec fn x01_invariant(x: X01, s: SessionView<u32>) -> bool {
    &&& well_formed(s, 3)
    &&& x01_accounted(x, s)
    &&& s.phase matches GamePhase::Finished(w) ==> s.players[w as int].data == 0
    &&& (x.starting_score > 0 && s.phase is Playing) ==> forall|i: int|
        0 <= i < s.players.len() ==> #[trigger] s.players[i].data > 0
    &&& s.phase matches GamePhase::Finished(w) ==> (x.starting_score > 0 && x.require_double_out
        ==> {
        let h = s.players[w as int].history;
        h.len() > 0 && h.last().darts.len() > 0 && h.last().darts.last().multiplier == 2
    })
}

/// A new X01 game with at least one player satisfies the invariant.
pub proof fn lemma_x01_new_game_invariant(x: X01, names: Seq<Seq<char>>)
    requires
        0 < names.len() <= usize::MAX,
    ensures
        x01_invariant(x, new_session(names, x.starting_score)),
{
    let s = new_session(names, x.starting_score);
    assert forall|i: int| 0 <= i < s.players.len() implies #[trigger] s.players[i].data
        + history_total(s.players[i].history) == x.starting_score by {
        assert(history_total(s.players[i].history) == 0);
    }
}

/// Every shot keeps the X01 invariant.
pub proof fn lemma_x01_shot_keeps_invariant(x: X01, s: SessionView<u32>, shot: ShotResult)
    requires
        x01_invariant(x, s),
    ensures
        x01_invariant(x, after_shot(x, s, shot).0),
{
    lemma_shot_keeps_well_formed(x, s, shot);
    if s.phase is Playing {
        let cp: usize = s.current_player;
        let p = s.players[cp as int];
        let (data, out) = x01_resolved(x.require_double_out, p.data, shot);
        lemma_x01_shot_accounting(x.require_double_out, p.data, shot);
        assert(p.data + history_total(p.history) == x.starting_score);
        lemma_recorded_total(
            p.history,
            shot,
            out.score,
            out.is_bust,
            starts_new_record(p.history, s.current_dart == 0, 3),
        );
        lemma_recorded_ends_with_shot(
            p.history,
            shot,
            out.score,
            out.is_bust,
            starts_new_record(p.history, s.current_dart == 0, 3),
        );
        let post = after_shot(x, s, shot).0;
        let players = post.players;
        assert(players[cp as int].data == data);
        assert forall|i: int| 0 <= i < players.len() implies #[trigger] players[i].data
            + history_total(players[i].history) == x.starting_score by {
            if i != cp {
                assert(players[i] == s.players[i]);
            }
        }
        let datas = player_data(players);
        lemma_first_checked_out(datas);
        if !out.game_over && first_checked_out(datas) == Some(cp) {
            assert(datas[cp as int] == data);
        }
        if x.starting_score > 0 && post.phase is Playing {
            assert forall|i: int| 0 <= i < players.len() implies #[trigger] players[i].data > 0 by {
                if i != cp {
                    assert(players[i] == s.players[i]);
                } else {
                    assert(s.players[cp as int].data > 0);
                }
            }
        }
        if x.starting_score > 0 && post.phase is Finished {
            assert(s.players[cp as int].data > 0);
            if !out.game_over {
                assert(datas[cp as int] == data);
            }
        }
    }
}


/// A shot keeps the X01 accounting of points, and no player's remaining
/// score grows.
pub proof fn lemma_x01_shot_keeps_accounting(x: X01, s: SessionView<u32>, shot: ShotResult)
    requires
        can_apply_shot(s),
        x01_accounted(x, s),
    ensures
        x01_accounted(x, after_shot(x, s, shot).0),
        after_shot(x, s, shot).0.players.len() == s.players.len(),
        forall|i: int|
            0 <= i < s.players.len() ==> #[trigger] after_shot(x, s, shot).0.players[i].data
                <= s.players[i].data,
{
    if s.phase is Playing {
        let cp: usize = s.current_player;
        let p = s.players[cp as int];
        let (data, out) = x01_resolved(x.require_double_out, p.data, shot);
        lemma_x01_shot_accounting(x.require_double_out, p.data, shot);
        assert(p.data + history_total(p.history) == x.starting_score);
        lemma_recorded_total(
            p.history,
            shot,
            out.score,
            out.is_bust,
            starts_new_record(p.history, s.current_dart == 0, 3),
        );
        let players = after_shot(x, s, shot).0.players;
        assert forall|i: int| 0 <= i < players.len() implies #[trigger] players[i].data
            + history_total(players[i].history) == x.starting_score by {
            if i != cp {
                assert(players[i] == s.players[i]);
            }
        }
        assert forall|i: int| 0 <= i < s.players.len() implies #[trigger] players[i].data
            <= s.players[i].data by {
            if i != cp {
                assert(players[i] == s.players[i]);
            }
        }
    }
}

/// Every X01 game played from a new game with at least one player keeps
/// the X01 invariant, in particular the accounting of points.
pub proof fn lemma_x01_played_game_invariant(x: X01, names: Seq<Seq<char>>, shots: Seq<ShotResult>)
    requires
        0 < names.len() <= usize::MAX,
    ensures
        x01_invariant(x, after_shots(x, new_session(names, x.starting_score), shots)),
    decreases shots.len(),
{
    if shots.len() == 0 {
        lemma_x01_new_game_invariant(x, names);
    } else {
        lemma_x01_played_game_invariant(x, names, shots.drop_last());
        lemma_x01_shot_keeps_invariant(
            x,
            after_shots(x, new_session(names, x.starting_score), shots.drop_last()),
            shots.last(),
        );
    }
}

impl X01 {
    /// Creates a new X01 game variant with the specified starting score and
    /// double-out requirement; 301, 501, 701 and 1001 are named after their
    /// starting score, any other one is named "X01".
    pub fn new(starting_score: u32, require_double_out: bool) -> (v: Self)
        ensures
            v.starting_score == starting_score,
            v.require_double_out == require_double_out,
            v.name@ == x01_name(starting_score),
    {
        proof {
            reveal_strlit("301");
            reveal_strlit("501");
            reveal_strlit("701");
            reveal_strlit("1001");
            reveal_strlit("X01");
        }
        Self {
            starting_score,
            require_double_out,
            name: match starting_score {
                301 => "301",
                501 => "501",
                701 => "701",
                1001 => "1001",
                _ => "X01",
            },
        }
    }
}

impl GameVariant for X01 {
    type PlayerData = u32;

    open spec fn initial_data(&self) -> u32 {
        self.starting_score
    }

    open spec fn variant_name(&self) -> Seq<char> {
        self.name@
    }

    open spec fn resolved(&self, data: u32, shot: ShotResult) -> (u32, OutcomeView) {
        x01_resolved(self.require_double_out, data, shot)
    }

    open spec fn winner(&self, players: Seq<u32>) -> Option<usize> {
        first_checked_out(players)
    }

    proof fn lemma_clone_keeps_data(a: u32, b: u32) {
    }

    fn init_player_data(&self) -> u32 {
        self.starting_score
    }

    /// Three darts per turn.
    fn darts_per_turn(&self) -> u32 {
        3
    }

    /// At most four players.
    fn max_players(&self) -> u32 {
        4
    }

    /// Returns the name of the X01 game variant.
    fn name(&self) -> &'static str {
        self.name
    }

    /// Resolves a shot against the remaining score, applying the rules for
    /// busts and, if required, the double-out.
    fn resolve_shot(&self, remaining: &mut u32, shot: ShotResult) -> ShotOutcome {
        let thrown: u32 = shot.points();

        // bust if exceeding remaining score
        if thrown > *remaining {
            return ShotOutcome {
                score: 0,
                is_bust: true,
                turn_over: true,
                game_over: false,
                message: Some(String::from_str("Bust!")),
            };
        }
        // double-out check if required

        if self.require_double_out && thrown == *remaining && shot.multiplier != 2 {
            return ShotOutcome {
                score: 0,
                is_bust: true,
                turn_over: true,
                game_over: false,
                message: Some(String::from_str("Must finish on a double!")),
            };
        }
        *remaining = *remaining - thrown;
        let game_over = *remaining == 0;

        ShotOutcome {
            score: thrown,
            is_bust: false,
            turn_over: game_over,  // a finish ends the turn
            game_over,
            message: if game_over {
                Some(String::from_str("Game shot!"))
            } else {
                None
            },
        }
    }

    /// Returns the index of the first player with no points left, if any.
    fn check_winner(&self, players: &[u32]) -> Option<usize> {
        let mut i: usize = 0;
        while i < players.len()
            invariant
                i <= players@.len(),
                first_checked_out(players@.take(i as int)) is None,
            decreases players@.len() - i,
        {
            assert(players@.take(i + 1).drop_last() =~= players@.take(i as int));
            if players[i] == 0 {
                proof {
                    lemma_checked_out_prefix(players@, i + 1);
                }
                return Some(i);
            }
            i = i + 1;
        }
        assert(players@.take(i as int) =~= players@);
        None
    }
}

/// Once a prefix names a player with no points left, the whole sequence names the same one.
proof fn lemma_checked_out_prefix(players: Seq<u32>, k: int)
    requires
        0 <= k <= players.len(),
        first_checked_out(players.take(k)) is Some,
    ensures
        first_checked_out(players) == first_checked_out(players.take(k)),
    decreases players.len() - k,
{
    if k < players.len() {
        assert(players.take(k + 1).take(k) =~= players.take(k));
        lemma_checked_out_prefix_step(players.take(k + 1), k);
        lemma_checked_out_prefix(players, k + 1);
    } else {
        assert(players.take(k) =~= players);
    }
}

proof fn lemma_checked_out_prefix_step(players: Seq<u32>, k: int)
    requires
        0 <= k,
        k + 1 == players.len(),
        first_checked_out(players.take(k)) is Some,
    ensures
        first_checked_out(players) == first_checked_out(players.take(k)),
{
    assert(players.drop_last() =~= players.take(k));
}

} // verus!
