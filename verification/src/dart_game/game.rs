use vstd::prelude::*;

use crate::text::{decimal, decimal_text};

verus! {

// ─── Shot types ─────────────────────────────────

/// Raw result of a dart throw, independent of the game being played.
///
/// `sector` is 1..=20 or 25 (bull); `multiplier` is 1 (single), 2 (double)
/// or 3 (triple).
#[derive(Debug, Clone, Copy, PartialEq)]
pub struct ShotResult {
    pub sector: u32,
    pub multiplier: u32,
}

/// A shot names a sector of the board (1 to 20, or 25 for the bull) and a
/// multiplier of 1, 2 or 3.
pub open spec fn is_valid_shot(shot: ShotResult) -> bool {
    &&& (1 <= shot.sector <= 20 || shot.sector == 25)
    &&& 1 <= shot.multiplier <= 3
}

/// Points of a shot: sector times multiplier, and 0 for a shot that is not valid.
pub open spec fn shot_points(shot: ShotResult) -> u32 {
    if is_valid_shot(shot) {
        (shot.sector * shot.multiplier) as u32
    } else {
        0
    }
}

impl ShotResult {
    /// Calculates the total points scored by this shot.
    ///
    /// Returns 0 for invalid shots (multiplier outside 1..=3, sector out of range).
    pub fn points(&self) -> (p: u32)
        ensures
            p == shot_points(*self),
            p <= 75,
    {
        if ((1 <= self.sector && self.sector <= 20) || self.sector == 25) && 1 <= self.multiplier
            && self.multiplier <= 3 {
            let (s, m) = (self.sector, self.multiplier);
            assert(s * m <= 75) by (nonlinear_arith)
                requires
                    s <= 25,
                    m <= 3,
            ;
            s * m
        } else {
            0
        }
    }
}

/// A shot on a board sector (1 to 20, or 25 for the bull) with a multiplier
/// of 1, 2 or 3 scores the sector times the multiplier; any other shot scores
/// nothing. A double scores twice and a treble three times the single of the
/// same sector.
pub proof fn lemma_shot_points(sector: u32, multiplier: u32)
    ensures
        ((1 <= sector <= 20 || sector == 25) && 1 <= multiplier <= 3) ==> shot_points(
            ShotResult { sector, multiplier },
        ) == sector * multiplier,
        !((1 <= sector <= 20 || sector == 25) && 1 <= multiplier <= 3) ==> shot_points(
            ShotResult { sector, multiplier },
        ) == 0,
        (1 <= sector <= 20 || sector == 25) ==> shot_points(ShotResult { sector, multiplier: 2 })
            == 2 * shot_points(ShotResult { sector, multiplier: 1 }),
        (1 <= sector <= 20 || sector == 25) ==> shot_points(ShotResult { sector, multiplier: 3 })
            == 3 * shot_points(ShotResult { sector, multiplier: 1 }),
        shot_points(ShotResult { sector, multiplier: 1 }) == if 1 <= sector <= 20 || sector == 25 {
            sector
        } else {
            0
        },
{
}

/// Outcome of applying a shot to the game.
#[derive(Debug, Clone)]
pub struct ShotOutcome {
    /// Points actually scored (0 if bust)
    pub score: u32,
    /// Is this shot a bust?
    pub is_bust: bool,
    /// Is the player's turn over?
    pub turn_over: bool,
    /// Is the game finished?
    pub game_over: bool,
    /// Optional message (e.g. "Bust!", "Must finish on a double!")
    pub message: Option<String>,
}

/// Mathematical value of a [`ShotOutcome`], with the message as a character sequence.
pub struct OutcomeView {
    pub score: u32,
    pub is_bust: bool,
    pub turn_over: bool,
    pub game_over: bool,
    pub message: Option<Seq<char>>,
}

impl View for ShotOutcome {
    type V = OutcomeView;

    open spec fn view(&self) -> OutcomeView {
        OutcomeView {
            score: self.score,
            is_bust: self.is_bust,
            turn_over: self.turn_over,
            game_over: self.game_over,
            message: match self.message {
                Some(m) => Some(m@),
                None => None,
            },
        }
    }
}

/// A player of a game, with the variant's data (e.g. the remaining score in
/// X01) and the record of the turns played.
#[derive(Clone)]
pub struct Player<D> {
    pub name: String,
    pub position: usize,
    pub data: D,
    pub history: Vec<TurnRecord>,
}

/// Record of a player's turn: the darts thrown, the points they scored and
/// whether the turn ended in a bust.
#[derive(Clone)]
pub struct TurnRecord {
    pub darts: Vec<ShotResult>,
    pub score: u32,
    pub bust: bool,
}

/// Mathematical value of a [`TurnRecord`].
pub struct TurnView {
    pub darts: Seq<ShotResult>,
    pub score: u32,
    pub bust: bool,
}

impl View for TurnRecord {
    type V = TurnView;

    open spec fn view(&self) -> TurnView {
        TurnView { darts: self.darts@, score: self.score, bust: self.bust }
    }
}

/// Mathematical value of a [`Player`].
pub struct PlayerView<D> {
    pub name: Seq<char>,
    pub position: usize,
    pub data: D,
    pub history: Seq<TurnView>,
}

impl<D> View for Player<D> {
    type V = PlayerView<D>;

    open spec fn view(&self) -> PlayerView<D> {
        PlayerView {
            name: self.name@,
            position: self.position,
            data: self.data,
            history: self.history@.map_values(|t: TurnRecord| t@),
        }
    }
}

/// Phase of a game: still being played, or finished with the index of the winner.
#[derive(Debug, Clone, Copy, PartialEq, Eq)]
pub enum GamePhase {
    Playing,
    Finished(usize),
}

/// The rules of a specific dart game (X01, Cricket, ...).
///
/// The spec functions describe the variant mathematically; each executable
/// method is bound to its spec function.
pub trait GameVariant: Send + Sized {
    /// Player-specific data type for this variant
    type PlayerData: Clone + Send;

    /// Data each player starts the game with.
    spec fn initial_data(&self) -> Self::PlayerData;

    /// Number of darts in a turn (default: 3).
    open spec fn turn_length(&self) -> u32 {
        3
    }

    /// Largest number of players (default: 4).
    open spec fn player_limit(&self) -> u32 {
        4
    }

    /// Human-readable name.
    spec fn variant_name(&self) -> Seq<char>;

    /// A shot applied to a player's data: the data afterwards and the outcome.
    spec fn resolved(&self, data: Self::PlayerData, shot: ShotResult) -> (
        Self::PlayerData,
        OutcomeView,
    );

    /// The winner, if any, given the data of all players (default: none).
    open spec fn winner(&self, players: Seq<Self::PlayerData>) -> Option<usize> {
        None
    }

    /// Cloning player data gives back the same data.
    proof fn lemma_clone_keeps_data(a: Self::PlayerData, b: Self::PlayerData)
        requires
            vstd::pervasive::cloned(a, b),
        ensures
            a == b,
    ;

    /// Initializes player data at the start of the game.
    fn init_player_data(&self) -> (d: Self::PlayerData)
        ensures
            d == self.initial_data(),
    ;

    /// Number of darts allowed per turn.
    fn darts_per_turn(&self) -> (n: u32)
        ensures
            n == self.turn_length(),
    ;

    /// Maximum number of players allowed.
    fn max_players(&self) -> (n: u32)
        ensures
            n == self.player_limit(),
    ;

    /// Name of the game variant (e.g. "501"), used in UI and summaries.
    fn name(&self) -> (s: &'static str)
        ensures
            s@ == self.variant_name(),
    ;

    /// Resolves a shot against the player's data and returns the outcome.
    fn resolve_shot(&self, player: &mut Self::PlayerData, shot: ShotResult) -> (o: ShotOutcome)
        ensures
            (*final(player), o@) == self.resolved(*old(player), shot),
    ;

    /// Checks if any player has won the game based on their data.
    fn check_winner(&self, players: &[Self::PlayerData]) -> (w: Option<usize>)
        ensures
            w == self.winner(players@),
    ;
}

/// State of an ongoing game: players, whose turn it is, how many darts of
/// the turn were thrown, and the phase.
pub struct GameSession<V: GameVariant> {
    /// The game variant being played
    pub variant: V,
    /// Players with their data and history
    pub players: Vec<Player<V::PlayerData>>,
    /// Index of the current player in `players`
    pub current_player: usize,
    /// Darts already thrown in the current turn
    pub current_dart: u32,
    /// Current phase of the game
    pub phase: GamePhase,
}

/// Mathematical value of a [`GameSession`] (all but the variant).
pub struct SessionView<D> {
    pub players: Seq<PlayerView<D>>,
    pub current_player: usize,
    pub current_dart: u32,
    pub phase: GamePhase,
}

impl<V: GameVariant> View for GameSession<V> {
    type V = SessionView<V::PlayerData>;

    open spec fn view(&self) -> SessionView<V::PlayerData> {
        SessionView {
            players: self.players@.map_values(|p: Player<V::PlayerData>| p@),
            current_player: self.current_player,
            current_dart: self.current_dart,
            phase: self.phase,
        }
    }
}

/// The player data of every player, in order.
pub open spec fn player_data<D>(players: Seq<PlayerView<D>>) -> Seq<D> {
    players.map_values(|p: PlayerView<D>| p.data)
}

/// A dart starts a new turn record when it is the first dart of a turn,
/// when the player has no record yet, or when the last record is complete:
/// it holds `turn_length` darts or ended in a bust.
pub open spec fn starts_new_record(
    history: Seq<TurnView>,
    first_dart: bool,
    turn_length: u32,
) -> bool {
    ||| first_dart
    ||| history.len() == 0
    ||| history.last().darts.len() >= turn_length
    ||| history.last().bust
}

/// The history after a dart: a new turn record holding only the dart when
/// `new_record` holds (or there is no record yet); otherwise the dart is
/// added to the last record, whose score grows (saturating) by the points
/// and whose bust flag is the outcome's.
pub open spec fn recorded(
    history: Seq<TurnView>,
    shot: ShotResult,
    score: u32,
    bust: bool,
    new_record: bool,
) -> Seq<TurnView> {
    if new_record || history.len() == 0 {
        history.push(TurnView { darts: seq![shot], score, bust })
    } else {
        let last = history.last();
        history.drop_last().push(
            TurnView {
                darts: last.darts.push(shot),
                score: if last.score + score > u32::MAX {
                    u32::MAX
                } else {
                    (last.score + score) as u32
                },
                bust,
            },
        )
    }
}

/// The message of a shot thrown after the end of the game.
pub open spec fn game_over_message() -> Seq<char> {
    "Game is already over"@
}

/// The session and the outcome after `shot` is thrown in `s` under the rules of `variant`.
///
/// After the end of the game nothing changes. Otherwise the current player's
/// data is resolved and the dart recorded in the history (a new turn record
/// for the first dart of a turn or after a complete record, the last record
/// otherwise); the game ends
/// with the current player as winner when the variant says so for the shot or
/// names the current player as winner; otherwise, when the variant ends the
/// turn or the turn's darts are used up, the next player (cyclically) starts
/// a new turn.
pub open spec fn after_shot<V: GameVariant>(
    variant: V,
    s: SessionView<V::PlayerData>,
    shot: ShotResult,
) -> (SessionView<V::PlayerData>, OutcomeView) {
    match s.phase {
        GamePhase::Finished(_) => (
            s,
            OutcomeView {
                score: 0,
                is_bust: false,
                turn_over: false,
                game_over: true,
                message: Some(game_over_message()),
            },
        ),
        GamePhase::Playing => {
            let cp: usize = s.current_player;
            let p = s.players[cp as int];
            let (data, out) = variant.resolved(p.data, shot);
            let n: u32 = variant.turn_length();
            let dart = (s.current_dart + 1) as u32;
            let player = PlayerView {
                name: p.name,
                position: p.position,
                data,
                history: recorded(
                    p.history,
                    shot,
                    out.score,
                    out.is_bust,
                    starts_new_record(p.history, s.current_dart == 0, n),
                ),
            };
            let players = s.players.update(cp as int, player);
            let finished = out.game_over || variant.winner(player_data(players)) == Some(cp);
            let turn_ends = out.turn_over || dart >= n;
            if finished {
                (
                    SessionView {
                        players,
                        current_player: cp,
                        current_dart: dart,
                        phase: GamePhase::Finished(cp),
                    },
                    OutcomeView {
                        score: out.score,
                        is_bust: out.is_bust,
                        turn_over: true,
                        game_over: true,
                        message: out.message,
                    },
                )
            } else if turn_ends {
                (
                    SessionView {
                        players,
                        current_player: ((cp + 1) % (players.len() as int)) as usize,
                        current_dart: 0,
                        phase: GamePhase::Playing,
                    },
                    OutcomeView {
                        score: out.score,
                        is_bust: out.is_bust,
                        turn_over: true,
                        game_over: out.game_over,
                        message: out.message,
                    },
                )
            } else {
                (
                    SessionView {
                        players,
                        current_player: cp,
                        current_dart: dart,
                        phase: GamePhase::Playing,
                    },
                    OutcomeView {
                        score: out.score,
                        is_bust: out.is_bust,
                        turn_over: false,
                        game_over: out.game_over,
                        message: out.message,
                    },
                )
            }
        },
    }
}

/// A shot can be applied: after the end of the game always, during the
/// game when the current player exists and the dart count can be incremented.
pub open spec fn can_apply_shot<D>(s: SessionView<D>) -> bool {
    s.phase is Playing ==> s.current_player < s.players.len() && s.current_dart < u32::MAX
}

/// The readable summary of whose turn it is.
pub open spec fn summary_text(
    name: Seq<char>,
    dart: nat,
    darts_per_turn: nat,
    variant_name: Seq<char>,
) -> Seq<char> {
    name + "'s turn — dart "@ + decimal_text(dart) + "/"@ + decimal_text(darts_per_turn) + " ("@
        + variant_name + ")"@
}


/// A session is well formed for a variant whose turns have `turn_length` darts:
/// there is at least one player, each at the position of its index; the
/// current player exists; during play fewer than `turn_length` darts of the
/// turn were thrown, and once the turn has begun the current player's last
/// turn record holds at most the darts thrown in it; a finished game was won by the player who threw last;
/// and every turn record holds between 1 and `turn_length` darts.
pub open spec fn well_formed<D>(s: SessionView<D>, turn_length: u32) -> bool {
    &&& 0 < s.players.len() <= usize::MAX
    &&& s.current_player < s.players.len()
    &&& s.phase is Playing ==> s.current_dart < turn_length
    &&& s.phase matches GamePhase::Finished(w) ==> w == s.current_player
    &&& (s.phase is Playing && s.current_dart > 0) ==> {
        let h = s.players[s.current_player as int].history;
        h.len() > 0 && h.last().darts.len() <= s.current_dart
    }
    &&& forall|i: int| 0 <= i < s.players.len() ==> #[trigger] s.players[i].position == i
    &&& forall|i: int, k: int|
        0 <= i < s.players.len() && 0 <= k < s.players[i].history.len() ==> 1
            <= #[trigger] s.players[i].history[k].darts.len() <= turn_length
}

/// The session that `GameSession::new` builds for `names`.
pub open spec fn new_session<D>(names: Seq<Seq<char>>, initial: D) -> SessionView<D> {
    SessionView {
        players: Seq::new(
            names.len(),
            |i: int|
                PlayerView {
                    name: names[i],
                    position: i as usize,
                    data: initial,
                    history: Seq::<TurnView>::empty(),
                },
        ),
        current_player: 0,
        current_dart: 0,
        phase: GamePhase::Playing,
    }
}

/// A new session has the given players in order, each at the position of
/// its index, with the given starting data and no turn played; the first
/// player is to throw the first dart of a turn.
pub proof fn lemma_new_session_shape<D>(names: Seq<Seq<char>>, initial: D)
    requires
        names.len() <= usize::MAX,
    ensures
        new_session(names, initial).players.len() == names.len(),
        forall|i: int|
            0 <= i < names.len() ==> {
                let p = #[trigger] new_session(names, initial).players[i];
                &&& p.name == names[i]
                &&& p.position == i
                &&& p.data == initial
                &&& p.history.len() == 0
            },
        new_session(names, initial).current_player == 0,
        new_session(names, initial).current_dart == 0,
        new_session(names, initial).phase == GamePhase::Playing,
{
}

/// A new game with at least one player is well formed.
pub proof fn lemma_new_session_well_formed<D>(names: Seq<Seq<char>>, initial: D, turn_length: u32)
    requires
        0 < names.len() <= usize::MAX,
        turn_length >= 1,
    ensures
        well_formed(new_session(names, initial), turn_length),
{
}

/// Once a game is finished, a shot changes nothing and is answered with a
/// game-over outcome that scores nothing.
pub proof fn lemma_finished_game_is_frozen<V: GameVariant>(
    variant: V,
    s: SessionView<V::PlayerData>,
    shot: ShotResult,
)
    requires
        s.phase is Finished,
    ensures
        after_shot(variant, s, shot).0 == s,
        after_shot(variant, s, shot).1.game_over,
        after_shot(variant, s, shot).1.score == 0,
        !after_shot(variant, s, shot).1.is_bust,
        !after_shot(variant, s, shot).1.turn_over,
        after_shot(variant, s, shot).1.message == Some("Game is already over"@),
{
}

/// The last turn record after a dart ends with that dart, and the earlier
/// records are kept.
pub proof fn lemma_recorded_ends_with_shot(
    history: Seq<TurnView>,
    shot: ShotResult,
    score: u32,
    bust: bool,
    new_record: bool,
)
    ensures
        recorded(history, shot, score, bust, new_record).len() > 0,
        recorded(history, shot, score, bust, new_record).last().darts.len() > 0,
        recorded(history, shot, score, bust, new_record).last().darts.last() == shot,
        recorded(history, shot, score, bust, new_record).last().bust == bust,
        (new_record || history.len() == 0) ==> recorded(history, shot, score, bust, new_record).len()
            == history.len() + 1 && recorded(history, shot, score, bust, new_record).last().darts.len()
            == 1,
        !(new_record || history.len() == 0) ==> recorded(history, shot, score, bust, new_record).len()
            == history.len() && recorded(history, shot, score, bust, new_record).last().darts.len()
            == history.last().darts.len() + 1,
        (new_record || history.len() == 0) ==> recorded(history, shot, score, bust, new_record).last()
            == (TurnView { darts: seq![shot], score, bust }),
        !(new_record || history.len() == 0) ==> {
            let last = recorded(history, shot, score, bust, new_record).last();
            &&& last.darts == history.last().darts.push(shot)
            &&& last.score == if history.last().score + score <= u32::MAX {
                history.last().score + score
            } else {
                u32::MAX as int
            }
        },
        forall|k: int|
            0 <= k < recorded(history, shot, score, bust, new_record).len() - 1 ==> #[trigger] recorded(
                history,
                shot,
                score,
                bust,
                new_record,
            )[k] == history[k],
{
}

/// A shot keeps a well-formed session well formed, when turns have at least one dart.
pub proof fn lemma_shot_keeps_well_formed<V: GameVariant>(
    variant: V,
    s: SessionView<V::PlayerData>,
    shot: ShotResult,
)
    requires
        well_formed(s, variant.turn_length()),
        variant.turn_length() >= 1,
    ensures
        can_apply_shot(s),
        well_formed(after_shot(variant, s, shot).0, variant.turn_length()),
{
    if s.phase is Playing {
        let n: u32 = variant.turn_length();
        let cp: usize = s.current_player;
        let p = s.players[cp as int];
        let (data, out) = variant.resolved(p.data, shot);
        let new_record = starts_new_record(p.history, s.current_dart == 0, n);
        let h = recorded(p.history, shot, out.score, out.is_bust, new_record);
        lemma_recorded_ends_with_shot(p.history, shot, out.score, out.is_bust, new_record);
        assert forall|k: int| 0 <= k < h.len() implies 1 <= #[trigger] h[k].darts.len() <= n by {
            if k < h.len() - 1 {
                assert(h[k] == p.history[k]);
            } else if new_record || p.history.len() == 0 {
            } else {
                assert(p.history.last() == p.history[p.history.len() - 1]);
            }
        }
        let post = after_shot(variant, s, shot).0;
        assert forall|i: int, k: int|
            0 <= i < post.players.len() && 0 <= k < post.players[i].history.len() implies 1
                <= #[trigger] post.players[i].history[k].darts.len() <= n by {
            if i == cp {
                assert(post.players[i].history == h);
            }
        }
        assert forall|i: int| 0 <= i < post.players.len() implies #[trigger] post.players[i].position
            == i by {
            if i == cp {
            }
        }
    }
}


/// During play a shot either keeps the current player, who has then thrown
/// one more dart of the turn, or ends the turn and passes it to the next
/// player in order, (current player + 1) modulo the number of players,
/// starting a new turn; it passes the turn whenever the turn's darts are used
/// up and the game goes on. A game that ends is won by the player who threw.
/// The players stay the same in number.
pub proof fn lemma_turn_passes_in_order<V: GameVariant>(
    variant: V,
    s: SessionView<V::PlayerData>,
    shot: ShotResult,
)
    requires
        s.phase is Playing,
        s.current_player < s.players.len() <= usize::MAX,
        s.current_dart < u32::MAX,
    ensures
        ({
            let (t, out) = after_shot(variant, s, shot);
            &&& t.players.len() == s.players.len()
            &&& t.phase is Playing ==> {
                ||| out.turn_over && t.current_dart == 0 && t.current_player == (s.current_player
                    + 1) % (s.players.len() as int)
                ||| !out.turn_over && t.current_dart == s.current_dart + 1 && t.current_player
                    == s.current_player
            }
            &&& (t.phase is Playing && s.current_dart + 1 >= variant.turn_length()) ==> (
            t.current_player == (s.current_player + 1) % (s.players.len() as int)
                && t.current_dart == 0)
            &&& t.phase matches GamePhase::Finished(w) ==> w == s.current_player && out.game_over
            &&& forall|i: int|
                0 <= i < s.players.len() && i != s.current_player ==> #[trigger] t.players[i]
                    == s.players[i]
            &&& t.players[s.current_player as int].data == variant.resolved(
                s.players[s.current_player as int].data,
                shot,
            ).0
            &&& t.players[s.current_player as int].name == s.players[s.current_player as int].name
            &&& out.score == variant.resolved(s.players[s.current_player as int].data, shot).1.score
            &&& out.is_bust == variant.resolved(
                s.players[s.current_player as int].data,
                shot,
            ).1.is_bust
        }),
{
    let cp = s.current_player;
    let p = s.players[cp as int];
    let (data, out) = variant.resolved(p.data, shot);
    let n = variant.turn_length();
    let player = PlayerView {
        name: p.name,
        position: p.position,
        data,
        history: recorded(
            p.history,
            shot,
            out.score,
            out.is_bust,
            starts_new_record(p.history, s.current_dart == 0, n),
        ),
    };
    let players = s.players.update(cp as int, player);
    assert(players.len() == s.players.len());
    let next = (cp + 1) % (players.len() as int);
    assert(0 <= next < players.len());
}

/// The session after the shots `shots` are thrown in turn from `s`.
pub open spec fn after_shots<V: GameVariant>(
    variant: V,
    s: SessionView<V::PlayerData>,
    shots: Seq<ShotResult>,
) -> SessionView<V::PlayerData>
    decreases shots.len(),
{
    if shots.len() == 0 {
        s
    } else {
        after_shot(variant, after_shots(variant, s, shots.drop_last()), shots.last()).0
    }
}

/// Every game played from a new session with at least one player, whose
/// turns have at least one dart, is well formed, so each shot of it can be
/// applied.
pub proof fn lemma_played_game_well_formed<V: GameVariant>(
    variant: V,
    names: Seq<Seq<char>>,
    shots: Seq<ShotResult>,
)
    requires
        0 < names.len() <= usize::MAX,
        variant.turn_length() >= 1,
    ensures
        well_formed(
            after_shots(variant, new_session(names, variant.initial_data()), shots),
            variant.turn_length(),
        ),
    decreases shots.len(),
{
    if shots.len() == 0 {
        lemma_new_session_well_formed(names, variant.initial_data(), variant.turn_length());
    } else {
        lemma_played_game_well_formed(variant, names, shots.drop_last());
        lemma_shot_keeps_well_formed(
            variant,
            after_shots(variant, new_session(names, variant.initial_data()), shots.drop_last()),
            shots.last(),
        );
    }
}

/// While a game played from a new session is going on, the current turn is
/// never over: the last dart of a turn passes it to the next player.
pub proof fn lemma_turn_not_over_in_play<V: GameVariant>(
    variant: V,
    names: Seq<Seq<char>>,
    shots: Seq<ShotResult>,
)
    requires
        0 < names.len() <= usize::MAX,
        variant.turn_length() >= 1,
    ensures
        ({
            let s = after_shots(variant, new_session(names, variant.initial_data()), shots);
            s.phase is Playing ==> s.current_dart < variant.turn_length()
        }),
{
    lemma_played_game_well_formed(variant, names, shots);
}

impl<V: GameVariant> GameSession<V> {
    /// Creates a new game session with the specified variant and player names.
    ///
    /// Each player starts with the variant's initial data and an empty
    /// history; the first player starts with the first dart of a turn.
    pub fn new(variant: V, names: Vec<String>) -> (s: Self)
        ensures
            s.variant == variant,
            s@ == new_session(names@.map_values(|n: String| n@), variant.initial_data()),
    {
        let mut players: Vec<Player<V::PlayerData>> = Vec::new();
        let ghost all_names = names@;
        for name in it: names
            invariant
                it.seq() == all_names,
                players@.len() == it.index(),
                forall|j: int|
                    0 <= j < it.index() ==> #[trigger] players@[j]@ == (PlayerView {
                        name: all_names[j]@,
                        position: j as usize,
                        data: variant.initial_data(),
                        history: Seq::<TurnView>::empty(),
                    }),
        {
            let ghost before = players@;
            let position: usize = players.len();
            let data = variant.init_player_data();
            let history: Vec<TurnRecord> = Vec::new();
            players.push(Player { name, position, data, history });
            proof {
                assert(players@[position as int].history@.map_values(|t: TurnRecord| t@)
                    =~= Seq::<TurnView>::empty());
                assert forall|j: int| 0 <= j < players@.len() - 1 implies players@[j] == before[j] by {}
            }
        }
        assert(players@.map_values(|p: Player<V::PlayerData>| p@) =~= new_session(
            all_names.map_values(|n: String| n@),
            variant.initial_data(),
        ).players);
        let s = GameSession {
            variant,
            players,
            current_player: 0,
            current_dart: 0,
            phase: GamePhase::Playing,
        };
        s
    }

    /// Applies a shot for the current player and updates the game state accordingly.
    ///
    /// Returns the outcome: the points scored by this shot, whether it was a
    /// bust, whether the turn is over and whether the game is finished.
    pub fn apply_shot(&mut self, shot: ShotResult) -> (o: ShotOutcome)
        requires
            can_apply_shot(old(self)@),
        ensures
            final(self).variant == old(self).variant,
            (final(self)@, o@) == after_shot(old(self).variant, old(self)@, shot),
    {
        if !matches!(self.phase, GamePhase::Playing) {
            return ShotOutcome {
                score: 0,
                is_bust: false,
                turn_over: false,
                game_over: true,
                message: Some(String::from_str("Game is already over")),
            };
        }
        let ghost pre = self@;
        let n: u32 = self.variant.darts_per_turn();
        let cp: usize = self.current_player;

        let ghost p0 = pre.players[cp as int];
        let player = &mut self.players[cp];
        let outcome = self.variant.resolve_shot(&mut player.data, shot);
        let ghost resolved = self.variant.resolved(p0.data, shot);

        // Increment dart count and determine if the turn ends
        let first_dart = self.current_dart == 0;
        self.current_dart = self.current_dart + 1;
        let turn_max_reached = self.current_dart >= n;
        let turn_ends = outcome.turn_over || turn_max_reached;

        // Log in history: start a new turn record on the first dart of a turn
        // or when the previous record is complete
        let hl: usize = player.history.len();
        let new_record = if first_dart || hl == 0 {
            true
        } else {
            player.history[hl - 1].darts.len() >= n as usize || player.history[hl - 1].bust
        };
        if new_record {
            let mut darts: Vec<ShotResult> = Vec::new();
            darts.push(shot);
            player.history.push(TurnRecord { darts, score: outcome.score, bust: outcome.is_bust });
        } else {
            let mut last = player.history.pop().unwrap();
            last.darts.push(shot);
            last.score = last.score.saturating_add(outcome.score);
            last.bust = outcome.is_bust;
            player.history.push(last);
        }
        assert(player.history@.map_values(|t: TurnRecord| t@) =~= recorded(
            p0.history,
            shot,
            outcome.score,
            outcome.is_bust,
            starts_new_record(p0.history, first_dart, n),
        ));

        let ghost post_players = pre.players.update(
            cp as int,
            PlayerView {
                name: p0.name,
                position: p0.position,
                data: resolved.0,
                history: recorded(
                    p0.history,
                    shot,
                    outcome.score,
                    outcome.is_bust,
                    starts_new_record(p0.history, first_dart, n),
                ),
            },
        );
        assert(self@.players =~= post_players);
        // Check for game over
        let finished = if outcome.game_over {
            true
        } else {
            let datas = self.collect_player_data();
            match self.variant.check_winner(datas.as_slice()) {
                Some(w) => w == cp,
                None => false,
            }
        };
        if finished {
            self.phase = GamePhase::Finished(cp);
            return ShotOutcome {
                score: outcome.score,
                is_bust: outcome.is_bust,
                turn_over: true,
                game_over: true,
                message: outcome.message,
            };
        }

        // Advance to next player if the turn is over
        if turn_ends {
            assert(self.current_player < self.players.len());
            self.advance_to_next_player();
        }
        ShotOutcome {
            score: outcome.score,
            is_bust: outcome.is_bust,
            turn_over: turn_ends,
            game_over: outcome.game_over,
            message: outcome.message,
        }
    }

    /// Clones the data of every player, in order.
    fn collect_player_data(&self) -> (datas: Vec<V::PlayerData>)
        ensures
            datas@ == player_data(self@.players),
    {
        let mut datas: Vec<V::PlayerData> = Vec::new();
        let mut i: usize = 0;
        while i < self.players.len()
            invariant
                i <= self.players@.len(),
                datas@ =~= player_data(self@.players).take(i as int),
            decreases self.players@.len() - i,
        {
            let d = self.players[i].data.clone();
            proof {
                V::lemma_clone_keeps_data(self.players@[i as int].data, d);
            }
            datas.push(d);
            i = i + 1;
        }
        assert(player_data(self@.players).take(i as int) =~= player_data(self@.players));
        datas
    }

    /// Advances the game to the next player's turn, resetting the dart count.
    fn advance_to_next_player(&mut self)
        requires
            old(self).players.len() > 0,
            old(self).current_player < usize::MAX,
        ensures
            final(self).current_player == (old(self).current_player + 1) % (old(
                self,
            ).players.len() as int),
            final(self).current_dart == 0,
            final(self).players == old(self).players,
            final(self).variant == old(self).variant,
            final(self).phase == old(self).phase,
    {
        let next: usize = (self.current_player + 1) % self.players.len();
        self.current_player = next;
        self.current_dart = 0;
    }

    /// Checks if the current player's turn is over based on the number of darts thrown.
    ///
    /// Returns true if the current player has thrown the maximum number of darts for the turn.
    pub fn is_turn_over(&self) -> (b: bool)
        ensures
            b == (self.current_dart >= self.variant.turn_length()),
    {
        self.current_dart >= self.variant.darts_per_turn()
    }

    /// Readable summary of the current state, e.g. "Alice's turn — dart 2/3 (501)".
    pub fn summary(&self) -> (s: String)
        requires
            self.current_player < self.players.len(),
            self.current_dart < u32::MAX,
        ensures
            s@ == summary_text(
                self@.players[self.current_player as int].name,
                (self.current_dart + 1) as nat,
                self.variant.turn_length() as nat,
                self.variant.variant_name(),
            ),
    {
        let p = &self.players[self.current_player];
        let mut s = p.name.clone();
        s.append("'s turn — dart ");
        let dart = decimal((self.current_dart + 1) as u64);
        s.append(dart.as_str());
        s.append("/");
        let total = decimal(self.variant.darts_per_turn() as u64);
        s.append(total.as_str());
        s.append(" (");
        s.append(self.variant.name());
        s.append(")");
        s
    }
}

} // verus!
