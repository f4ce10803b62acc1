//! The engine-versus-engine match: its state, the commands of each turn and
//! the rules that end a game, as a state machine that a driver feeds with the
//! engines' replies.
use vstd::prelude::*;
use crate::text::{
    before, decimal, decimal_string, has_prefix, join, join_strings, lemma_views_push,
    prefix_before, split_words, starts_with, str_eq, tokens, trim, trimmed, views,
};
use crate::engine_storage::EngineConfig;
use crate::engine_validator::opt_view;

verus! {

/// The opening position that a match starts from unless another is given.
pub const DEFAULT_SFEN: &'static str = "lnsgkgsnl/1r5b1/ppppppppp/9/9/9/PPPPPPPPP/1B5R1/LNSGKGSNL b - 1";

/// Seconds that a reply may take beyond the time given for a move.
pub const MOVE_GRACE_SECS: u64 = 10;

/// The state of a match, as it is reported after each turn.
#[derive(Debug, Clone)]
pub struct EngineVsEngineState {
    pub move_number: usize,
    pub current_player: String,
    pub position_sfen: String,
    pub last_move: Option<String>,
    pub move_history: Vec<String>,
    pub game_over: bool,
    pub winner: Option<String>,
    pub game_result: Option<String>,
}

/// `EngineVsEngineState` over mathematical values.
pub struct MatchModel {
    pub move_number: nat,
    pub current_player: Seq<char>,
    pub position_sfen: Seq<char>,
    pub last_move: Option<Seq<char>>,
    pub move_history: Seq<Seq<char>>,
    pub game_over: bool,
    pub winner: Option<Seq<char>>,
    pub game_result: Option<Seq<char>>,
}

impl View for EngineVsEngineState {
    type V = MatchModel;

    open spec fn view(&self) -> MatchModel {
        MatchModel {
            move_number: self.move_number as nat,
            current_player: self.current_player@,
            position_sfen: self.position_sfen@,
            last_move: opt_view(self.last_move),
            move_history: views(self.move_history@),
            game_over: self.game_over,
            winner: opt_view(self.winner),
            game_result: opt_view(self.game_result),
        }
    }
}

/// The two engines of a match and its limits.
#[derive(Debug, Clone)]
pub struct EngineVsEngineConfig {
    pub engine1_id: String,
    pub engine1_path: String,
    pub engine1_name: String,
    pub engine2_id: String,
    pub engine2_path: String,
    pub engine2_name: String,
    pub initial_sfen: Option<String>,
    pub time_per_move_ms: u64,
    pub max_moves: usize,
}

/// Milliseconds per move when a match does not say.
pub const DEFAULT_TIME_PER_MOVE_MS: u64 = 5000;

/// Move cap when a match does not say.
pub const DEFAULT_MAX_MOVES: usize = 200;

impl EngineVsEngineConfig {
    /// A match between two configured engines, the first playing black.
    pub fn for_engines(
        engine1: &EngineConfig,
        engine2: &EngineConfig,
        initial_sfen: Option<String>,
        time_per_move_ms: Option<u64>,
        max_moves: Option<usize>,
    ) -> (r: EngineVsEngineConfig)
        ensures
            r.engine1_id@ == engine1.id@,
            r.engine1_path@ == engine1.path@,
            r.engine1_name@ == engine1.name@,
            r.engine2_id@ == engine2.id@,
            r.engine2_path@ == engine2.path@,
            r.engine2_name@ == engine2.name@,
            r.initial_sfen == initial_sfen,
            r.time_per_move_ms == match time_per_move_ms {
                Some(t) => t,
                None => DEFAULT_TIME_PER_MOVE_MS,
            },
            r.max_moves == match max_moves {
                Some(m) => m,
                None => DEFAULT_MAX_MOVES,
            },
    {
        EngineVsEngineConfig {
            engine1_id: engine1.id.clone(),
            engine1_path: engine1.path.clone(),
            engine1_name: engine1.name.clone(),
            engine2_id: engine2.id.clone(),
            engine2_path: engine2.path.clone(),
            engine2_name: engine2.name.clone(),
            initial_sfen,
            time_per_move_ms: match time_per_move_ms {
                Some(t) => t,
                None => DEFAULT_TIME_PER_MOVE_MS,
            },
            max_moves: match max_moves {
                Some(m) => m,
                None => DEFAULT_MAX_MOVES,
            },
        }
    }
}

/// The side that moves after `side`.
pub open spec fn other_side(side: Seq<char>) -> Seq<char> {
    if side == "black"@ { "white"@ } else { "black"@ }
}

/// The position command for a base position and the moves played from it.
pub open spec fn position_line(sfen: Seq<char>, moves: Seq<Seq<char>>) -> Seq<char> {
    if moves.len() == 0 {
        "position sfen "@ + sfen
    } else {
        "position sfen "@ + before(sfen, " moves"@) + " moves "@ + join(moves)
    }
}

/// The move request with the same time budget for both sides.
pub open spec fn go_line(time_ms: nat) -> Seq<char> {
    "go btime "@ + decimal(time_ms) + " wtime "@ + decimal(time_ms)
}

/// The state in which a match starts.
pub open spec fn initial_model(sfen: Seq<char>) -> MatchModel {
    MatchModel {
        move_number: 1,
        current_player: "black"@,
        position_sfen: sfen,
        last_move: None,
        move_history: seq![],
        game_over: false,
        winner: None,
        game_result: None,
    }
}

/// The state after the side to move has played `mv`.
pub open spec fn after_move(m: MatchModel, mv: Seq<char>) -> MatchModel {
    let history = m.move_history.push(mv);
    MatchModel {
        move_number: m.move_number + 1,
        current_player: other_side(m.current_player),
        position_sfen: before(m.position_sfen, " moves"@) + " moves "@ + join(history),
        last_move: Some(mv),
        move_history: history,
        ..m
    }
}

/// The state after the side to move has lost the game for `reason`.
pub open spec fn after_loss(m: MatchModel, reason: Seq<char>) -> MatchModel {
    MatchModel {
        game_over: true,
        winner: Some(other_side(m.current_player)),
        game_result: Some(reason),
        ..m
    }
}

/// The state after the move cap was reached without a decision.
pub open spec fn after_cap(m: MatchModel) -> MatchModel {
    MatchModel {
        game_over: true,
        winner: Some("draw"@),
        game_result: Some("maximum moves reached"@),
        ..m
    }
}

impl EngineVsEngineState {
    /// The state in which a match starts, from `initial_sfen` or the standard
    /// opening position.
    pub fn new(initial_sfen: Option<String>) -> (r: EngineVsEngineState)
        ensures
            r@ == initial_model(
                match initial_sfen {
                    Some(s) => s@,
                    None => DEFAULT_SFEN@,
                },
            ),
            r.wf(),
    {
        let sfen = match initial_sfen {
            Some(s) => s,
            None => String::from_str(DEFAULT_SFEN),
        };
        let r = EngineVsEngineState {
            move_number: 1,
            current_player: String::from_str("black"),
            position_sfen: sfen,
            last_move: None,
            move_history: Vec::new(),
            game_over: false,
            winner: None,
            game_result: None,
        };
        assert(r@.move_history =~= Seq::<Seq<char>>::empty());
        r
    }

    /// The history is one shorter than the number of the move to come, and
    /// the side to move is black or white.
    pub open spec fn wf(&self) -> bool {
        &&& self.move_history@.len() + 1 == self.move_number
        &&& (self.current_player@ == "black"@ || self.current_player@ == "white"@)
    }

    /// Whether black is to move.
    pub fn black_to_move(&self) -> (r: bool)
        ensures
            r == (self.current_player@ == "black"@),
    {
        str_eq(self.current_player.as_str(), "black")
    }

    /// The position command for the current turn.
    pub fn position_command(&self) -> (r: String)
        ensures
            r@ == position_line(self.position_sfen@, views(self.move_history@)),
    {
        let mut r = String::from_str("position sfen ");
        if self.move_history.len() == 0 {
            r.append(self.position_sfen.as_str());
        } else {
            let base = prefix_before(self.position_sfen.as_str(), " moves");
            r.append(base.as_str());
            r.append(" moves ");
            let moves = join_strings(&self.move_history);
            r.append(moves.as_str());
        }
        r
    }
}

/// The move request that gives each side `time_ms` milliseconds.
pub fn go_command(time_ms: u64) -> (r: String)
    ensures
        r@ == go_line(time_ms as nat),
{
    let t = decimal_string(time_ms);
    let mut r = String::from_str("go btime ");
    r.append(t.as_str());
    r.append(" wtime ");
    r.append(t.as_str());
    r
}

/// Seconds to wait for the reply to a move request with `time_ms` milliseconds.
pub fn move_wait_secs(time_ms: u64) -> (r: u64)
    ensures
        r == time_ms / 1000 + MOVE_GRACE_SECS,
{
    time_ms / 1000 + MOVE_GRACE_SECS
}

/// What the driver of a match does next.
pub enum MatchAction {
    /// Send `position` and then `go` to the engine of the side to move (the
    /// first engine plays black) and wait up to `wait_secs` for its move.
    RequestMove { black: bool, position: String, go: String, wait_secs: u64 },
    /// The game is over: quit both engines.
    Finished,
}

/// How a turn ended.
#[derive(Debug, Clone, Copy, PartialEq, Eq)]
pub enum TurnOutcome {
    Moved,
    Resigned,
    Forfeited,
}

/// Runs the turns of a match between two engines.
pub struct MatchController {
    pub config: EngineVsEngineConfig,
    pub state: EngineVsEngineState,
}

/// Name of the engine that plays `side` (the first engine plays black).
pub open spec fn engine_of(config: EngineVsEngineConfig, side: Seq<char>) -> Seq<char> {
    if side == "black"@ { config.engine1_name@ } else { config.engine2_name@ }
}

impl MatchController {
    pub open spec fn wf(&self) -> bool {
        &&& self.state.wf()
        &&& self.config.max_moves < usize::MAX
        &&& self.state.move_number <= self.config.max_moves + 1
    }

    /// A move is to be requested: the game goes on and the cap is not reached.
    pub open spec fn awaiting_move(&self) -> bool {
        !self.state.game_over && self.state.move_number <= self.config.max_moves
    }

    /// A match that has not begun.
    pub fn new(config: EngineVsEngineConfig) -> (r: MatchController)
        requires
            config.max_moves < usize::MAX,
        ensures
            r.wf(),
            r.config == config,
            r.state@ == initial_model(
                match config.initial_sfen {
                    Some(s) => s@,
                    None => DEFAULT_SFEN@,
                },
            ),
    {
        let state = EngineVsEngineState::new(config.initial_sfen.clone());
        MatchController { config, state }
    }

    /// The next step: a move request while a move is awaited; otherwise the
    /// game ends, as a draw when no side has lost and the cap is reached.
    pub fn next_action(&mut self) -> (a: MatchAction)
        requires
            old(self).wf(),
        ensures
            final(self).wf(),
            final(self).config == old(self).config,
            old(self).awaiting_move() ==> final(self).state == old(self).state,
            old(self).awaiting_move() ==> match a {
                MatchAction::RequestMove { black, position, go, wait_secs } => {
                    &&& black == (old(self).state.current_player@ == "black"@)
                    &&& position@ == position_line(
                        old(self).state.position_sfen@,
                        views(old(self).state.move_history@),
                    )
                    &&& go@ == go_line(old(self).config.time_per_move_ms as nat)
                    &&& wait_secs == old(self).config.time_per_move_ms / 1000 + MOVE_GRACE_SECS
                },
                MatchAction::Finished => false,
            },
            !old(self).awaiting_move() ==> a is Finished,
            !old(self).awaiting_move() ==> final(self).state@ == (if old(self).state.game_over {
                old(self).state@
            } else {
                after_cap(old(self).state@)
            }),
    {
        if !self.state.game_over && self.state.move_number <= self.config.max_moves {
            let black = self.state.black_to_move();
            let position = self.state.position_command();
            let go = go_command(self.config.time_per_move_ms);
            let wait_secs = move_wait_secs(self.config.time_per_move_ms);
            MatchAction::RequestMove { black, position, go, wait_secs }
        } else {
            if !self.state.game_over {
                self.state.game_over = true;
                self.state.winner = Some(String::from_str("draw"));
                self.state.game_result = Some(String::from_str("maximum moves reached"));
            }
            MatchAction::Finished
        }
    }

    /// Applies the reply of the side to move: no reply (a timeout, a closed
    /// stream or a read error) forfeits the game, `resign` resigns it, any
    /// other word is played.
    pub fn record_reply(&mut self, reply: Option<String>) -> (o: TurnOutcome)
        requires
            old(self).wf(),
            old(self).awaiting_move(),
        ensures
            final(self).wf(),
            final(self).config == old(self).config,
            match reply {
                None => o == TurnOutcome::Forfeited && final(self).state@ == after_loss(
                    old(self).state@,
                    engine_of(old(self).config, old(self).state.current_player@)
                        + " failed to respond"@,
                ),
                Some(mv) => if mv@ == "resign"@ {
                    o == TurnOutcome::Resigned && final(self).state@ == after_loss(
                        old(self).state@,
                        engine_of(old(self).config, old(self).state.current_player@)
                            + " resigned"@,
                    )
                } else {
                    o == TurnOutcome::Moved && final(self).state@ == after_move(
                        old(self).state@,
                        mv@,
                    )
                },
            },
    {
        let black = self.state.black_to_move();
        let mut name = if black {
            self.config.engine1_name.clone()
        } else {
            self.config.engine2_name.clone()
        };
        let opponent = if black {
            String::from_str("white")
        } else {
            String::from_str("black")
        };
        match reply {
            None => {
                name.append(" failed to respond");
                self.state.game_over = true;
                self.state.winner = Some(opponent);
                self.state.game_result = Some(name);
                TurnOutcome::Forfeited
            },
            Some(mv) => {
                if str_eq(mv.as_str(), "resign") {
                    name.append(" resigned");
                    self.state.game_over = true;
                    self.state.winner = Some(opponent);
                    self.state.game_result = Some(name);
                    TurnOutcome::Resigned
                } else {
                    let base = prefix_before(self.state.position_sfen.as_str(), " moves");
                    let ghost old_history = self.state.move_history@;
                    let played = mv.clone();
                    self.state.move_history.push(mv);
                    proof {
                        lemma_views_push(old_history, played);
                    }
                    let mut position = base;
                    position.append(" moves ");
                    let moves = join_strings(&self.state.move_history);
                    position.append(moves.as_str());
                    self.state.position_sfen = position;
                    self.state.last_move = Some(played);
                    self.state.current_player = opponent;
                    self.state.move_number = self.state.move_number + 1;
                    TurnOutcome::Moved
                }
            },
        }
    }
}

/// The move that a line of engine output reports: the second word of a
/// line that starts (after leading whitespace) with `bestmove `.
pub open spec fn bestmove_of(line: Seq<char>) -> Option<Seq<char>> {
    let t = trim(line);
    if has_prefix(t, "bestmove "@) && tokens(t).len() >= 2 {
        Some(tokens(t)[1])
    } else {
        None
    }
}

/// Executable form of `bestmove_of`.
pub fn parse_bestmove(line: &str) -> (r: Option<String>)
    ensures
        opt_view(r) == bestmove_of(line@),
{
    let t = trimmed(line);
    if !starts_with(t.as_str(), "bestmove ") {
        return None;
    }
    let words = split_words(t.as_str());
    if words.len() < 2 {
        return None;
    }
    assert(views(words@)[1] == words@[1]@);
    Some(words[1].clone())
}

} // verus!
