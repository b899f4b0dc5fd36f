//! The game engine: game state, configuration, and the event-driven update of one round of play.

use vstd::prelude::*;
use std::collections::VecDeque;
use crate::events::{EventMap, InternalEvent, scheduled_before};
use crate::generation::{TetrominoGenerator, TetrominoSampler};
use crate::modes::{GameMode, GameTime, LEVEL_20G, NANOS_PER_MILLI};
use crate::pieces::{
    ActivePiece, Board, HEIGHT, Line, SKYLINE, Tetromino, WIDTH, fits_at_spec, piece_fits,
    shape_minos, tetromino_index, tile_type_of,
};
use crate::rotation::RotationSystem;

verus! {

/// A mapping for which buttons are pressed, indexed by [`button_index`].
pub type ButtonsPressed = [bool; 8];

/// Represents an abstract game input.
#[derive(Clone, Copy, PartialEq, Eq, Structural, Debug, Hash, PartialOrd, Ord)]
pub enum Button {
    /// Movement to the left.
    MoveLeft,
    /// Movement to the right.
    MoveRight,
    /// Rotation by 90° counter-clockwise.
    RotateLeft,
    /// Rotation by 90° clockwise.
    RotateRight,
    /// Rotation by 180°.
    RotateAround,
    /// "Soft" dropping: drops a piece down by one, then falls at sped-up rate while held.
    DropSoft,
    /// "Hard" dropping: drops a piece straight down and locks it (almost) immediately.
    DropHard,
    /// "Sonic" dropping: drops a piece straight down without locking it.
    DropSonic,
}

/// The slot of a button in [`ButtonsPressed`].
pub open spec fn button_slot(b: Button) -> int {
    match b {
        Button::MoveLeft => 0,
        Button::MoveRight => 1,
        Button::RotateLeft => 2,
        Button::RotateRight => 3,
        Button::RotateAround => 4,
        Button::DropSoft => 5,
        Button::DropHard => 6,
        Button::DropSonic => 7,
    }
}

/// The slot of a button in [`ButtonsPressed`].
pub fn button_index(b: Button) -> (r: usize)
    ensures
        r == button_slot(b),
        r < 8,
{
    match b {
        Button::MoveLeft => 0,
        Button::MoveRight => 1,
        Button::RotateLeft => 2,
        Button::RotateRight => 3,
        Button::RotateAround => 4,
        Button::DropSoft => 5,
        Button::DropHard => 6,
        Button::DropSonic => 7,
    }
}

/// Locking details stored about the active piece in play.
#[derive(Clone, Copy, PartialEq, Eq, Structural, Debug, Hash, PartialOrd, Ord)]
pub struct LockingData {
    /// Whether the piece currently touches a surface below.
    pub touches_ground: bool,
    /// The last time the piece touched ground after not having done so before.
    pub last_touchdown: Option<GameTime>,
    /// The last time the piece was afloat after not having been before.
    pub last_liftoff: Option<GameTime>,
    /// The total time the piece may still touch ground until it should immediately lock down.
    pub ground_time_left: GameTime,
    /// The lowest recorded vertical position of the piece.
    pub lowest_y: usize,
}

/// Represents how a game can end.
#[derive(Clone, Copy, PartialEq, Eq, Structural, Debug, Hash, PartialOrd, Ord)]
pub enum GameOver {
    /// The most recent piece was locked down completely at or above the skyline.
    LockOut,
    /// A new piece could not spawn because tiles block one or several of its cells.
    BlockOut,
    /// A (negative) game limit was reached.
    ModeLimit,
    /// The player forfeited.
    Forfeit,
}

/// An error that can be returned by [`Game::update`].
#[derive(Clone, Copy, PartialEq, Eq, Structural, Debug, Hash)]
pub enum GameUpdateError {
    /// The requested update time lies in the game's past.
    DurationPassed,
    /// The game has already ended.
    GameEnded,
    /// The update handled as many events as one update may (`u64::MAX`) before it reached
    /// the update time; the game stands where that last event left it.
    EventLimit,
}

/// Feedback events returned by the game, usable to render visual feedback to the player.
#[derive(Clone, PartialEq, Eq, Debug, Hash, PartialOrd, Ord)]
pub enum Feedback {
    /// A piece was locked down in a certain configuration.
    PieceLocked(ActivePiece),
    /// Lines (given by their rows) were cleared; the game waits the given line clear delay.
    LineClears(Vec<usize>, GameTime),
    /// A piece was quickly dropped from its original position to a new one.
    HardDrop(ActivePiece, ActivePiece),
    /// Lines were cleared, with the stats that determined the score bonus.
    Accolade {
        /// The final computed score bonus caused by the action.
        score_bonus: u32,
        /// The shape that was locked.
        shape: Tetromino,
        /// Whether the piece was spun into place.
        spin: bool,
        /// How many lines were cleared by the piece simultaneously.
        lineclears: u32,
        /// Whether the entire board was cleared empty by this action.
        perfect_clear: bool,
        /// The number of consecutive pieces played that caused a line clear.
        combo: u32,
        /// The number of consecutive line clears where a spin, quadruple or perfect clear occurred.
        back_to_back: u32,
    },
    /// Generic text feedback message.
    Message(String),
}

/// The points of a game's update at which its modifiers are applied.
#[derive(Clone, Copy, PartialEq, Eq, Debug, Hash)]
pub enum ModifierPoint {
    /// Immediately before an event is handled.
    BeforeEvent(InternalEvent),
    /// Immediately after an event has been handled.
    AfterEvent(InternalEvent),
    /// Immediately before new user input is handled: the buttons pressed before, and the new
    /// input.
    BeforeButtonChange(ButtonsPressed, ButtonsPressed),
    /// Immediately after new user input has been handled.
    AfterButtonChange,
}

/// Feedback events, each with the game time it occurred at.
pub type FeedbackEvents = Vec<(GameTime, Feedback)>;

/// User-focused configuration options that mainly influence time-sensitive mechanics.
#[derive(Clone, Debug)]
pub struct GameConfig {
    /// The method of tetromino rotation used.
    pub rotation_system: RotationSystem,
    /// The method (and internal state) of tetromino generation used.
    pub tetromino_generator: TetrominoGenerator,
    /// How many pieces should be pre-generated and visible in the game state.
    pub preview_count: usize,
    /// How long until the piece starts shifting automatically after a 'move' button was pressed.
    pub delayed_auto_shift: GameTime,
    /// How long it takes for automatic side movement to repeat once it has started.
    pub auto_repeat_rate: GameTime,
    /// How much faster than normal a piece falls while 'soft drop' is held, in millionths.
    pub soft_drop_factor: u64,
    /// How long a piece waits before attempting to lock down after a hard drop landed it.
    pub hard_drop_delay: GameTime,
    /// How long each spawned piece may touch the ground in total until it locks down.
    pub ground_time_max: GameTime,
    /// How long the game waits after clearing a line.
    pub line_clear_delay: GameTime,
    /// How long the game waits *additionally* before spawning a new piece.
    pub appearance_delay: GameTime,
    /// Whether a 'soft drop' press on the ground should *not* lock the piece immediately.
    pub no_soft_drop_lock: bool,
}

/// The default values of everything in a configuration but its rotation system and generator:
/// a preview of one piece, DAS 200ms, ARR 50ms, soft drop factor 15, hard drop delay 0.1ms,
/// ground time 2250ms, line clear delay 200ms, appearance delay 100ms, soft drop locks.
pub open spec fn default_timings(c: GameConfig) -> bool {
    &&& c.preview_count == 1
    &&& c.delayed_auto_shift == 200 * NANOS_PER_MILLI
    &&& c.auto_repeat_rate == 50 * NANOS_PER_MILLI
    &&& c.soft_drop_factor == 15_000_000
    &&& c.hard_drop_delay == 100_000
    &&& c.ground_time_max == 2250 * NANOS_PER_MILLI
    &&& c.line_clear_delay == 200 * NANOS_PER_MILLI
    &&& c.appearance_delay == 100 * NANOS_PER_MILLI
    &&& !c.no_soft_drop_lock
}

impl Default for GameConfig {
    /// The default configuration: Ocular rotation, recency-based generation, a preview of one
    /// piece, DAS 200ms, ARR 50ms, soft drop factor 15, hard drop delay 0.1ms, ground time 2250ms,
    /// line clear delay 200ms and appearance delay 100ms.
    fn default() -> (r: Self)
        ensures
            r.rotation_system == RotationSystem::Ocular,
            r.tetromino_generator matches TetrominoGenerator::Recency { last_generated }
                && last_generated@.to_multiset() == seq![0u32, 1, 2, 3, 4, 5, 6].to_multiset(),
            r.tetromino_generator.wf(),
            default_timings(r),
    {
        GameConfig {
            rotation_system: RotationSystem::Ocular,
            tetromino_generator: TetrominoGenerator::recency(),
            preview_count: 1,
            delayed_auto_shift: 200 * NANOS_PER_MILLI,
            auto_repeat_rate: 50 * NANOS_PER_MILLI,
            soft_drop_factor: 15_000_000,
            hard_drop_delay: 100_000,
            ground_time_max: 2250 * NANOS_PER_MILLI,
            line_clear_delay: 200 * NANOS_PER_MILLI,
            appearance_delay: 100 * NANOS_PER_MILLI,
            no_soft_drop_lock: false,
        }
    }
}

/// Internal game state that changes over the course of play.
#[derive(Clone, Debug)]
pub struct GameState {
    /// Current in-game time.
    pub time: GameTime,
    /// Whether the game has ended, and how.
    pub end: Option<Result<(), GameOver>>,
    /// Upcoming game events.
    pub events: EventMap,
    /// The current state of buttons being pressed in the game.
    pub buttons_pressed: ButtonsPressed,
    /// The playing grid: empty (`None`) and filled, fixed tiles (`Some(id)`).
    pub board: Board,
    /// The current piece in play, with its locking details.
    pub active_piece_data: Option<(ActivePiece, LockingData)>,
    /// Upcoming pieces to be played.
    pub next_pieces: VecDeque<Tetromino>,
    /// Tallies of how many pieces of each type (by conventional index) have been locked.
    pub pieces_played: [u32; 7],
    /// The total number of lines that have been cleared.
    pub lines_cleared: usize,
    /// The current (speed) level the game is at (never zero).
    pub level: u32,
    /// The current total score the player has achieved in this round of play.
    pub score: u32,
    /// The number of consecutive pieces that have been played and caused a line clear.
    pub consecutive_line_clears: u32,
    /// The number of consecutive line clears that were a quadruple, spin or perfect clear.
    pub back_to_back_special_clears: u32,
}

/// The natural drop delay of a level, in nanoseconds.
pub open spec fn drop_delay_base(level: u32) -> GameTime {
    if level == 1 { 1_000_000_000 }
    else if level == 2 { 793_000_000 }
    else if level == 3 { 617_796_000 }
    else if level == 4 { 472_729_139 }
    else if level == 5 { 355_196_928 }
    else if level == 6 { 262_003_550 }
    else if level == 7 { 189_677_245 }
    else if level == 8 { 134_734_731 }
    else if level == 9 { 93_882_249 }
    else if level == 10 { 64_151_585 }
    else if level == 11 { 42_976_258 }
    else if level == 12 { 28_217_678 }
    else if level == 13 { 18_153_329 }
    else if level == 14 { 11_439_342 }
    else if level == 15 { 7_058_616 }
    else if level == 16 { 4_263_557 }
    else if level == 17 { 2_520_084 }
    else if level == 18 { 1_457_139 }
    else if level == 19 { 833_333 }
    else { 0 }
}

/// The least soft drop factor used, in millionths (0.00001).
pub const MIN_SOFT_DROP_FACTOR: u64 = 10;

/// The drop delay of a level, divided by the soft drop factor (in millionths, at least
/// [`MIN_SOFT_DROP_FACTOR`]) while soft drop is held.
pub open spec fn drop_delay_spec(level: u32, soft_drop: Option<u64>) -> GameTime {
    match soft_drop {
        None => drop_delay_base(level),
        Some(f) => {
            let f2 = if f < MIN_SOFT_DROP_FACTOR { MIN_SOFT_DROP_FACTOR } else { f };
            (drop_delay_base(level) * 1_000_000 / (f2 as int)) as GameTime
        },
    }
}

/// The lock delay of a level, in milliseconds.
pub open spec fn lock_delay_millis(level: u32) -> u64 {
    if level <= 19 { 500 }
    else if level == 20 { 450 }
    else if level == 21 { 400 }
    else if level == 22 { 350 }
    else if level == 23 { 300 }
    else if level == 24 { 250 }
    else if level == 25 { 200 }
    else if level == 26 { 195 }
    else if level == 27 { 184 }
    else if level == 28 { 167 }
    else if level == 29 { 151 }
    else { 150 }
}

/// The lock delay of a level, in nanoseconds.
pub open spec fn lock_delay_spec(level: u32) -> GameTime {
    (lock_delay_millis(level) * NANOS_PER_MILLI) as GameTime
}

/// A time plus a delay, staying at `u64::MAX` nanoseconds once reached.
pub open spec fn later(t: GameTime, d: GameTime) -> GameTime {
    if t + d <= u64::MAX { (t + d) as GameTime } else { u64::MAX }
}

/// A time plus a delay, staying at `u64::MAX` nanoseconds once reached.
pub fn later_exec(t: GameTime, d: GameTime) -> (r: GameTime)
    ensures
        r == later(t, d),
{
    t.saturating_add(d)
}

/// The natural drop delay of a level, divided by the soft drop factor while soft drop is held.
pub fn drop_delay(level: u32, soft_drop: Option<u64>) -> (r: GameTime)
    ensures
        r == drop_delay_spec(level, soft_drop),
{
    let base: u64 = match level {
        1 => 1_000_000_000,
        2 => 793_000_000,
        3 => 617_796_000,
        4 => 472_729_139,
        5 => 355_196_928,
        6 => 262_003_550,
        7 => 189_677_245,
        8 => 134_734_731,
        9 => 93_882_249,
        10 => 64_151_585,
        11 => 42_976_258,
        12 => 28_217_678,
        13 => 18_153_329,
        14 => 11_439_342,
        15 => 7_058_616,
        16 => 4_263_557,
        17 => 2_520_084,
        18 => 1_457_139,
        19 => 833_333,
        _ => 0,
    };
    match soft_drop {
        None => base,
        Some(f) => {
            let f2 = if f < MIN_SOFT_DROP_FACTOR { MIN_SOFT_DROP_FACTOR } else { f };
            assert(base <= 1_000_000_000);
            assert(base * 1_000_000 <= 1_000_000_000_000_000) by (nonlinear_arith)
                requires
                    base <= 1_000_000_000,
            ;
            base * 1_000_000 / f2
        },
    }
}

/// The lock delay of a level: how long a piece on the ground waits before attempting to lock.
pub fn lock_delay(level: u32) -> (r: GameTime)
    ensures
        r == lock_delay_spec(level),
{
    let ms: u64 = if level <= 19 {
        500
    } else {
        match level {
            20 => 450,
            21 => 400,
            22 => 350,
            23 => 300,
            24 => 250,
            25 => 200,
            26 => 195,
            27 => 184,
            28 => 167,
            29 => 151,
            _ => 150,
        }
    };
    ms * NANOS_PER_MILLI
}

/// The initial state of a newly spawned piece of the given shape.
pub fn position_tetromino(shape: Tetromino) -> (r: ActivePiece)
    ensures
        r == crate::rotation::initial_piece(shape),
{
    let position = match shape {
        Tetromino::O => (4, 20),
        _ => (3, 20),
    };
    ActivePiece { shape, orientation: crate::pieces::Orientation::N, position }
}

/// A line with no tiles.
pub open spec fn empty_line() -> Line {
    [None, None, None, None, None, None, None, None, None, None]
}

/// Whether every cell of the line holds a tile.
pub open spec fn line_full(l: Line) -> bool {
    forall|x: int| 0 <= x < 10 ==> (#[trigger] l@[x]) is Some
}

/// Whether no cell of the line holds a tile.
pub open spec fn line_empty(l: Line) -> bool {
    forall|x: int| 0 <= x < 10 ==> (#[trigger] l@[x]) is None
}

/// Whether the line holds tiles in all cells.
pub fn is_line_full(l: &Line) -> (r: bool)
    ensures
        r == line_full(*l),
{
    let mut x: usize = 0;
    while x < 10
        invariant
            x <= 10,
            forall|j: int| 0 <= j < x ==> (#[trigger] l@[j]) is Some,
        decreases 10 - x,
    {
        if l[x].is_none() {
            return false;
        }
        x += 1;
    }
    true
}

/// Whether the line holds no tiles.
pub fn is_line_empty(l: &Line) -> (r: bool)
    ensures
        r == line_empty(*l),
{
    let mut x: usize = 0;
    while x < 10
        invariant
            x <= 10,
            forall|j: int| 0 <= j < x ==> (#[trigger] l@[j]) is None,
        decreases 10 - x,
    {
        if l[x].is_some() {
            return false;
        }
        x += 1;
    }
    true
}


/// A modifier of a game's rules, applied at every modifier point of an update.
pub enum GameModifier {
    /// The puzzle mode.
    Puzzle(crate::puzzle::PuzzleMode),
}

impl GameModifier {
    /// The modifier's own state is consistent.
    pub open spec fn wf(&self) -> bool {
        match self {
            GameModifier::Puzzle(p) => p.wf(),
        }
    }

    /// Applies the modifier at a point of a game's update. The game's state stays
    /// consistent and keeps its time; the pending events, and whether a piece is in play,
    /// change only right after an event.
    pub fn modify(
        &mut self,
        config: &mut GameConfig,
        state: &mut GameState,
        feedback_events: &mut FeedbackEvents,
        point: &ModifierPoint,
    )
        requires
            old(self).wf(),
            state_wf(*old(config), *old(state)),
            pieces_total(old(state).pieces_played@) <= u32::MAX,
        ensures
            final(self).wf(),
            state_wf(*final(config), *final(state)),
            final(state).time == old(state).time,
            !(*point is AfterEvent) ==> final(state).events@ == old(state).events@
                && (final(state).active_piece_data is None <==> old(state).active_piece_data is None),
            !(*point is BeforeEvent) ==> final(state).end == old(state).end,
            pending_ok(*old(state)) ==> pending_ok(*final(state)),
            final(state).buttons_pressed == old(state).buttons_pressed,
            forall|lo: GameTime|
                lo <= old(state).time && #[trigger] chronological(old(feedback_events)@, lo, old(state).time)
                    ==> chronological(final(feedback_events)@, lo, old(state).time),
            match (*old(self), *final(self)) {
                (GameModifier::Puzzle(p0), GameModifier::Puzzle(p1)) => crate::puzzle::puzzle_modified(
                    p0,
                    p1,
                    *old(config),
                    *final(config),
                    *old(state),
                    *final(state),
                    *old(feedback_events),
                    *final(feedback_events),
                    *point,
                ),
            },
    {
        match self {
            GameModifier::Puzzle(p) => {
                let ghost p0 = *p;
                let ghost c0 = *config;
                let ghost s0 = *state;
                let ghost fb0 = *feedback_events;
                p.modify(config, state, feedback_events, point);
                proof {
                    crate::puzzle::lemma_puzzle_keeps_wf(p0, *p, c0, *config, s0, *state, fb0, *feedback_events, *point);
                }
            },
        }
    }
}

/// What one modifier does at a point: while at most `u32::MAX` pieces have been played, it
/// is applied as its `modify` states (from modifier, configuration, state and feedback `m0`,
/// `c0`, `s0`, `fb0` to `m1`, `c1`, `s1`, `fb1`); otherwise it is skipped.
pub open spec fn modifier_step(
    m0: GameModifier,
    m1: GameModifier,
    c0: GameConfig,
    c1: GameConfig,
    s0: GameState,
    s1: GameState,
    fb0: FeedbackEvents,
    fb1: FeedbackEvents,
    point: ModifierPoint,
) -> bool {
    if pieces_total(s0.pieces_played@) <= u32::MAX {
        match (m0, m1) {
            (GameModifier::Puzzle(p0), GameModifier::Puzzle(p1)) => crate::puzzle::puzzle_modified(
                p0,
                p1,
                c0,
                c1,
                s0,
                s1,
                fb0,
                fb1,
                point,
            ),
        }
    } else {
        m1 == m0 && c1 == c0 && s1 == s0 && fb1 == fb0
    }
}

/// Whether the configurations `cs`, states `ss` and feedback `fbs` are what applying the
/// modifiers `ms0` in order passes through, each by [`modifier_step`], the modifiers becoming
/// `ms1`: the `i`-th modifier takes entry `i` of each to entry `i + 1`.
pub open spec fn modifier_trace(
    ms0: Seq<GameModifier>,
    ms1: Seq<GameModifier>,
    cs: Seq<GameConfig>,
    ss: Seq<GameState>,
    fbs: Seq<FeedbackEvents>,
    point: ModifierPoint,
) -> bool {
    &&& ms1.len() == ms0.len()
    &&& cs.len() == ms0.len() + 1
    &&& ss.len() == ms0.len() + 1
    &&& fbs.len() == ms0.len() + 1
    &&& forall|i: int|
        0 <= i < ms0.len() ==> #[trigger] modifier_step(
            ms0[i],
            ms1[i],
            cs[i],
            cs[i + 1],
            ss[i],
            ss[i + 1],
            fbs[i],
            fbs[i + 1],
            point,
        )
}

/// Whether applying the modifiers `ms0` at `point` took the configuration, state and feedback
/// `c0`, `s0`, `fb0` to `c1`, `s1`, `fb1`, the modifiers becoming `ms1`: some
/// [`modifier_trace`] leads from the ones to the others.
pub open spec fn modifiers_applied(
    ms0: Seq<GameModifier>,
    ms1: Seq<GameModifier>,
    c0: GameConfig,
    c1: GameConfig,
    s0: GameState,
    s1: GameState,
    fb0: FeedbackEvents,
    fb1: FeedbackEvents,
    point: ModifierPoint,
) -> bool {
    exists|cs: Seq<GameConfig>, ss: Seq<GameState>, fbs: Seq<FeedbackEvents>| {
        &&& #[trigger] modifier_trace(ms0, ms1, cs, ss, fbs, point)
        &&& cs[0] == c0 && cs.last() == c1
        &&& ss[0] == s0 && ss.last() == s1
        &&& fbs[0] == fb0 && fbs.last() == fb1
    }
}

/// The parts of a game that an update changes, at one moment of the update: the modifiers,
/// the configuration, the state, and the feedback collected so far.
pub struct GameSnapshot {
    /// The game's modifiers.
    pub modifiers: Seq<GameModifier>,
    /// The game's configuration.
    pub config: GameConfig,
    /// The game's state.
    pub state: GameState,
    /// The feedback collected so far in the update.
    pub feedback: FeedbackEvents,
}

/// One step of an update, with the snapshots it passes through.
pub enum UpdateStep {
    /// The first pending event is due: the modifiers are applied before it (`before`), it is
    /// taken off the schedule (`removed`), handled at its time (`handled`), and the modifiers
    /// are applied after it (`after`); then the limits of the mode are checked.
    Event {
        /// The event handled.
        event: InternalEvent,
        /// The time it was scheduled for.
        time: GameTime,
        /// After the modifiers applied before it.
        before: GameSnapshot,
        /// The state with the event taken off the schedule.
        removed: GameState,
        /// After it was handled.
        handled: GameSnapshot,
        /// After the modifiers applied after it.
        after: GameSnapshot,
    },
    /// No event is due any more and the new buttons are applied at the update time: with a
    /// piece in play, between the modifiers applied before (`before`) and after (`after`) the
    /// change, the moves, turns and drops they call for are scheduled (`input`).
    Buttons {
        /// The new buttons.
        buttons: ButtonsPressed,
        /// After the modifiers applied before the change.
        before: GameSnapshot,
        /// After the moves, turns and drops were scheduled.
        input: GameSnapshot,
        /// After the modifiers applied after the change.
        after: GameSnapshot,
    },
}

/// Whether `e`, scheduled at `t`, is the first of the pending events (earliest time, then
/// event order).
pub open spec fn is_first_event(ev: Map<InternalEvent, GameTime>, e: InternalEvent, t: GameTime) -> bool {
    &&& ev.contains_key(e)
    &&& ev[e] == t
    &&& forall|k: InternalEvent| #[trigger] ev.contains_key(k) && k != e ==> scheduled_before(e, t, k, ev[k])
}

/// Whether no pending event is due at `update_time`.
pub open spec fn none_due(ev: Map<InternalEvent, GameTime>, update_time: GameTime) -> bool {
    forall|k: InternalEvent| #[trigger] ev.contains_key(k) ==> ev[k] > update_time
}

/// The state once the limits of the mode were checked: a game that had not ended ends if a
/// limit is reached.
pub open spec fn end_checked(mode: GameMode, s: GameState) -> GameState {
    GameState {
        end: match s.end {
            Some(e) => Some(e),
            None => limit_outcome(mode, s),
        },
        ..s
    }
}

/// Whether `step` takes a running game from `g0` to `g1` during an update at `update_time`
/// with the new buttons `new_buttons`.
#[verifier::opaque]
pub open spec fn update_step_ok(
    mode: GameMode,
    update_time: GameTime,
    new_buttons: Option<ButtonsPressed>,
    g0: GameSnapshot,
    step: UpdateStep,
    g1: GameSnapshot,
) -> bool {
    &&& g0.state.end is None
    &&& match step {
        UpdateStep::Event { event, time, before, removed, handled, after } => {
            let n = before.feedback@.len() as int;
            &&& is_first_event(g0.state.events@, event, time)
            &&& time <= update_time
            &&& modifiers_applied(
                g0.modifiers,
                before.modifiers,
                g0.config,
                before.config,
                g0.state,
                before.state,
                g0.feedback,
                before.feedback,
                ModifierPoint::BeforeEvent(event),
            )
            &&& removed == (GameState { events: removed.events, ..before.state })
            &&& removed.events@ == before.state.events@.remove(event)
            &&& handled.modifiers == before.modifiers
            &&& handled.state.time == time
            &&& handled.feedback@.len() >= n
            &&& handled.feedback@.take(n) == before.feedback@
            &&& event_handled(
                mode,
                before.config,
                removed,
                event,
                time,
                handled.config,
                GameState { time: removed.time, ..handled.state },
                handled.feedback@.skip(n),
            )
            &&& modifiers_applied(
                handled.modifiers,
                after.modifiers,
                handled.config,
                after.config,
                handled.state,
                after.state,
                handled.feedback,
                after.feedback,
                ModifierPoint::AfterEvent(event),
            )
            &&& g1 == (GameSnapshot { state: end_checked(mode, after.state), ..after })
        },
        UpdateStep::Buttons { buttons, before, input, after } => {
            let timed = GameState { time: update_time, ..g0.state };
            &&& new_buttons == Some(buttons)
            &&& none_due(g0.state.events@, update_time)
            &&& if g0.state.active_piece_data is Some {
                &&& modifiers_applied(
                    g0.modifiers,
                    before.modifiers,
                    g0.config,
                    before.config,
                    timed,
                    before.state,
                    g0.feedback,
                    before.feedback,
                    ModifierPoint::BeforeButtonChange(g0.state.buttons_pressed, buttons),
                )
                &&& input == (GameSnapshot { state: input.state, ..before })
                &&& input.state == (GameState { events: input.state.events, ..before.state })
                &&& input.state.events@ == input_events(
                    before.state.events@,
                    before.state.buttons_pressed,
                    buttons,
                    update_time,
                    before.state.level,
                )
                &&& modifiers_applied(
                    input.modifiers,
                    after.modifiers,
                    input.config,
                    after.config,
                    input.state,
                    after.state,
                    input.feedback,
                    after.feedback,
                    ModifierPoint::AfterButtonChange,
                )
            } else {
                after == (GameSnapshot { state: timed, ..g0 })
            }
            &&& g1 == (GameSnapshot { state: GameState { buttons_pressed: buttons, ..after.state }, ..after })
        },
    }
}

/// Whether the steps, passing through the snapshots `starts` (one more than the steps), are
/// an update at `update_time` with the new buttons `new_buttons` of a game of mode `mode`
/// that starts from the modifiers `ms0`, configuration `c0` and state `s0` with no feedback:
/// each step takes its start to the next one by [`update_step_ok`], and the buttons are
/// applied at most once.
pub open spec fn update_run(
    mode: GameMode,
    new_buttons: Option<ButtonsPressed>,
    update_time: GameTime,
    ms0: Seq<GameModifier>,
    c0: GameConfig,
    s0: GameState,
    starts: Seq<GameSnapshot>,
    steps: Seq<UpdateStep>,
) -> bool {
    &&& starts.len() == steps.len() + 1
    &&& starts[0].modifiers == ms0
    &&& starts[0].config == c0
    &&& starts[0].state == s0
    &&& starts[0].feedback@.len() == 0
    &&& forall|k: int| 0 <= k < steps.len() ==> #[trigger] update_step_ok(
        mode,
        update_time,
        new_buttons,
        starts[k],
        steps[k],
        starts[k + 1],
    )
    &&& forall|j: int, k: int| 0 <= j < k < steps.len() ==> !(#[trigger] steps[j] is Buttons && #[trigger] steps[k] is Buttons)
}

/// Whether an update that went through the steps ended as it must, with the modifiers `ms1`,
/// configuration `c1`, state `s1` and result `r`: after `u64::MAX` steps with `EventLimit`;
/// else with `Ok` and the feedback collected, either once the game ended at an event, or once
/// no event was due any more and the new buttons (if any) were applied, at the update time,
/// with the limits of the mode checked.
pub open spec fn update_finished(
    mode: GameMode,
    new_buttons: Option<ButtonsPressed>,
    update_time: GameTime,
    starts: Seq<GameSnapshot>,
    steps: Seq<UpdateStep>,
    ms1: Seq<GameModifier>,
    c1: GameConfig,
    s1: GameState,
    r: Result<FeedbackEvents, GameUpdateError>,
) -> bool {
    let last = starts.last();
    &&& ms1 == last.modifiers
    &&& c1 == last.config
    &&& match r {
        Err(GameUpdateError::EventLimit) => steps.len() == u64::MAX && s1 == last.state,
        Ok(fb) => {
            &&& fb == last.feedback
            &&& if last.state.end is Some {
                s1 == last.state
            } else {
                &&& none_due(last.state.events@, update_time)
                &&& (new_buttons is Some ==> exists|k: int| 0 <= k < steps.len() && #[trigger] steps[k] is Buttons)
                &&& s1 == end_checked(mode, GameState { time: update_time, ..last.state })
            }
        },
        _ => false,
    }
}

/// A run extended by a step that starts where it stands is a run, as long as the buttons are
/// applied at most once.
pub proof fn lemma_run_push(
    mode: GameMode,
    new_buttons: Option<ButtonsPressed>,
    update_time: GameTime,
    ms0: Seq<GameModifier>,
    c0: GameConfig,
    s0: GameState,
    starts: Seq<GameSnapshot>,
    steps: Seq<UpdateStep>,
    step: UpdateStep,
    g1: GameSnapshot,
)
    requires
        update_run(mode, new_buttons, update_time, ms0, c0, s0, starts, steps),
        update_step_ok(mode, update_time, new_buttons, starts.last(), step, g1),
        step is Buttons ==> forall|k: int| 0 <= k < steps.len() ==> !(#[trigger] steps[k] is Buttons),
    ensures
        update_run(mode, new_buttons, update_time, ms0, c0, s0, starts.push(g1), steps.push(step)),
{
    let st = starts.push(g1);
    let sp = steps.push(step);
    assert forall|k: int| 0 <= k < sp.len() implies #[trigger] update_step_ok(
        mode,
        update_time,
        new_buttons,
        st[k],
        sp[k],
        st[k + 1],
    ) by {
        if k < steps.len() {
            assert(st[k] == starts[k] && sp[k] == steps[k] && st[k + 1] == starts[k + 1]);
        } else {
            assert(st[k] == starts.last() && sp[k] == step && st[k + 1] == g1);
        }
    }
    assert forall|j: int, k: int| 0 <= j < k < sp.len() implies !(#[trigger] sp[j] is Buttons && #[trigger] sp[k] is Buttons) by {
        if k < steps.len() {
            assert(sp[j] == steps[j] && sp[k] == steps[k]);
        } else {
            assert(sp[j] == steps[j]);
        }
    }
}

/// Main game struct representing one round of play.
pub struct Game<S: TetrominoSampler> {
    /// The configuration of the round.
    pub config: GameConfig,
    /// The game mode of the round.
    pub mode: GameMode,
    /// The changing state of the round.
    pub state: GameState,
    /// The source of random draws for piece generation.
    pub sampler: S,
    /// The modifiers applied at every modifier point of an update, in order.
    pub modifiers: Vec<GameModifier>,
}

/// Whether a pending event is allowed (rotations turn at most three times either way).
pub open spec fn event_ok(e: InternalEvent) -> bool {
    e matches InternalEvent::Rotate(k) ==> -3 <= k <= 3
}

/// The internal consistency of a game's configuration and state: the schedule, the board
/// and the level are well formed; pending events lie ahead; a piece in play fits; and while
/// the round runs without a piece in play, only a line clear or a spawn is pending.
pub open spec fn state_wf(config: GameConfig, s: GameState) -> bool {
    &&& s.events.wf()
    &&& s.board@.len() == HEIGHT
    &&& s.level >= 1
    &&& config.tetromino_generator.wf()
    &&& forall|e: InternalEvent| #[trigger] s.events@.contains_key(e) ==> event_ok(e) && s.time <= s.events@[e]
    &&& match s.active_piece_data {
        Some((p, ld)) => {
            &&& piece_fits(s.board@, p)
            &&& (ld.touches_ground ==> ld.last_touchdown is Some)
            &&& (!ld.touches_ground ==> ld.last_liftoff is Some)
        },
        None => s.end is None ==> {
            &&& forall|e: InternalEvent| #[trigger] s.events@.contains_key(e)
                ==> e == InternalEvent::LineClear || e == InternalEvent::Spawn
            &&& !(s.events@.contains_key(InternalEvent::LineClear) && s.events@.contains_key(InternalEvent::Spawn))
        },
    }
    &&& (s.active_piece_data is Some ==> !s.events@.contains_key(InternalEvent::LineClear))
}

/// Whether something is still pending while the round runs: with a piece in play, its lock,
/// or (on the ground) its lock timer, or (afloat) its fall; without one, a line clear or a
/// spawn. The piece's locking details also record truthfully whether it lies on the ground.
pub open spec fn pending_spec(
    piece: Option<(ActivePiece, LockingData)>,
    board: Seq<Line>,
    end: Option<Result<(), GameOver>>,
    ev: Map<InternalEvent, GameTime>,
) -> bool {
    end is Some || match piece {
        Some((p, ld)) => {
            &&& ld.touches_ground == on_ground(board, p)
            &&& (ev.contains_key(InternalEvent::Lock) || if ld.touches_ground {
                ev.contains_key(InternalEvent::LockTimer)
            } else {
                ev.contains_key(InternalEvent::Fall)
            })
        },
        None => ev.contains_key(InternalEvent::LineClear) || ev.contains_key(InternalEvent::Spawn),
    }
}

/// [`pending_spec`] of a game state.
pub open spec fn pending_ok(s: GameState) -> bool {
    pending_spec(s.active_piece_data, s.board@, s.end, s.events@)
}

/// Whether a limit `(win, bound)` is reached, and how the game ends if so.
pub open spec fn limit_hit<T>(limit: Option<(bool, T)>, reached: spec_fn(T) -> bool) -> Option<bool> {
    match limit {
        Some((win, bound)) => if reached(bound) { Some(win) } else { None },
        None => None,
    }
}

/// The total number of pieces locked.
pub open spec fn pieces_total(p: Seq<u32>) -> int {
    p[0] + p[1] + p[2] + p[3] + p[4] + p[5] + p[6]
}

/// The first limit of the mode (in the order time, pieces, lines, level, score) that the state
/// has reached, as a game end: completion for a positive limit, `ModeLimit` for a negative one.
pub open spec fn limit_outcome(mode: GameMode, s: GameState) -> Option<Result<(), GameOver>> {
    let hits = seq![
        limit_hit(mode.limits.time, |d: GameTime| d <= s.time),
        limit_hit(mode.limits.pieces, |n: u32| n <= pieces_total(s.pieces_played@)),
        limit_hit(mode.limits.lines, |n: usize| n <= s.lines_cleared),
        limit_hit(mode.limits.level, |l: u32| l < s.level),
        limit_hit(mode.limits.score, |n: u32| n <= s.score),
    ];
    let first = if hits[0] is Some { hits[0] }
        else if hits[1] is Some { hits[1] }
        else if hits[2] is Some { hits[2] }
        else if hits[3] is Some { hits[3] }
        else { hits[4] };
    match first {
        Some(win) => Some(if win { Ok(()) } else { Err(GameOver::ModeLimit) }),
        None => None,
    }
}

/// The sideways move events scheduled when the buttons change from `b0` to `b1` at time `t`.
pub open spec fn move_events(ev: Map<InternalEvent, GameTime>, b0: ButtonsPressed, b1: ButtonsPressed, t: GameTime) -> Map<InternalEvent, GameTime> {
    let (ml0, mr0, ml1, mr1) = (b0@[0], b0@[1], b1@[0], b1@[1]);
    if (!ml0 && !mr0) && (ml1 != mr1) {
        ev.insert(InternalEvent::MoveSlow, t)
    } else if (ml0 && (!ml1 && mr1)) || (mr0 && (ml1 && !mr1)) {
        ev.insert(InternalEvent::MoveFast, t)
    } else if (ml0 != mr0) && (ml1 == mr1) {
        ev.remove(InternalEvent::MoveFast)
    } else {
        ev
    }
}

/// The net number of right turns requested by newly pressed rotation buttons.
pub open spec fn pressed_turns(b0: ButtonsPressed, b1: ButtonsPressed) -> int {
    (if !b0@[3] && b1@[3] { 1int } else { 0 }) + (if !b0@[4] && b1@[4] { 2int } else { 0 }) - (if !b0@[2] && b1@[2] { 1int } else { 0 })
}

/// The rotation event scheduled when the buttons change from `b0` to `b1` at time `t`.
pub open spec fn rotate_events(ev: Map<InternalEvent, GameTime>, b0: ButtonsPressed, b1: ButtonsPressed, t: GameTime) -> Map<InternalEvent, GameTime> {
    let turns = pressed_turns(b0, b1);
    if turns != 0 { ev.insert(InternalEvent::Rotate(turns as i32), t) } else { ev }
}

/// The drop events scheduled when the buttons change from `b0` to `b1` at time `t`.
pub open spec fn drop_events(ev: Map<InternalEvent, GameTime>, b0: ButtonsPressed, b1: ButtonsPressed, t: GameTime, level: u32) -> Map<InternalEvent, GameTime> {
    let (ds0, dh0, dc0, ds1, dh1, dc1) = (b0@[5], b0@[6], b0@[7], b1@[5], b1@[6], b1@[7]);
    let m3 = if !ds0 && ds1 {
        ev.insert(InternalEvent::SoftDrop, t)
    } else if ds0 && !ds1 {
        ev.insert(InternalEvent::Fall, later(t, drop_delay_spec(level, None)))
    } else {
        ev
    };
    let m4 = if !dc0 && dc1 { m3.insert(InternalEvent::SonicDrop, t) } else { m3 };
    if !dh0 && dh1 { m4.insert(InternalEvent::HardDrop, t) } else { m4 }
}

/// The move, rotation and drop events scheduled when the buttons change from `b0` to `b1`
/// at time `t`.
pub open spec fn input_events(
    ev: Map<InternalEvent, GameTime>,
    b0: ButtonsPressed,
    b1: ButtonsPressed,
    t: GameTime,
    level: u32,
) -> Map<InternalEvent, GameTime> {
    drop_events(rotate_events(move_events(ev, b0, b1, t), b0, b1, t), b0, b1, t, level)
}

fn schedule_moves(events: &mut EventMap, b0: &ButtonsPressed, b1: &ButtonsPressed, t: GameTime)
    requires
        old(events).wf(),
    ensures
        final(events).wf(),
        final(events)@ == move_events(old(events)@, *b0, *b1, t),
{
    let (ml0, mr0, ml1, mr1) = (b0[0], b0[1], b1[0], b1[1]);
    if (!ml0 && !mr0) && (ml1 != mr1) {
        events.insert(InternalEvent::MoveSlow, t);
    } else if (ml0 && (!ml1 && mr1)) || (mr0 && (ml1 && !mr1)) {
        events.insert(InternalEvent::MoveFast, t);
    } else if (ml0 != mr0) && (ml1 == mr1) {
        events.remove(InternalEvent::MoveFast);
    }
}

fn schedule_rotation(events: &mut EventMap, b0: &ButtonsPressed, b1: &ButtonsPressed, t: GameTime)
    requires
        old(events).wf(),
    ensures
        final(events).wf(),
        final(events)@ == rotate_events(old(events)@, *b0, *b1, t),
{
    let mut turns: i32 = 0;
    if !b0[3] && b1[3] {
        turns += 1;
    }
    if !b0[4] && b1[4] {
        turns += 2;
    }
    if !b0[2] && b1[2] {
        turns -= 1;
    }
    assert(turns == pressed_turns(*b0, *b1));
    if turns != 0 {
        events.insert(InternalEvent::Rotate(turns), t);
    }
}

fn schedule_drops(events: &mut EventMap, b0: &ButtonsPressed, b1: &ButtonsPressed, t: GameTime, level: u32)
    requires
        old(events).wf(),
    ensures
        final(events).wf(),
        final(events)@ == drop_events(old(events)@, *b0, *b1, t, level),
{
    let (ds0, dh0, dc0, ds1, dh1, dc1) = (b0[5], b0[6], b0[7], b1[5], b1[6], b1[7]);
    if !ds0 && ds1 {
        events.insert(InternalEvent::SoftDrop, t);
    } else if ds0 && !ds1 {
        let ft = later_exec(t, drop_delay(level, None));
        events.insert(InternalEvent::Fall, ft);
    }
    if !dc0 && dc1 {
        events.insert(InternalEvent::SonicDrop, t);
    }
    if !dh0 && dh1 {
        events.insert(InternalEvent::HardDrop, t);
    }
}

/// A time minus another, staying at zero instead of going below.
pub open spec fn since(t: GameTime, u: GameTime) -> GameTime {
    if t >= u { (t - u) as GameTime } else { 0 }
}

/// The locking details of a piece that touches the ground after an event at time `t`.
pub open spec fn grounded_locking_data(
    prev: Option<(ActivePiece, LockingData)>,
    next: ActivePiece,
    t: GameTime,
    ground_time_max: GameTime,
    level: u32,
) -> LockingData {
    match prev {
        Some((_, pl)) if next.position.1 >= pl.lowest_y => if pl.touches_ground {
            pl
        } else {
            let lo = pl.last_liftoff.unwrap();
            match pl.last_touchdown {
                Some(td) => if since(t, lo) <= 2 * drop_delay_spec(level, None) {
                    LockingData {
                        touches_ground: true,
                        last_touchdown: pl.last_touchdown,
                        last_liftoff: None,
                        ground_time_left: pl.ground_time_left,
                        lowest_y: pl.lowest_y,
                    }
                } else {
                    LockingData {
                        touches_ground: true,
                        last_touchdown: Some(t),
                        last_liftoff: None,
                        ground_time_left: since(pl.ground_time_left, since(lo, td)),
                        lowest_y: pl.lowest_y,
                    }
                },
                None => LockingData { touches_ground: true, last_touchdown: Some(t), ..pl },
            }
        },
        _ => LockingData {
            touches_ground: true,
            last_touchdown: Some(t),
            last_liftoff: None,
            ground_time_left: ground_time_max,
            lowest_y: next.position.1,
        },
    }
}

/// The locking details of the piece `next` after an event at time `t`, given the previous
/// piece data and whether `next` touches the ground.
pub open spec fn locking_data_spec(
    prev: Option<(ActivePiece, LockingData)>,
    next: ActivePiece,
    touches_ground: bool,
    t: GameTime,
    ground_time_max: GameTime,
    level: u32,
) -> LockingData {
    if touches_ground {
        grounded_locking_data(prev, next, t, ground_time_max, level)
    } else {
        match prev {
            None => LockingData {
                touches_ground: false,
                last_touchdown: None,
                last_liftoff: Some(t),
                ground_time_left: ground_time_max,
                lowest_y: next.position.1,
            },
            Some((_, pl)) => if pl.touches_ground {
                LockingData { touches_ground: false, last_liftoff: Some(t), ..pl }
            } else {
                pl
            },
        }
    }
}

/// Whether the event moved or rotated the piece sideways.
pub open spec fn is_move_or_rotate(e: InternalEvent) -> bool {
    e matches InternalEvent::Rotate(_) || e == InternalEvent::MoveSlow || e == InternalEvent::MoveFast
}

/// The pending events after the locking details of `next` were updated: a piece leaving the
/// ground loses its lock timer; a piece on the ground gets one if it has none, or a fresh one
/// after it was moved or rotated. The timer expires after the level's lock delay, or sooner if
/// the piece's remaining ground time is shorter.
pub open spec fn locking_events(
    ev: Map<InternalEvent, GameTime>,
    event: InternalEvent,
    prev: Option<(ActivePiece, LockingData)>,
    next: ActivePiece,
    touches_ground: bool,
    t: GameTime,
    nld: LockingData,
    level: u32,
) -> Map<InternalEvent, GameTime> {
    if touches_ground {
        let repositioned = match prev {
            Some((pp, _)) => pp != next,
            None => false,
        };
        if !ev.contains_key(InternalEvent::LockTimer) || (repositioned && is_move_or_rotate(event)) {
            let remaining = since(nld.ground_time_left, since(t, nld.last_touchdown.unwrap()));
            let lock_timer = if lock_delay_spec(level) <= remaining { lock_delay_spec(level) } else { remaining };
            ev.insert(InternalEvent::LockTimer, later(t, lock_timer))
        } else {
            ev
        }
    } else {
        match prev {
            Some((_, pl)) => if pl.touches_ground { ev.remove(InternalEvent::LockTimer) } else { ev },
            None => ev,
        }
    }
}

/// Whether the locking details are consistent: on the ground a piece has a touchdown time,
/// afloat it has a liftoff time.
pub open spec fn locking_data_ok(ld: LockingData) -> bool {
    &&& (ld.touches_ground ==> ld.last_touchdown is Some)
    &&& (!ld.touches_ground ==> ld.last_liftoff is Some)
}

/// Whether `(x, y)` is one of the cells covered by the piece.
pub open spec fn covers(p: ActivePiece, x: int, y: int) -> bool {
    exists|i: int|
        0 <= i < 4 && p.position.0 + (#[trigger] shape_minos(p.shape, p.orientation)[i]).0 == x
            && p.position.1 + shape_minos(p.shape, p.orientation)[i].1 == y
}

/// Whether `new` is the board `old` with the piece's tiles fixed on it.
pub open spec fn with_piece_locked(old: Seq<Line>, new: Seq<Line>, p: ActivePiece) -> bool {
    &&& new.len() == old.len()
    &&& forall|y: int, x: int|
        #![trigger new[y]@[x]]
        0 <= y < old.len() && 0 <= x < WIDTH ==> new[y]@[x] == if covers(p, x, y) {
            Some(tile_type_of(p.shape))
        } else {
            old[y]@[x]
        }
}

/// The rows among `lo..hi` whose lines are full, from the highest row down.
pub open spec fn full_rows_between(b: Seq<Line>, lo: int, hi: int) -> Seq<usize>
    decreases hi - lo,
{
    if lo >= hi {
        Seq::empty()
    } else {
        let rest = full_rows_between(b, lo + 1, hi);
        if line_full(b[lo]) { rest.push(lo as usize) } else { rest }
    }
}

/// The full rows of a board, from the highest row down.
pub open spec fn full_rows(b: Seq<Line>) -> Seq<usize> {
    full_rows_between(b, 0, b.len() as int)
}

/// Whether every line of the board is either full or empty: clearing the full lines leaves the
/// board empty.
pub open spec fn clears_perfectly(b: Seq<Line>) -> bool {
    forall|y: int| 0 <= y < b.len() ==> line_full(#[trigger] b[y]) || line_empty(b[y])
}

/// Whether every tile of the piece lies at or above the skyline.
pub open spec fn above_skyline(p: ActivePiece) -> bool {
    forall|i: int|
        0 <= i < 4 ==> p.position.1 + (#[trigger] shape_minos(p.shape, p.orientation)[i]).1 >= SKYLINE
}

/// `min(v, u32::MAX)`.
pub open spec fn cap_u32(v: int) -> u32 {
    if v <= u32::MAX { v as u32 } else { u32::MAX }
}

/// The score bonus of a line clear: `10 * lines^2 * (4 if spin) * (16 if perfect clear) * combo
/// * max(1, back_to_back)^2`, capped at `u32::MAX`.
pub open spec fn score_bonus_spec(lines: int, spin: bool, perfect: bool, combo: int, back_to_back: int) -> u32 {
    let b = if back_to_back >= 1 { back_to_back } else { 1 };
    cap_u32(10 * (lines * lines) * (if spin { 4int } else { 1 }) * (if perfect { 16int } else { 1 }) * combo * (b * b))
}

/// Adds, staying at `u32::MAX` once reached.
pub open spec fn sat_add_u32(a: u32, b: u32) -> u32 {
    cap_u32(a + b)
}

/// Multiplication capped at `u32::MAX`.
fn cap_mul(a: u32, b: u32) -> (r: u32)
    ensures
        r == cap_u32(a * b),
{
    match a.checked_mul(b) {
        Some(v) => v,
        None => u32::MAX,
    }
}

/// Capping a product at a bound and multiplying by a positive factor gives the capped product.
proof fn lemma_cap_mul(p: int, c: int)
    requires
        p >= 0,
        c >= 1,
    ensures
        cap_u32(cap_u32(p) * c) == cap_u32(p * c),
{
    if p > u32::MAX {
        assert(p * c >= p) by (nonlinear_arith)
            requires
                p >= 0,
                c >= 1,
        ;
        assert(u32::MAX * c >= u32::MAX) by (nonlinear_arith)
            requires
                c >= 1,
        ;
    }
}

/// The score bonus of a line clear, capped at `u32::MAX`.
pub fn score_bonus(lines: u32, spin: bool, perfect: bool, combo: u32, back_to_back: u32) -> (r: u32)
    requires
        lines >= 1,
        combo >= 1,
    ensures
        r == score_bonus_spec(lines as int, spin, perfect, combo as int, back_to_back as int),
{
    let b: u32 = if back_to_back >= 1 { back_to_back } else { 1 };
    let spin_factor: u32 = if spin { 4 } else { 1 };
    let perfect_factor: u32 = if perfect { 16 } else { 1 };
    let l2 = cap_mul(lines, lines);
    let b2 = cap_mul(b, b);
    let r1 = cap_mul(10, l2);
    let r2 = cap_mul(r1, spin_factor);
    let r3 = cap_mul(r2, perfect_factor);
    let r4 = cap_mul(r3, combo);
    let r5 = cap_mul(r4, b2);
    proof {
        let ll = lines * lines;
        let bb = b * b;
        assert(ll >= 1) by (nonlinear_arith)
            requires
                lines >= 1,
                ll == lines * lines,
        ;
        assert(bb >= 1) by (nonlinear_arith)
            requires
                b >= 1,
                bb == b * b,
        ;
        lemma_cap_mul(ll, 10);
        assert(10 * cap_u32(ll) == cap_u32(ll) * 10);
        assert(10 * ll == ll * 10);
        let p1 = 10 * ll;
        lemma_cap_mul(p1, spin_factor as int);
        let p2 = p1 * spin_factor;
        lemma_cap_mul(p2, perfect_factor as int);
        let p3 = p2 * perfect_factor;
        lemma_cap_mul(p3, combo as int);
        let p4 = p3 * combo;
        assert(p4 >= 0) by (nonlinear_arith)
            requires
                p3 >= 0,
                combo >= 1,
                p4 == p3 * combo,
        ;
        assert(p3 >= 0) by (nonlinear_arith)
            requires
                p2 >= 0,
                perfect_factor >= 1,
                p3 == p2 * perfect_factor,
        ;
        assert(p2 >= 0) by (nonlinear_arith)
            requires
                p1 >= 0,
                spin_factor >= 1,
                p2 == p1 * spin_factor,
        ;
        lemma_cap_mul(p4, bb);
        lemma_cap_mul_comm(p4, bb);
    }
    r5
}

/// Capping commutes with multiplying by a capped positive factor.
proof fn lemma_cap_mul_comm(p: int, q: int)
    requires
        p >= 0,
        q >= 1,
    ensures
        cap_u32(cap_u32(p) * cap_u32(q)) == cap_u32(p * q),
{
    if q <= u32::MAX {
        lemma_cap_mul(p, q);
    } else if p == 0 {
        assert(p * q == 0) by (nonlinear_arith)
            requires
                p == 0,
        ;
        assert(cap_u32(p) * cap_u32(q) == 0) by (nonlinear_arith)
            requires
                cap_u32(p) == 0,
        ;
    } else {
        assert(p * q >= q) by (nonlinear_arith)
            requires
                p >= 1,
                q >= 1,
        ;
        let cp = cap_u32(p) as int;
        assert(cp >= 1);
        assert(cp * (u32::MAX as int) >= u32::MAX) by (nonlinear_arith)
            requires
                cp >= 1,
        ;
    }
}

/// Puts a value into one cell of the board.
fn set_cell(board: &mut Board, x: usize, y: usize, v: Option<u32>)
    requires
        y < old(board)@.len(),
        x < WIDTH,
    ensures
        final(board)@.len() == old(board)@.len(),
        final(board)@[y as int]@[x as int] == v,
        forall|yy: int, xx: int|
            #![trigger final(board)@[yy]@[xx]]
            0 <= yy < old(board)@.len() && 0 <= xx < WIDTH && (yy != y || xx != x)
                ==> final(board)@[yy]@[xx] == old(board)@[yy]@[xx],
{
    let mut line = board[y];
    line[x] = v;
    board.set(y, line);
}

/// Fixes the piece's tiles on the board.
fn lock_tiles(board: &mut Board, p: &ActivePiece)
    requires
        old(board)@.len() == HEIGHT,
        piece_fits(old(board)@, *p),
    ensures
        with_piece_locked(old(board)@, final(board)@, *p),
{
    proof {
        crate::pieces::lemma_minos_small(p.shape, p.orientation);
        let ms = shape_minos(p.shape, p.orientation);
        assert(crate::pieces::cell_free(old(board)@, p.position.0 + ms[0].0, p.position.1 + ms[0].1));
    }
    let tiles = p.tiles();
    let ghost b0 = board@;
    let ghost ms = shape_minos(p.shape, p.orientation);
    proof {
        assert(crate::pieces::cell_free(b0, p.position.0 + ms[1].0, p.position.1 + ms[1].1));
        assert(crate::pieces::cell_free(b0, p.position.0 + ms[2].0, p.position.1 + ms[2].1));
        assert(crate::pieces::cell_free(b0, p.position.0 + ms[3].0, p.position.1 + ms[3].1));
        assert(tiles@[0] == tiles@[0]);
        assert(tiles@[1] == tiles@[1]);
        assert(tiles@[2] == tiles@[2]);
        assert(tiles@[3] == tiles@[3]);
    }
    let ((x0, y0), id) = tiles[0];
    let ((x1, y1), _) = tiles[1];
    let ((x2, y2), _) = tiles[2];
    let ((x3, y3), _) = tiles[3];
    set_cell(board, x0, y0, Some(id));
    set_cell(board, x1, y1, Some(id));
    set_cell(board, x2, y2, Some(id));
    set_cell(board, x3, y3, Some(id));
    proof {
        assert forall|y: int, x: int|
            #![trigger board@[y]@[x]]
            0 <= y < b0.len() && 0 <= x < WIDTH implies board@[y]@[x] == if covers(*p, x, y) {
                Some(tile_type_of(p.shape))
            } else {
                b0[y]@[x]
            } by {
            if covers(*p, x, y) {
                let i = choose|i: int|
                    0 <= i < 4 && p.position.0 + (#[trigger] shape_minos(p.shape, p.orientation)[i]).0 == x
                        && p.position.1 + shape_minos(p.shape, p.orientation)[i].1 == y;
                assert(0 <= i < 4);
            } else {
                assert(!(x == x0 && y == y0)) by {
                    if x == x0 && y == y0 {
                        assert(p.position.0 + ms[0].0 == x && p.position.1 + ms[0].1 == y);
                    }
                }
                assert(!(x == x1 && y == y1)) by {
                    if x == x1 && y == y1 {
                        assert(p.position.0 + ms[1].0 == x && p.position.1 + ms[1].1 == y);
                    }
                }
                assert(!(x == x2 && y == y2)) by {
                    if x == x2 && y == y2 {
                        assert(p.position.0 + ms[2].0 == x && p.position.1 + ms[2].1 == y);
                    }
                }
                assert(!(x == x3 && y == y3)) by {
                    if x == x3 && y == y3 {
                        assert(p.position.0 + ms[3].0 == x && p.position.1 + ms[3].1 == y);
                    }
                }
            }
        }
    }
}

/// The full rows of the board, from the highest row down.
fn collect_full_rows(board: &Board) -> (r: Vec<usize>)
    ensures
        r@ == full_rows(board@),
{
    let mut rows: Vec<usize> = Vec::new();
    let mut y: usize = board.len();
    while y > 0
        invariant
            y <= board@.len(),
            rows@ == full_rows_between(board@, y as int, board@.len() as int),
        decreases y,
    {
        y -= 1;
        if is_line_full(&board[y]) {
            rows.push(y);
        }
    }
    rows
}

/// Whether clearing the full lines leaves the board empty.
fn board_clears_perfectly(board: &Board) -> (r: bool)
    ensures
        r == clears_perfectly(board@),
{
    let mut y: usize = 0;
    while y < board.len()
        invariant
            y <= board@.len(),
            forall|j: int| 0 <= j < y ==> line_full(#[trigger] board@[j]) || line_empty(board@[j]),
        decreases board@.len() - y,
    {
        if !is_line_full(&board[y]) && !is_line_empty(&board[y]) {
            return false;
        }
        y += 1;
    }
    true
}

/// Whether every tile of the piece lies at or above the skyline.
fn is_above_skyline(p: &ActivePiece) -> (r: bool)
    requires
        p.position.1 + 3 <= usize::MAX,
    ensures
        r == above_skyline(*p),
{
    proof {
        crate::pieces::lemma_minos_small(p.shape, p.orientation);
    }
    let m = p.shape.minos(p.orientation);
    let y = p.position.1;
    let r = y + m[0].1 >= SKYLINE && y + m[1].1 >= SKYLINE && y + m[2].1 >= SKYLINE && y + m[3].1 >= SKYLINE;
    proof {
        let ms = shape_minos(p.shape, p.orientation);
        if r {
            assert forall|i: int| 0 <= i < 4 implies p.position.1 + (#[trigger] ms[i]).1 >= SKYLINE by {
                if i == 0 {} else if i == 1 {} else if i == 2 {} else {}
            }
        }
    }
    r
}

/// At most one full row per row.
pub proof fn lemma_full_rows_len(b: Seq<Line>, lo: int, hi: int)
    requires
        0 <= lo,
    ensures
        full_rows_between(b, lo, hi).len() <= if hi >= lo { hi - lo } else { 0 },
    decreases hi - lo,
{
    if lo < hi {
        lemma_full_rows_len(b, lo + 1, hi);
    }
}

/// The game state after the piece `p` was locked at a time: the piece's tiles are fixed,
/// its shape is tallied, the full lines are counted (not yet removed) and scored, and a line
/// clear (if lines are full) or the next spawn is scheduled; all other events are dropped.
pub open spec fn locked_state(
    old: GameState,
    new: GameState,
    config: GameConfig,
    p: ActivePiece,
    t: GameTime,
    feedback: Seq<(GameTime, Feedback)>,
) -> bool {
    let spin = fits_at_spec(old.board@, p, (0, 1)) is None;
    let rows = full_rows(new.board@);
    let n = rows.len();
    let idx = tetromino_index(p.shape);
    &&& with_piece_locked(old.board@, new.board@, p)
    &&& new.pieces_played@ == old.pieces_played@.update(idx, crate::generation::sat_inc(old.pieces_played@[idx]))
    &&& new.active_piece_data is None
    &&& new.events.wf()
    &&& feedback[0] == (t, Feedback::PieceLocked(p))
    &&& if n > 0 {
        let perfect = clears_perfectly(new.board@);
        let combo = crate::generation::sat_inc(old.consecutive_line_clears);
        let b2b = if n >= 4 || spin || perfect {
            crate::generation::sat_inc(old.back_to_back_special_clears)
        } else {
            0
        };
        let bonus = score_bonus_spec(n as int, spin, perfect, combo as int, b2b as int);
        &&& new.consecutive_line_clears == combo
        &&& new.back_to_back_special_clears == b2b
        &&& new.score == sat_add_u32(old.score, bonus)
        &&& feedback.len() == 3
        &&& feedback[1] == (t, Feedback::Accolade {
            score_bonus: bonus,
            shape: p.shape,
            spin,
            lineclears: n as u32,
            perfect_clear: perfect,
            combo,
            back_to_back: b2b,
        })
        &&& feedback[2] matches (t2, Feedback::LineClears(v, d)) && t2 == t && v@ == rows && d == config.line_clear_delay
        &&& new.events@ == Map::<InternalEvent, GameTime>::empty().insert(
            InternalEvent::LineClear,
            later(t, config.line_clear_delay),
        )
    } else {
        &&& new.consecutive_line_clears == 0
        &&& new.back_to_back_special_clears == old.back_to_back_special_clears
        &&& new.score == old.score
        &&& feedback.len() == 1
        &&& new.events@ == Map::<InternalEvent, GameTime>::empty().insert(
            InternalEvent::Spawn,
            later(t, config.appearance_delay),
        )
    }
    &&& new == (GameState {
        board: new.board,
        pieces_played: new.pieces_played,
        active_piece_data: None,
        events: new.events,
        consecutive_line_clears: new.consecutive_line_clears,
        back_to_back_special_clears: new.back_to_back_special_clears,
        score: new.score,
        ..old
    })
}

/// The lines of the board that are not full, in order from the bottom.
pub open spec fn kept_lines(b: Seq<Line>) -> Seq<Line>
    decreases b.len(),
{
    if b.len() == 0 {
        Seq::empty()
    } else {
        let rest = kept_lines(b.drop_first());
        if line_full(b[0]) { rest } else { seq![b[0]] + rest }
    }
}

/// `n` empty lines.
pub open spec fn empty_lines(n: int) -> Seq<Line> {
    Seq::new(n as nat, |i: int| empty_line())
}

/// The board after its full lines are removed: the other lines move down in order and empty
/// lines fill the top.
pub open spec fn cleared_board(b: Seq<Line>) -> Seq<Line> {
    kept_lines(b) + empty_lines(b.len() - kept_lines(b).len())
}

/// The number of full lines of the board.
pub open spec fn full_line_count(b: Seq<Line>) -> int {
    b.len() - kept_lines(b).len()
}

/// Adds, staying at `usize::MAX` once reached.
pub open spec fn sat_add_usize(a: int, b: int) -> usize {
    if a + b <= usize::MAX { (a + b) as usize } else { usize::MAX }
}

/// The level after the total number of cleared lines went from `before` to `after`: one level
/// more for every ten lines, if the mode increments the level.
pub open spec fn level_after(level: u32, increment: bool, before: usize, after: usize) -> u32 {
    if increment { cap_u32(level + (after / 10 - before / 10)) } else { level }
}

/// Kept lines never outnumber the lines.
pub proof fn lemma_kept_len(b: Seq<Line>)
    ensures
        kept_lines(b).len() <= b.len(),
    decreases b.len(),
{
    if b.len() > 0 {
        lemma_kept_len(b.drop_first());
    }
}

/// The net number of right turns requested by the rotation buttons held.
pub open spec fn held_turns(b: ButtonsPressed) -> int {
    (if b@[3] { 1int } else { 0 }) + (if b@[4] { 2int } else { 0 }) - (if b@[2] { 1int } else { 0 })
}

/// The events scheduled when a piece spawns at time `t`: a rotation if rotation buttons are
/// held, and an immediate fall.
pub open spec fn spawn_events(ev: Map<InternalEvent, GameTime>, b: ButtonsPressed, t: GameTime) -> Map<InternalEvent, GameTime> {
    let turns = held_turns(b);
    let ev1 = if turns != 0 { ev.insert(InternalEvent::Rotate(turns as i32), t) } else { ev };
    ev1.insert(InternalEvent::Fall, t)
}

/// Whether spawning the piece `shape` at time `t` took the state `s` to `s2` with result `r`:
/// the shape is the first of the preview queue if there is one; it is placed at its initial
/// position with its spawn events if it fits, else the game ends by block out.
pub open spec fn spawn_draw(s: GameState, s2: GameState, t: GameTime, r: Option<ActivePiece>, shape: Tetromino) -> bool {
    let q = crate::rotation::initial_piece(shape);
    &&& (s.next_pieces@.len() > 0 ==> shape == s.next_pieces@[0])
    &&& if piece_fits(s.board@, q) {
        &&& r == Some(q)
        &&& s2.events@ == spawn_events(s.events@, s.buttons_pressed, t)
        &&& s2.end == s.end
    } else {
        &&& r is None
        &&& s2.events@ == s.events@
        &&& s2.end == Some(Err::<(), GameOver>(GameOver::BlockOut))
    }
}

/// The piece data and pending events once `next` became the piece in play at time `t`
/// through `event`, from the piece data `prev` and the pending events `ev`: a changed piece
/// gets its repeated move and fall scheduled, then its locking details and lock timer are
/// brought up to date.
pub open spec fn settled_piece(
    config: GameConfig,
    s: GameState,
    ev: Map<InternalEvent, GameTime>,
    event: InternalEvent,
    t: GameTime,
    prev: Option<(ActivePiece, LockingData)>,
    next: ActivePiece,
) -> ((ActivePiece, LockingData), Map<InternalEvent, GameTime>) {
    let changed = match prev {
        Some((p, _)) => p != next,
        None => true,
    };
    let ev2 = if changed { changed_piece_events(ev, config, s.buttons_pressed, s.level, t) } else { ev };
    let touches = on_ground(s.board@, next);
    let nld = locking_data_spec(prev, next, touches, t, config.ground_time_max, s.level);
    ((next, nld), locking_events(ev2, event, prev, next, touches, t, nld, s.level))
}

/// Whether a spawn at time `t` of the piece `shape` took the state `s` to `s2`: the preview
/// queue moves up and is refilled; the piece comes into play at its initial position with its
/// spawn events if it fits, else the game ends by block out; nothing else changes.
pub open spec fn spawn_outcome(config: GameConfig, s: GameState, s2: GameState, t: GameTime, shape: Tetromino) -> bool {
    let q = crate::rotation::initial_piece(shape);
    &&& (s.next_pieces@.len() > 0 ==> shape == s.next_pieces@[0])
    &&& s2.next_pieces@.len() == preview_len_after_spawn(s.next_pieces@.len() as int, config.preview_count as int)
    &&& (s.next_pieces@.len() > 0 ==> s2.next_pieces@.subrange(0, s.next_pieces@.len() - 1) == s.next_pieces@.drop_first())
    &&& if piece_fits(s.board@, q) {
        let (pd, ev) = settled_piece(
            config,
            s,
            spawn_events(s.events@, s.buttons_pressed, t),
            InternalEvent::Spawn,
            t,
            s.active_piece_data,
            q,
        );
        &&& s2.active_piece_data == Some(pd)
        &&& s2.events@ == ev
        &&& s2.end == s.end
    } else {
        &&& s2.active_piece_data == s.active_piece_data
        &&& s2.events@ == s.events@
        &&& s2.end == Some(Err::<(), GameOver>(GameOver::BlockOut))
    }
    &&& s2 == (GameState {
        next_pieces: s2.next_pieces,
        events: s2.events,
        end: s2.end,
        active_piece_data: s2.active_piece_data,
        ..s
    })
}

/// The preview length after a spawn: refilled to the preview count, never shortened below
/// what was already queued.
pub open spec fn preview_len_after_spawn(old_len: int, preview_count: int) -> int {
    let remaining = if old_len > 0 { old_len - 1 } else { 0 };
    if remaining >= preview_count { remaining } else { preview_count }
}

/// The sideways direction requested by the move buttons held (left `-1`, right `+1`).
pub open spec fn shift_dx(b: ButtonsPressed) -> isize {
    ((if b@[1] { 1int } else { 0 }) - (if b@[0] { 1int } else { 0 })) as isize
}

/// The soft drop factor in effect: the configured one while soft drop is held.
pub open spec fn soft_drop_held(config: GameConfig, b: ButtonsPressed) -> Option<u64> {
    if b@[5] { Some(config.soft_drop_factor) } else { None }
}

/// The piece in play after a movement event (rotation, move, fall, drop or lock timer);
/// a movement that does not fit leaves the piece where it is.
pub open spec fn moved_piece(config: GameConfig, s: GameState, event: InternalEvent, p: ActivePiece) -> ActivePiece {
    match event {
        InternalEvent::Rotate(k) => match crate::rotation::rotate_spec(config.rotation_system, p, s.board@, k as int) {
            Some(q) => q,
            None => p,
        },
        InternalEvent::MoveSlow | InternalEvent::MoveFast => match fits_at_spec(s.board@, p, (shift_dx(s.buttons_pressed), 0)) {
            Some(q) => q,
            None => p,
        },
        InternalEvent::Fall | InternalEvent::SoftDrop => match fits_at_spec(s.board@, p, (0, -1isize)) {
            Some(q) => q,
            None => p,
        },
        InternalEvent::SonicDrop | InternalEvent::HardDrop => crate::pieces::well_spec(s.board@, p),
        _ => p,
    }
}

/// The delay until the next automatic sideways move.
pub open spec fn move_delay_spec(config: GameConfig, event: InternalEvent, level: u32) -> GameTime {
    let d = if event == InternalEvent::MoveSlow { config.delayed_auto_shift } else { config.auto_repeat_rate };
    let cap = since(lock_delay_spec(level), NANOS_PER_MILLI);
    if d <= cap { d } else { cap }
}

/// The events scheduled by a movement event at time `t`: repeated moves and falls while they
/// succeed, a lock after a soft drop on the ground, a lock timer after a hard drop and a lock
/// after the lock timer.
pub open spec fn movement_events(config: GameConfig, s: GameState, event: InternalEvent, p: ActivePiece, t: GameTime) -> Map<InternalEvent, GameTime> {
    let ev = s.events@;
    let below = fits_at_spec(s.board@, p, (0, -1isize));
    let fall_at = later(t, drop_delay_spec(s.level, soft_drop_held(config, s.buttons_pressed)));
    match event {
        InternalEvent::MoveSlow | InternalEvent::MoveFast => if fits_at_spec(s.board@, p, (shift_dx(s.buttons_pressed), 0)) is Some {
            ev.insert(InternalEvent::MoveFast, later(t, move_delay_spec(config, event, s.level)))
        } else {
            ev
        },
        InternalEvent::Fall => if below is Some { ev.insert(InternalEvent::Fall, fall_at) } else { ev },
        InternalEvent::SoftDrop => if below is Some {
            ev.insert(InternalEvent::Fall, fall_at)
        } else if !config.no_soft_drop_lock {
            ev.insert(InternalEvent::Lock, t)
        } else {
            ev
        },
        InternalEvent::HardDrop => ev.insert(InternalEvent::LockTimer, later(t, config.hard_drop_delay)),
        InternalEvent::LockTimer => ev.insert(InternalEvent::Lock, t),
        _ => ev,
    }
}

/// The events added when the piece in play changed at time `t`: an immediate repeated move if
/// one move button is held and no move is pending, and a fall if none is pending.
pub open spec fn changed_piece_events(ev: Map<InternalEvent, GameTime>, config: GameConfig, b: ButtonsPressed, level: u32, t: GameTime) -> Map<InternalEvent, GameTime> {
    let e1 = if !(ev.contains_key(InternalEvent::MoveSlow) || ev.contains_key(InternalEvent::MoveFast)) && b@[0] != b@[1] {
        ev.insert(InternalEvent::MoveFast, t)
    } else {
        ev
    };
    if !e1.contains_key(InternalEvent::Fall) {
        e1.insert(InternalEvent::Fall, later(t, drop_delay_spec(level, soft_drop_held(config, b))))
    } else {
        e1
    }
}

/// Whether the feedback events are in chronological order and lie between two times.
pub open spec fn chronological(fb: Seq<(GameTime, Feedback)>, lo: GameTime, hi: GameTime) -> bool {
    &&& forall|i: int| 0 <= i < fb.len() ==> lo <= (#[trigger] fb[i]).0 <= hi
    &&& forall|i: int, j: int| 0 <= i < j < fb.len() ==> (#[trigger] fb[i]).0 <= (#[trigger] fb[j]).0
}

/// Appending events at a time no earlier than all of the others keeps the order.
pub proof fn lemma_chronological_append(a: Seq<(GameTime, Feedback)>, b: Seq<(GameTime, Feedback)>, lo: GameTime, t: GameTime)
    requires
        chronological(a, lo, t),
        lo <= t,
        forall|i: int| 0 <= i < b.len() ==> (#[trigger] b[i]).0 == t,
    ensures
        chronological(a + b, lo, t),
{
    let c = a + b;
    assert forall|i: int, j: int| 0 <= i < j < c.len() implies (#[trigger] c[i]).0 <= (#[trigger] c[j]).0 by {
        if j < a.len() {
            assert(c[i] == a[i] && c[j] == a[j]);
        } else if i < a.len() {
            assert(c[i] == a[i] && c[j] == b[j - a.len()]);
        } else {
            assert(c[i] == b[i - a.len()] && c[j] == b[j - a.len()]);
        }
    }
    assert forall|i: int| 0 <= i < c.len() implies lo <= (#[trigger] c[i]).0 <= t by {
        if i < a.len() {
            assert(c[i] == a[i]);
        } else {
            assert(c[i] == b[i - a.len()]);
        }
    }
}

/// Chronological feedback events stay so under a later upper bound.
pub proof fn lemma_chronological_weaken(a: Seq<(GameTime, Feedback)>, lo: GameTime, h1: GameTime, h2: GameTime)
    requires
        chronological(a, lo, h1),
        h1 <= h2,
    ensures
        chronological(a, lo, h2),
{
}

/// How the tallies of a round may change from one state to a later one: score, lines and
/// pieces played never decrease, the level follows the lines cleared (one level per ten lines,
/// if the mode increments it), and the board keeps its height.
pub open spec fn stats_progress(old: GameState, new: GameState, increment: bool) -> bool {
    &&& old.score <= new.score
    &&& old.lines_cleared <= new.lines_cleared
    &&& forall|i: int| 0 <= i < 7 ==> old.pieces_played@[i] <= #[trigger] new.pieces_played@[i]
    &&& new.level == level_after(old.level, increment, old.lines_cleared, new.lines_cleared)
}

/// A configuration changed at most in the state of its tetromino generator.
pub open spec fn config_kept(old: GameConfig, new: GameConfig) -> bool {
    new == (GameConfig { tetromino_generator: new.tetromino_generator, ..old })
}

/// Levels after successive stretches of line clears compose.
pub proof fn lemma_level_after_compose(level: u32, increment: bool, a: usize, b: usize, c: usize)
    requires
        a <= b <= c,
    ensures
        level_after(level_after(level, increment, a, b), increment, b, c) == level_after(level, increment, a, c),
{
    if increment {
        assert(a / 10 <= b / 10 <= c / 10) by (nonlinear_arith)
            requires a <= b <= c;
    }
}

/// Progress from one state to a second and from there to a third is progress from the first
/// to the third.
pub proof fn lemma_stats_progress_trans(a: GameState, b: GameState, c: GameState, increment: bool)
    requires
        stats_progress(a, b, increment),
        stats_progress(b, c, increment),
    ensures
        stats_progress(a, c, increment),
{
    lemma_level_after_compose(a.level, increment, a.lines_cleared, b.lines_cleared, c.lines_cleared);
    assert forall|i: int| 0 <= i < 7 implies a.pieces_played@[i] <= #[trigger] c.pieces_played@[i] by {
        assert(a.pieces_played@[i] <= b.pieces_played@[i]);
    }
}

/// Whether the piece lies on the ground (cannot move down).
pub open spec fn on_ground(board: Seq<Line>, p: ActivePiece) -> bool {
    fits_at_spec(board, p, (0, -1isize)) is None
}

/// What handling `event` at `event_time` does to the configuration `c0` and state `s0` of a
/// game of mode `mode`, giving `c1` and `s1` and the feedback `r`: a lock fixes the piece (or
/// ends the game by lock out), a line clear removes the full lines and schedules the next
/// spawn, a spawn brings the next piece into play (or ends the game by block out), and a
/// movement moves, turns or drops the piece in play and schedules what follows; the result
/// is consistent, and the time, the buttons and the configuration (but for the generator's
/// state) are kept.
pub open spec fn event_handled(
    mode: GameMode,
    c0: GameConfig,
    s0: GameState,
    event: InternalEvent,
    event_time: GameTime,
    c1: GameConfig,
    s1: GameState,
    r: Seq<(GameTime, Feedback)>,
) -> bool {
    &&& state_wf(c1, GameState { time: event_time, ..s1 })
    &&& pending_ok(s1)
    &&& forall|i: int| 0 <= i < r.len() ==> (#[trigger] r[i]).0 == event_time
    &&& s1.buttons_pressed == s0.buttons_pressed
    &&& s1.time == s0.time
    &&& stats_progress(s0, s1, mode.increment_level)
    &&& config_kept(c0, c1)
    &&& event == InternalEvent::Lock ==> (s0.active_piece_data matches Some((p, _)) && if above_skyline(p) {
            &&& s1 == (GameState { end: Some(Err(GameOver::LockOut)), ..s0 })
            &&& r == seq![(event_time, Feedback::PieceLocked(p))]
        } else {
            locked_state(s0, s1, c0, p, event_time, r)
        })
    &&& event == InternalEvent::LineClear ==> {
            &&& s1.board@ == cleared_board(s0.board@)
            &&& s1.lines_cleared == sat_add_usize(
                s0.lines_cleared as int,
                full_line_count(s0.board@),
            )
            &&& s1.level == level_after(
                s0.level,
                mode.increment_level,
                s0.lines_cleared,
                s1.lines_cleared,
            )
            &&& s1.active_piece_data is None
            &&& s1.events@ == s0.events@.insert(
                InternalEvent::Spawn,
                later(event_time, c0.appearance_delay),
            )
            &&& s1 == (GameState {
                board: s1.board,
                lines_cleared: s1.lines_cleared,
                level: s1.level,
                events: s1.events,
                active_piece_data: None,
                ..s0
            })
            &&& c1 == c0
            &&& r.len() == 0
        }
    &&& event == InternalEvent::Spawn ==> {
            &&& r.len() == 0
            &&& exists|shape: Tetromino| #[trigger] spawn_outcome(
                c0,
                s0,
                s1,
                event_time,
                shape,
            )
        }
    &&& event != InternalEvent::Spawn && event != InternalEvent::Lock && event != InternalEvent::LineClear ==> (
            s0.active_piece_data matches Some((p, ld)) && {
                let q = moved_piece(c0, s0, event, p);
                let touches = on_ground(s0.board@, q);
                let nld = locking_data_spec(Some((p, ld)), q, touches, event_time, c0.ground_time_max, s0.level);
                let ev1 = movement_events(c0, s0, event, p, event_time);
                let ev2 = if q != p {
                    changed_piece_events(ev1, c0, s0.buttons_pressed, s0.level, event_time)
                } else {
                    ev1
                };
                &&& s1.active_piece_data == Some((q, nld))
                &&& s1.events@ == locking_events(ev2, event, Some((p, ld)), q, touches, event_time, nld, s0.level)
                &&& c1 == c0
                &&& s1 == (GameState {
                    events: s1.events,
                    active_piece_data: s1.active_piece_data,
                    ..s0
                })
                &&& (event == InternalEvent::HardDrop ==> r == seq![(event_time, Feedback::HardDrop(p, q))])
                &&& (event != InternalEvent::HardDrop ==> r.len() == 0)
            }
        )
}

impl<S: TetrominoSampler> Game<S> {
    /// Given an event, updates the game state, possibly adding new future events, and returns
    /// the feedback events it caused.
    #[verifier::spinoff_prover]
    #[verifier::rlimit(80)]
    fn handle_event(&mut self, event: InternalEvent, event_time: GameTime) -> (r: FeedbackEvents)
        requires
            state_wf(old(self).config, GameState { time: event_time, ..old(self).state }),
            event_ok(event),
            !old(self).state.events@.contains_key(event),
            old(self).state.active_piece_data is None ==> event == InternalEvent::Spawn || event == InternalEvent::LineClear,
            event == InternalEvent::LineClear ==> old(self).state.active_piece_data is None,
            event == InternalEvent::Spawn ==> !old(self).state.events@.contains_key(InternalEvent::LineClear),
            pending_spec(
                old(self).state.active_piece_data,
                old(self).state.board@,
                old(self).state.end,
                old(self).state.events@.insert(event, event_time),
            ),
        ensures
            final(self).modifiers == old(self).modifiers,
            final(self).mode == old(self).mode,
            event_handled(
                old(self).mode,
                old(self).config,
                old(self).state,
                event,
                event_time,
                final(self).config,
                final(self).state,
                r@,
            ),
    {
        let ghost s0 = self.state;
        let ghost c0 = self.config;
        let ghost mut sh: Tetromino = Tetromino::I;
        let prev_piece_data = self.state.active_piece_data;
        let (next_piece, feedback): (ActivePiece, FeedbackEvents) = match event {
            InternalEvent::Lock => {
                let p = match prev_piece_data {
                    Some((p, _)) => p,
                    None => return Vec::new(),
                };
                let fb = self.lock_piece(p, event_time);
                proof {
                    if !above_skyline(p) {
                        assert(forall|e: InternalEvent| #[trigger] self.state.events@.contains_key(e)
                            ==> e == InternalEvent::LineClear || e == InternalEvent::Spawn);
                    }
                }
                return fb;
            },
            InternalEvent::LineClear => {
                self.clear_lines(event_time);
                return Vec::new();
            },
            InternalEvent::Spawn => {
                let spawned = self.spawn_piece(event_time);
                proof {
                    sh = choose|shape: Tetromino| spawn_draw(s0, self.state, event_time, spawned, shape);
                }
                match spawned {
                    Some(q) => (q, Vec::new()),
                    None => {
                        assert(spawn_outcome(c0, s0, self.state, event_time, sh));
                        return Vec::new();
                    },
                }
            },
            _ => {
                let p = match prev_piece_data {
                    Some((p, _)) => p,
                    None => return Vec::new(),
                };
                self.move_piece(event, p, event_time)
            },
        };
        proof {
            match event {
                InternalEvent::Rotate(k) => {
                    if let Some((p, _)) = prev_piece_data {
                        crate::rotation::lemma_rotation_fits(c0.rotation_system, p, s0.board@, k as int);
                        if k as int % 4 == 0 {
                            assert(crate::rotation::rotate_spec(c0.rotation_system, p, s0.board@, k as int) == Some(p));
                        }
                    }
                },
                InternalEvent::SonicDrop | InternalEvent::HardDrop => {
                    if let Some((p, _)) = prev_piece_data {
                        crate::pieces::lemma_well_fits(s0.board@, p);
                    }
                },
                _ => {},
            }
        }
        let ghost s_mid = self.state;
        self.settle_piece(event, event_time, prev_piece_data, next_piece);
        proof {
            if event == InternalEvent::Spawn {
                assert(s_mid.events@ == spawn_events(s0.events@, s0.buttons_pressed, event_time));
                assert(spawn_outcome(c0, s0, self.state, event_time, sh));
            }
        }
        feedback
    }

    /// Schedules what a changed piece needs (a repeated move, a fall), then records the new
    /// piece in play with its updated locking details.
    fn settle_piece(
        &mut self,
        event: InternalEvent,
        event_time: GameTime,
        prev_piece_data: Option<(ActivePiece, LockingData)>,
        next_piece: ActivePiece,
    )
        requires
            old(self).state.events.wf(),
            prev_piece_data matches Some((_, pl)) ==> locking_data_ok(pl),
        ensures
            final(self).modifiers == old(self).modifiers,
            final(self).config == old(self).config,
            final(self).mode == old(self).mode,
            final(self).state.events.wf(),
            ({
                let changed = match prev_piece_data {
                    Some((p, _)) => p != next_piece,
                    None => true,
                };
                let ev2 = if changed {
                    changed_piece_events(old(self).state.events@, old(self).config, old(self).state.buttons_pressed, old(self).state.level, event_time)
                } else {
                    old(self).state.events@
                };
                let touches = on_ground(old(self).state.board@, next_piece);
                let nld = locking_data_spec(prev_piece_data, next_piece, touches, event_time, old(self).config.ground_time_max, old(self).state.level);
                &&& final(self).state.active_piece_data == Some((next_piece, nld))
                &&& locking_data_ok(nld)
                &&& nld.touches_ground == touches
                &&& final(self).state.events@ == locking_events(ev2, event, prev_piece_data, next_piece, touches, event_time, nld, old(self).state.level)
            }),
            final(self).state == (GameState {
                events: final(self).state.events,
                active_piece_data: final(self).state.active_piece_data,
                ..old(self).state
            }),
    {
        let prev_piece: Option<ActivePiece> = match prev_piece_data {
            Some((p, _)) => Some(p),
            None => None,
        };
        let changed = match prev_piece {
            Some(p) => !crate::pieces::same_piece(&p, &next_piece),
            None => true,
        };
        let b = self.state.buttons_pressed;
        let level = self.state.level;
        if changed {
            if !(self.state.events.contains_key(InternalEvent::MoveSlow)
                || self.state.events.contains_key(InternalEvent::MoveFast)) && (b[0] != b[1]) {
                self.state.events.insert(InternalEvent::MoveFast, event_time);
            }
            if !self.state.events.contains_key(InternalEvent::Fall) {
                let soft = if b[5] { Some(self.config.soft_drop_factor) } else { None };
                let t = later_exec(event_time, drop_delay(level, soft));
                self.state.events.insert(InternalEvent::Fall, t);
            }
        }
        let touches_ground = next_piece.fits_at(&self.state.board, (0, -1)).is_none();
        let ld = Self::calculate_locking_data(
            &mut self.state.events,
            self.config.ground_time_max,
            level,
            event,
            event_time,
            prev_piece_data,
            next_piece,
            touches_ground,
        );
        self.state.active_piece_data = Some((next_piece, ld));
    }

    /// Handles an event that moves the piece in play (rotation, move, fall, drop or lock timer).
    fn move_piece(&mut self, event: InternalEvent, p: ActivePiece, event_time: GameTime) -> (r: (ActivePiece, FeedbackEvents))
        requires
            old(self).state.events.wf(),
            event_ok(event),
            event != InternalEvent::Spawn && event != InternalEvent::Lock && event != InternalEvent::LineClear,
        ensures
            final(self).modifiers == old(self).modifiers,
            final(self).config == old(self).config,
            final(self).mode == old(self).mode,
            final(self).state.events.wf(),
            r.0 == moved_piece(old(self).config, old(self).state, event, p),
            final(self).state.events@ == movement_events(old(self).config, old(self).state, event, p, event_time),
            final(self).state == (GameState { events: final(self).state.events, ..old(self).state }),
            event == InternalEvent::HardDrop ==> r.1@ == seq![(event_time, Feedback::HardDrop(p, r.0))],
            event != InternalEvent::HardDrop ==> r.1@.len() == 0,
    {
        let mut feedback: FeedbackEvents = Vec::new();
        let b = self.state.buttons_pressed;
        let level = self.state.level;
        let next = match event {
            InternalEvent::Rotate(turns) => {
                match self.config.rotation_system.rotate(&p, &self.state.board, turns) {
                    Some(q) => q,
                    None => p,
                }
            },
            InternalEvent::MoveSlow | InternalEvent::MoveFast => {
                let mut dx: isize = 0;
                if b[0] {
                    dx -= 1;
                }
                if b[1] {
                    dx += 1;
                }
                assert(dx == shift_dx(b));
                match p.fits_at(&self.state.board, (dx, 0)) {
                    Some(q) => {
                        let d = if event == InternalEvent::MoveSlow {
                            self.config.delayed_auto_shift
                        } else {
                            self.config.auto_repeat_rate
                        };
                        let cap = lock_delay(level).saturating_sub(NANOS_PER_MILLI);
                        let move_delay = if d <= cap { d } else { cap };
                        self.state.events.insert(InternalEvent::MoveFast, later_exec(event_time, move_delay));
                        q
                    },
                    None => p,
                }
            },
            InternalEvent::Fall | InternalEvent::SoftDrop => {
                match p.fits_at(&self.state.board, (0, -1)) {
                    Some(q) => {
                        let soft = if b[5] { Some(self.config.soft_drop_factor) } else { None };
                        let t = later_exec(event_time, drop_delay(level, soft));
                        self.state.events.insert(InternalEvent::Fall, t);
                        q
                    },
                    None => {
                        if event == InternalEvent::SoftDrop && !self.config.no_soft_drop_lock {
                            self.state.events.insert(InternalEvent::Lock, event_time);
                        }
                        p
                    },
                }
            },
            InternalEvent::SonicDrop => p.well_piece(&self.state.board),
            InternalEvent::HardDrop => {
                let dropped = p.well_piece(&self.state.board);
                feedback.push((event_time, Feedback::HardDrop(p, dropped)));
                let t = later_exec(event_time, self.config.hard_drop_delay);
                self.state.events.insert(InternalEvent::LockTimer, t);
                dropped
            },
            _ => {
                self.state.events.insert(InternalEvent::Lock, event_time);
                p
            },
        };
        proof {
            if event == InternalEvent::HardDrop {
                assert(feedback@ =~= seq![(event_time, Feedback::HardDrop(p, next))]);
            }
        }
        (next, feedback)
    }

    /// Spawns the next piece: takes it from the preview queue (or draws it), refills the
    /// preview, and places the piece; game over by block out if it does not fit.
    fn spawn_piece(&mut self, event_time: GameTime) -> (r: Option<ActivePiece>)
        requires
            old(self).state.events.wf(),
            old(self).config.tetromino_generator.wf(),
        ensures
            final(self).modifiers == old(self).modifiers,
            final(self).config == (GameConfig {
                tetromino_generator: final(self).config.tetromino_generator,
                ..old(self).config
            }),
            final(self).config.tetromino_generator.wf(),
            final(self).mode == old(self).mode,
            final(self).state.events.wf(),
            final(self).state.next_pieces@.len() == preview_len_after_spawn(
                old(self).state.next_pieces@.len() as int,
                old(self).config.preview_count as int,
            ),
            old(self).state.next_pieces@.len() > 0 ==> final(self).state.next_pieces@.subrange(
                0,
                old(self).state.next_pieces@.len() - 1,
            ) == old(self).state.next_pieces@.drop_first(),
            exists|shape: Tetromino| #[trigger] spawn_draw(old(self).state, final(self).state, event_time, r, shape),
            final(self).state == (GameState {
                next_pieces: final(self).state.next_pieces,
                events: final(self).state.events,
                end: final(self).state.end,
                ..old(self).state
            }),
    {
        let ghost old_queue = self.state.next_pieces@;
        let tetromino = match self.state.next_pieces.pop_front() {
            Some(t) => t,
            None => self.config.tetromino_generator.next_with(&mut self.sampler),
        };
        let len = self.state.next_pieces.len();
        let needed = self.config.preview_count.saturating_sub(len);
        let ghost popped = self.state.next_pieces@;
        let mut i: usize = 0;
        while i < needed
            invariant
                self.modifiers == old(self).modifiers,
                i <= needed,
                self.state.next_pieces@.len() == popped.len() + i,
                self.state.next_pieces@.subrange(0, popped.len() as int) == popped,
                self.config.tetromino_generator.wf(),
                self.config == (GameConfig {
                    tetromino_generator: self.config.tetromino_generator,
                    ..old(self).config
                }),
                self.mode == old(self).mode,
                self.state == (GameState { next_pieces: self.state.next_pieces, ..old(self).state }),
            decreases needed - i,
        {
            let t = self.config.tetromino_generator.next_with(&mut self.sampler);
            let ghost before = self.state.next_pieces@;
            self.state.next_pieces.push_back(t);
            assert(self.state.next_pieces@.subrange(0, popped.len() as int) =~= before.subrange(
                0,
                popped.len() as int,
            ));
            i += 1;
        }
        proof {
            if old_queue.len() > 0 {
                assert(popped =~= old_queue.drop_first());
            }
        }
        let piece = position_tetromino(tetromino);
        if !piece.fits(&self.state.board) {
            self.state.end = Some(Err(GameOver::BlockOut));
            assert(spawn_draw(old(self).state, self.state, event_time, None, tetromino));
            return None;
        }
        let b = self.state.buttons_pressed;
        let mut turns: i32 = 0;
        if b[3] {
            turns += 1;
        }
        if b[4] {
            turns += 2;
        }
        if b[2] {
            turns -= 1;
        }
        assert(turns == held_turns(b));
        if turns != 0 {
            self.state.events.insert(InternalEvent::Rotate(turns), event_time);
        }
        self.state.events.insert(InternalEvent::Fall, event_time);
        assert(spawn_draw(old(self).state, self.state, event_time, Some(piece), tetromino));
        Some(piece)
    }

    /// Removes all full lines from the board, moving the lines above down, counts them and
    /// schedules the next spawn.
    fn clear_lines(&mut self, event_time: GameTime)
        requires
            old(self).state.board@.len() == HEIGHT,
            old(self).state.events.wf(),
        ensures
            final(self).modifiers == old(self).modifiers,
            final(self).config == old(self).config,
            final(self).mode == old(self).mode,
            final(self).state.events.wf(),
            final(self).state.board@ == cleared_board(old(self).state.board@),
            final(self).state.board@.len() == HEIGHT,
            final(self).state.lines_cleared == sat_add_usize(
                old(self).state.lines_cleared as int,
                full_line_count(old(self).state.board@),
            ),
            final(self).state.level == level_after(
                old(self).state.level,
                old(self).mode.increment_level,
                old(self).state.lines_cleared,
                final(self).state.lines_cleared,
            ),
            final(self).state.events@ == old(self).state.events@.insert(
                InternalEvent::Spawn,
                later(event_time, old(self).config.appearance_delay),
            ),
            final(self).state == (GameState {
                board: final(self).state.board,
                lines_cleared: final(self).state.lines_cleared,
                level: final(self).state.level,
                events: final(self).state.events,
                active_piece_data: None,
                ..old(self).state
            }),
    {
        let ghost b0 = self.state.board@;
        let ghost l0 = self.state.lines_cleared;
        let old_lines = self.state.lines_cleared;
        let mut y: usize = HEIGHT;
        assert(b0.skip(HEIGHT as int) =~= Seq::<Line>::empty());
        assert(b0.take(HEIGHT as int) =~= b0);
        assert(kept_lines(Seq::<Line>::empty()) =~= Seq::<Line>::empty());
        assert(b0 =~= b0.take(HEIGHT as int) + kept_lines(b0.skip(HEIGHT as int)) + empty_lines(0));
        while y > 0
            invariant
                self.modifiers == old(self).modifiers,
                y <= HEIGHT,
                b0.len() == HEIGHT,
                self.state.board@ == b0.take(y as int) + kept_lines(b0.skip(y as int)) + empty_lines(
                    (HEIGHT - y) - kept_lines(b0.skip(y as int)).len(),
                ),
                kept_lines(b0.skip(y as int)).len() <= HEIGHT - y,
                self.config == old(self).config,
                self.mode == old(self).mode,
                self.state == (GameState {
                    board: self.state.board,
                    lines_cleared: self.state.lines_cleared,
                    ..old(self).state
                }),
                self.state.lines_cleared == sat_add_usize(
                    l0 as int,
                    (HEIGHT - y) - kept_lines(b0.skip(y as int)).len(),
                ),
            decreases y,
        {
            let ghost k_old = kept_lines(b0.skip(y as int));
            let ghost s = b0.skip(y - 1);
            assert(s.drop_first() =~= b0.skip(y as int));
            assert(s[0] == b0[y - 1]);
            y -= 1;
            assert(self.state.board@[y as int] == b0[y as int]);
            if is_line_full(&self.state.board[y]) {
                let ghost before = self.state.board@;
                self.state.board.remove(y);
                let line: Line = [None, None, None, None, None, None, None, None, None, None];
                self.state.board.push(line);
                assert(kept_lines(s) == k_old);
                assert(self.state.board@ =~= b0.take(y as int) + kept_lines(s) + empty_lines(
                    (HEIGHT - y) - kept_lines(s).len(),
                ));
                self.state.lines_cleared = self.state.lines_cleared.saturating_add(1);
            } else {
                assert(kept_lines(s) == seq![b0[y as int]] + k_old);
                assert(self.state.board@ =~= b0.take(y as int) + kept_lines(s) + empty_lines(
                    (HEIGHT - y) - kept_lines(s).len(),
                ));
            }
        }
        assert(b0.skip(0) =~= b0);
        assert(b0.take(0) =~= Seq::<Line>::empty());
        assert(self.state.board@ =~= cleared_board(b0));
        let new_lines = self.state.lines_cleared;
        if self.mode.increment_level {
            let tens: usize = new_lines / 10 - old_lines / 10;
            let d: u32 = if tens > u32::MAX as usize { u32::MAX } else { tens as u32 };
            self.state.level = self.state.level.saturating_add(d);
        }
        let t = later_exec(event_time, self.config.appearance_delay);
        self.state.events.insert(InternalEvent::Spawn, t);
        self.state.active_piece_data = None;
    }

    /// Locks the active piece down: game over by lock out if it lies entirely above the skyline,
    /// otherwise its tiles are fixed on the board and any full lines are scored.
    fn lock_piece(&mut self, p: ActivePiece, event_time: GameTime) -> (r: FeedbackEvents)
        requires
            old(self).state.board@.len() == HEIGHT,
            piece_fits(old(self).state.board@, p),
        ensures
            final(self).modifiers == old(self).modifiers,
            final(self).config == old(self).config,
            final(self).mode == old(self).mode,
            above_skyline(p) ==> final(self).state == (GameState {
                end: Some(Err(GameOver::LockOut)),
                ..old(self).state
            }) && r@ == seq![(event_time, Feedback::PieceLocked(p))],
            !above_skyline(p) ==> locked_state(old(self).state, final(self).state, old(self).config, p, event_time, r@),
    {
        let mut feedback: FeedbackEvents = Vec::new();
        feedback.push((event_time, Feedback::PieceLocked(p)));
        proof {
            crate::pieces::lemma_minos_small(p.shape, p.orientation);
            let ms = shape_minos(p.shape, p.orientation);
            assert(crate::pieces::cell_free(self.state.board@, p.position.0 + ms[0].0, p.position.1 + ms[0].1));
        }
        if is_above_skyline(&p) {
            self.state.end = Some(Err(GameOver::LockOut));
            assert(feedback@ =~= seq![(event_time, Feedback::PieceLocked(p))]);
            return feedback;
        }
        let idx = p.shape.index();
        let c = self.state.pieces_played[idx];
        self.state.pieces_played[idx] = if c < u32::MAX { c + 1 } else { c };
        let spin = p.fits_at(&self.state.board, (0, 1)).is_none();
        lock_tiles(&mut self.state.board, &p);
        let rows = collect_full_rows(&self.state.board);
        proof {
            lemma_full_rows_len(self.state.board@, 0, self.state.board@.len() as int);
        }
        let n = rows.len();
        if n > 0 {
            let perfect = board_clears_perfectly(&self.state.board);
            let cc = self.state.consecutive_line_clears;
            let combo = if cc < u32::MAX { cc + 1 } else { cc };
            self.state.consecutive_line_clears = combo;
            let b0 = self.state.back_to_back_special_clears;
            let b2b = if n >= 4 || spin || perfect {
                if b0 < u32::MAX { b0 + 1 } else { b0 }
            } else {
                0
            };
            self.state.back_to_back_special_clears = b2b;
            let bonus = score_bonus(n as u32, spin, perfect, combo, b2b);
            self.state.score = self.state.score.saturating_add(bonus);
            feedback.push((event_time, Feedback::Accolade {
                score_bonus: bonus,
                shape: p.shape,
                spin,
                lineclears: n as u32,
                perfect_clear: perfect,
                combo,
                back_to_back: b2b,
            }));
            feedback.push((event_time, Feedback::LineClears(rows, self.config.line_clear_delay)));
        } else {
            self.state.consecutive_line_clears = 0;
        }
        self.state.events.clear();
        if n > 0 {
            let t = later_exec(event_time, self.config.line_clear_delay);
            self.state.events.insert(InternalEvent::LineClear, t);
        } else {
            let t = later_exec(event_time, self.config.appearance_delay);
            self.state.events.insert(InternalEvent::Spawn, t);
        }
        self.state.active_piece_data = None;
        feedback
    }

    /// Calculates the newest locking details for the active piece, adding or removing its lock
    /// timer.
    fn calculate_locking_data(
        events: &mut EventMap,
        ground_time_max: GameTime,
        level: u32,
        event: InternalEvent,
        event_time: GameTime,
        prev_piece_data: Option<(ActivePiece, LockingData)>,
        next_piece: ActivePiece,
        touches_ground: bool,
    ) -> (r: LockingData)
        requires
            old(events).wf(),
            prev_piece_data matches Some((_, pl)) ==> locking_data_ok(pl),
        ensures
            final(events).wf(),
            r == locking_data_spec(prev_piece_data, next_piece, touches_ground, event_time, ground_time_max, level),
            r.touches_ground == touches_ground,
            locking_data_ok(r),
            final(events)@ == locking_events(old(events)@, event, prev_piece_data, next_piece, touches_ground, event_time, r, level),
    {
        if !touches_ground {
            match prev_piece_data {
                None => LockingData {
                    touches_ground: false,
                    last_touchdown: None,
                    last_liftoff: Some(event_time),
                    ground_time_left: ground_time_max,
                    lowest_y: next_piece.position.1,
                },
                Some((_, pl)) => if pl.touches_ground {
                    events.remove(InternalEvent::LockTimer);
                    LockingData { touches_ground: false, last_liftoff: Some(event_time), ..pl }
                } else {
                    pl
                },
            }
        } else {
            let next_locking_data = match prev_piece_data {
                Some((_, pl)) => if next_piece.position.1 >= pl.lowest_y {
                    if pl.touches_ground {
                        pl
                    } else {
                        let lo = match pl.last_liftoff {
                            Some(lo) => lo,
                            None => 0,
                        };
                        match pl.last_touchdown {
                            Some(td) => {
                                let two_drops: u64 = 2 * drop_delay(level, None);
                                if event_time.saturating_sub(lo) <= two_drops {
                                    LockingData {
                                        touches_ground: true,
                                        last_touchdown: pl.last_touchdown,
                                        last_liftoff: None,
                                        ground_time_left: pl.ground_time_left,
                                        lowest_y: pl.lowest_y,
                                    }
                                } else {
                                    let elapsed_ground_time = lo.saturating_sub(td);
                                    LockingData {
                                        touches_ground: true,
                                        last_touchdown: Some(event_time),
                                        last_liftoff: None,
                                        ground_time_left: pl.ground_time_left.saturating_sub(elapsed_ground_time),
                                        lowest_y: pl.lowest_y,
                                    }
                                }
                            },
                            None => LockingData { touches_ground: true, last_touchdown: Some(event_time), ..pl },
                        }
                    }
                } else {
                    LockingData {
                        touches_ground: true,
                        last_touchdown: Some(event_time),
                        last_liftoff: None,
                        ground_time_left: ground_time_max,
                        lowest_y: next_piece.position.1,
                    }
                },
                None => LockingData {
                    touches_ground: true,
                    last_touchdown: Some(event_time),
                    last_liftoff: None,
                    ground_time_left: ground_time_max,
                    lowest_y: next_piece.position.1,
                },
            };
            let repositioned = match prev_piece_data {
                Some((pp, _)) => !crate::pieces::same_piece(&pp, &next_piece),
                None => false,
            };
            let move_rotate = match event {
                InternalEvent::Rotate(_) | InternalEvent::MoveSlow | InternalEvent::MoveFast => true,
                _ => false,
            };
            if !events.contains_key(InternalEvent::LockTimer) || (repositioned && move_rotate) {
                let td = match next_locking_data.last_touchdown {
                    Some(td) => td,
                    None => 0,
                };
                let current_ground_time = event_time.saturating_sub(td);
                let remaining_ground_time = next_locking_data.ground_time_left.saturating_sub(current_ground_time);
                let ld = lock_delay(level);
                let lock_timer = if ld <= remaining_ground_time { ld } else { remaining_ground_time };
                events.insert(InternalEvent::LockTimer, later_exec(event_time, lock_timer));
            }
            next_locking_data
        }
    }
}

impl<S: TetrominoSampler> Game<S> {
    /// The game's configuration and state are consistent.
    pub open spec fn wf(&self) -> bool {
        &&& state_wf(self.config, self.state)
        &&& self.mode.start_level >= 1
        &&& pending_ok(self.state)
        &&& forall|i: int| 0 <= i < self.modifiers@.len() ==> (#[trigger] self.modifiers@[i]).wf()
    }

    /// Start a new game with the given mode and the default configuration.
    pub fn new(game_mode: GameMode, sampler: S) -> (r: Self)
        requires
            game_mode.start_level >= 1,
        ensures
            r.wf(),
            r.mode == game_mode,
            r.config.rotation_system == RotationSystem::Ocular,
            r.config.tetromino_generator is Recency,
            default_timings(r.config),
            r.state.time == 0,
            r.state.end is None,
            r.state.events@ == Map::<InternalEvent, GameTime>::empty().insert(InternalEvent::Spawn, 0),
            r.state.board@.len() == HEIGHT,
            forall|y: int| 0 <= y < HEIGHT ==> #[trigger] r.state.board@[y] == empty_line(),
            r.state.active_piece_data is None,
            r.state.buttons_pressed@ == seq![false, false, false, false, false, false, false, false],
            r.state.next_pieces@.len() == 0,
            r.state.pieces_played@ == seq![0u32, 0, 0, 0, 0, 0, 0],
            r.state.lines_cleared == 0,
            r.state.level == game_mode.start_level,
            r.state.score == 0,
            r.state.consecutive_line_clears == 0,
            r.state.back_to_back_special_clears == 0,
            r.modifiers@.len() == 0,
    {
        let config = GameConfig::default();
        Self::with_config(game_mode, config, sampler)
    }

    /// Start a new game with the given mode, configuration and source of random draws.
    pub fn with_config(game_mode: GameMode, config: GameConfig, sampler: S) -> (r: Self)
        requires
            game_mode.start_level >= 1,
            config.tetromino_generator.wf(),
        ensures
            r.wf(),
            r.config == config,
            r.mode == game_mode,
            r.state.time == 0,
            r.state.end is None,
            r.state.events@ == Map::<InternalEvent, GameTime>::empty().insert(InternalEvent::Spawn, 0),
            r.state.buttons_pressed@ == seq![false, false, false, false, false, false, false, false],
            r.state.board@.len() == HEIGHT,
            forall|y: int| 0 <= y < HEIGHT ==> #[trigger] r.state.board@[y] == empty_line(),
            r.state.active_piece_data is None,
            r.state.next_pieces@.len() == 0,
            r.state.pieces_played@ == seq![0u32, 0, 0, 0, 0, 0, 0],
            r.state.lines_cleared == 0,
            r.state.level == game_mode.start_level,
            r.state.score == 0,
            r.state.consecutive_line_clears == 0,
            r.state.back_to_back_special_clears == 0,
            r.modifiers@.len() == 0,
    {
        let mut events = EventMap::new();
        events.insert(InternalEvent::Spawn, 0);
        let mut board: Board = Vec::new();
        let mut y: usize = 0;
        while y < HEIGHT
            invariant
                y <= HEIGHT,
                board@.len() == y,
                forall|j: int| 0 <= j < y ==> #[trigger] board@[j] == empty_line(),
            decreases HEIGHT - y,
        {
            let line: Line = [None, None, None, None, None, None, None, None, None, None];
            board.push(line);
            y += 1;
        }
        let level = game_mode.start_level;
        let state = GameState {
            time: 0,
            end: None,
            events,
            buttons_pressed: [false, false, false, false, false, false, false, false],
            board,
            active_piece_data: None,
            next_pieces: VecDeque::new(),
            pieces_played: [0, 0, 0, 0, 0, 0, 0],
            lines_cleared: 0,
            level,
            score: 0,
            consecutive_line_clears: 0,
            back_to_back_special_clears: 0,
        };
        assert(state.buttons_pressed@ =~= seq![false, false, false, false, false, false, false, false]);
        assert(state.pieces_played@ =~= seq![0u32, 0, 0, 0, 0, 0, 0]);
        Game { config, mode: game_mode, state, sampler, modifiers: Vec::new() }
    }

    /// Adds a modifier, applied after the ones already added at every modifier point of later
    /// updates.
    pub fn add_modifier(&mut self, game_mod: GameModifier)
        requires
            old(self).wf(),
            game_mod.wf(),
        ensures
            final(self).wf(),
            final(self).modifiers@ == old(self).modifiers@.push(game_mod),
            final(self).config == old(self).config,
            final(self).mode == old(self).mode,
            final(self).state == old(self).state,
    {
        self.modifiers.push(game_mod);
    }

    /// Applies every modifier, in order, at a point of the update. (A modifier is skipped once
    /// more than `u32::MAX` pieces have been played.)
    fn apply_modifiers(&mut self, feedback_events: &mut FeedbackEvents, point: ModifierPoint)
        requires
            old(self).wf(),
        ensures
            final(self).wf(),
            final(self).mode == old(self).mode,
            final(self).state.time == old(self).state.time,
            final(self).modifiers@.len() == old(self).modifiers@.len(),
            !(point is AfterEvent) ==> final(self).state.events@ == old(self).state.events@
                && (final(self).state.active_piece_data is None <==> old(self).state.active_piece_data is None),
            !(point is BeforeEvent) ==> final(self).state.end == old(self).state.end,
            final(self).state.buttons_pressed == old(self).state.buttons_pressed,
            forall|lo: GameTime|
                lo <= old(self).state.time && #[trigger] chronological(old(feedback_events)@, lo, old(self).state.time)
                    ==> chronological(final(feedback_events)@, lo, old(self).state.time),
            old(self).modifiers@.len() == 0 ==> final(self).state == old(self).state
                && final(self).config == old(self).config
                && final(feedback_events)@ == old(feedback_events)@,
            modifiers_applied(
                old(self).modifiers@,
                final(self).modifiers@,
                old(self).config,
                final(self).config,
                old(self).state,
                final(self).state,
                *old(feedback_events),
                *final(feedback_events),
                point,
            ),
    {
        let ghost ms = self.modifiers@;
        let mut rest: Vec<GameModifier> = Vec::new();
        std::mem::swap(&mut rest, &mut self.modifiers);
        let mut done: Vec<GameModifier> = Vec::new();
        let ghost n = rest@.len();
        assert(ms.take(0) =~= Seq::<GameModifier>::empty());
        assert(rest@ =~= ms.skip(0));
        let ghost mut cs: Seq<GameConfig> = seq![self.config];
        let ghost mut ss: Seq<GameState> = seq![self.state];
        let ghost mut fbs: Seq<FeedbackEvents> = seq![*feedback_events];
        while rest.len() > 0
            invariant
                state_wf(self.config, self.state),
                self.mode == old(self).mode,
                self.mode.start_level >= 1,
                self.state.time == old(self).state.time,
                done@.len() + rest@.len() == n,
                n == old(self).modifiers@.len(),
                forall|i: int| 0 <= i < rest@.len() ==> (#[trigger] rest@[i]).wf(),
                forall|i: int| 0 <= i < done@.len() ==> (#[trigger] done@[i]).wf(),
                !(point is AfterEvent) ==> self.state.events@ == old(self).state.events@
                    && (self.state.active_piece_data is None <==> old(self).state.active_piece_data is None),
                !(point is BeforeEvent) ==> self.state.end == old(self).state.end,
                self.state.buttons_pressed == old(self).state.buttons_pressed,
                pending_ok(self.state),
                forall|lo: GameTime|
                    lo <= old(self).state.time && #[trigger] chronological(old(feedback_events)@, lo, old(self).state.time)
                        ==> chronological(feedback_events@, lo, old(self).state.time),
                n == 0 ==> self.state == old(self).state && self.config == old(self).config
                    && feedback_events@ == old(feedback_events)@,
                ms == old(self).modifiers@,
                rest@ == ms.skip(done@.len() as int),
                modifier_trace(ms.take(done@.len() as int), done@, cs, ss, fbs, point),
                cs[0] == old(self).config && cs.last() == self.config,
                ss[0] == old(self).state && ss.last() == self.state,
                fbs[0] == *old(feedback_events) && fbs.last() == *feedback_events,
            decreases rest@.len(),
        {
            let ghost k = done@.len() as int;
            let ghost c_prev = self.config;
            let ghost s_prev = self.state;
            let ghost fb_prev = *feedback_events;
            let ghost done_prev = done@;
            let mut m = rest.remove(0);
            let ghost m0 = m;
            assert(m0 == ms[k]);
            let p = &self.state.pieces_played;
            let total: u64 = p[0] as u64 + p[1] as u64 + p[2] as u64 + p[3] as u64 + p[4] as u64
                + p[5] as u64 + p[6] as u64;
            if total <= 0xFFFF_FFFF {
                m.modify(&mut self.config, &mut self.state, feedback_events, &point);
            }
            done.push(m);
            proof {
                assert(modifier_step(m0, m, c_prev, self.config, s_prev, self.state, fb_prev, *feedback_events, point));
                assert(rest@ =~= ms.skip(k + 1));
                let cs0 = cs;
                let ss0 = ss;
                let fbs0 = fbs;
                cs = cs.push(self.config);
                ss = ss.push(self.state);
                fbs = fbs.push(*feedback_events);
                let ms1 = ms.take(k + 1);
                assert forall|i: int| 0 <= i < ms1.len() implies #[trigger] modifier_step(
                    ms1[i],
                    done@[i],
                    cs[i],
                    cs[i + 1],
                    ss[i],
                    ss[i + 1],
                    fbs[i],
                    fbs[i + 1],
                    point,
                ) by {
                    if i < k {
                        assert(ms1[i] == ms.take(k)[i]);
                        assert(done@[i] == done_prev[i]);
                        assert(cs[i] == cs0[i] && cs[i + 1] == cs0[i + 1]);
                        assert(ss[i] == ss0[i] && ss[i + 1] == ss0[i + 1]);
                        assert(fbs[i] == fbs0[i] && fbs[i + 1] == fbs0[i + 1]);
                        assert(modifier_step(ms.take(k)[i], done_prev[i], cs0[i], cs0[i + 1], ss0[i], ss0[i + 1], fbs0[i], fbs0[i + 1], point));
                    } else {
                        assert(ms1[i] == m0);
                        assert(done@[i] == m);
                    }
                }
            }
        }
        proof {
            assert(ms.take(n as int) =~= ms);
        }
        self.modifiers = done;
    }

    /// Immediately end a game by forfeiting the current round.
    pub fn forfeit(&mut self)
        ensures
            final(self).modifiers == old(self).modifiers,
            final(self).state.end == Some(Err::<(), GameOver>(GameOver::Forfeit)),
            final(self).config == old(self).config,
            final(self).mode == old(self).mode,
            final(self).state == (GameState { end: Some(Err(GameOver::Forfeit)), ..old(self).state }),
    {
        self.state.end = Some(Err(GameOver::Forfeit));
    }

    /// Whether the game has ended, or whether it can continue to update.
    pub fn ended(&self) -> (r: bool)
        ensures
            r == self.state.end is Some,
    {
        self.state.end.is_some()
    }

    /// Immutable accessor for the current game configuration.
    pub fn config(&self) -> (r: &GameConfig)
        ensures
            *r == self.config,
    {
        &self.config
    }

    /// Mutable accessor for the current game configuration. (The game stays consistent only
    /// while its tetromino generator's state does.)
    pub fn config_mut(&mut self) -> (r: &mut GameConfig)
        ensures
            *r == old(self).config,
            *final(self) == (Game { config: *final(r), ..*old(self) }),
    {
        &mut self.config
    }

    /// Immutable accessor for the current game mode.
    pub fn mode(&self) -> (r: &GameMode)
        ensures
            *r == self.mode,
    {
        &self.mode
    }

    /// Immutable accessor for the current game state.
    pub fn state(&self) -> (r: &GameState)
        ensures
            *r == self.state,
    {
        &self.state
    }

    /// Advances the game state: handles, in order of time and event order, every pending event
    /// up to and including `update_time`; then, if `new_button_state` is given, applies the
    /// change of buttons at `update_time` (which may cause further events handled at that time).
    /// After each event, and when the update time is reached, the limits of the mode are
    /// checked. The game's modifiers are applied right before and after each event and each
    /// change of buttons (while a piece is in play). Returns the feedback events caused, in
    /// chronological order.
    ///
    /// Without modifiers, the score, lines and pieces played only grow, the level follows the
    /// lines cleared, and the configuration changes only in the generator's state.
    ///
    /// Errors with `DurationPassed` if `update_time` lies before the game's time, and with
    /// `GameEnded` if the game has already ended. Processing stops early only when the game
    /// ends, or with `EventLimit` after `u64::MAX` events have been handled in this one call.
    /// When it returns `Ok` with the game still running, the game's time is `update_time`,
    /// every event still pending lies after it, and the new buttons, if given, are held.
    #[verifier::rlimit(60)]
    pub fn update(&mut self, new_button_state: Option<ButtonsPressed>, update_time: GameTime) -> (r: Result<FeedbackEvents, GameUpdateError>)
        requires
            old(self).wf(),
        ensures
            final(self).wf(),
            final(self).mode == old(self).mode,
            update_time < old(self).state.time ==> r == Err::<FeedbackEvents, GameUpdateError>(GameUpdateError::DurationPassed)
                && final(self).state == old(self).state && final(self).config == old(self).config,
            update_time >= old(self).state.time && old(self).state.end is Some ==> r == Err::<FeedbackEvents, GameUpdateError>(GameUpdateError::GameEnded)
                && final(self).state == old(self).state && final(self).config == old(self).config,
            update_time >= old(self).state.time && old(self).state.end is None ==> {
                &&& (r is Ok || r == Err::<FeedbackEvents, GameUpdateError>(GameUpdateError::EventLimit))
                &&& old(self).state.time <= final(self).state.time <= update_time
                &&& exists|starts: Seq<GameSnapshot>, steps: Seq<UpdateStep>| {
                    &&& #[trigger] update_run(
                        old(self).mode,
                        new_button_state,
                        update_time,
                        old(self).modifiers@,
                        old(self).config,
                        old(self).state,
                        starts,
                        steps,
                    )
                    &&& update_finished(
                        old(self).mode,
                        new_button_state,
                        update_time,
                        starts,
                        steps,
                        final(self).modifiers@,
                        final(self).config,
                        final(self).state,
                        r,
                    )
                }
            },
            r is Ok && final(self).state.end is None ==> {
                &&& final(self).state.time == update_time
                &&& forall|e: InternalEvent| #[trigger] final(self).state.events@.contains_key(e)
                    ==> final(self).state.events@[e] > update_time
                &&& (new_button_state matches Some(b) ==> final(self).state.buttons_pressed == b)
            },
            final(self).modifiers@.len() == old(self).modifiers@.len(),
            old(self).modifiers@.len() == 0 ==> stats_progress(old(self).state, final(self).state, old(self).mode.increment_level)
                && config_kept(old(self).config, final(self).config),
            r matches Ok(fb) ==> chronological(fb@, old(self).state.time, final(self).state.time),
            final(self).state.buttons_pressed == old(self).state.buttons_pressed
                || new_button_state == Some(final(self).state.buttons_pressed),
    {
        if update_time < self.state.time {
            return Err(GameUpdateError::DurationPassed);
        }
        if self.ended() {
            return Err(GameUpdateError::GameEnded);
        }
        let mut feedback_events: FeedbackEvents = Vec::new();
        let mut buttons = new_button_state;
        let mut fuel: u64 = u64::MAX;
        let ghost mut starts: Seq<GameSnapshot> = seq![self.snapshot(feedback_events)];
        let ghost mut steps: Seq<UpdateStep> = Seq::empty();
        loop
            invariant
                old(self).state.end is None,
                self.state.end is None,
                self.wf(),
                self.mode == old(self).mode,
                old(self).state.time <= self.state.time <= update_time,
                self.modifiers@.len() == old(self).modifiers@.len(),
                old(self).modifiers@.len() == 0 ==> stats_progress(old(self).state, self.state, old(self).mode.increment_level)
                    && config_kept(old(self).config, self.config),
                chronological(feedback_events@, old(self).state.time, self.state.time),
                buttons == new_button_state || buttons is None,
                self.state.buttons_pressed == old(self).state.buttons_pressed
                    || new_button_state == Some(self.state.buttons_pressed),
                buttons is None ==> (new_button_state matches Some(b) ==> self.state.buttons_pressed == b),
                update_run(
                    old(self).mode,
                    new_button_state,
                    update_time,
                    old(self).modifiers@,
                    old(self).config,
                    old(self).state,
                    starts,
                    steps,
                ),
                starts.last() == self.snapshot(feedback_events),
                fuel as int == u64::MAX - steps.len(),
                buttons is Some ==> forall|k: int| 0 <= k < steps.len() ==> !(#[trigger] steps[k] is Buttons),
                buttons is None && new_button_state is Some ==> exists|k: int| 0 <= k < steps.len() && #[trigger] steps[k] is Buttons,
            decreases fuel,
        {
            if fuel == 0 {
                return Err(GameUpdateError::EventLimit);
            }
            fuel -= 1;
            let ghost g0 = self.snapshot(feedback_events);
            let next = self.state.events.first();
            let due = match next {
                Some((_, t)) => t <= update_time,
                None => false,
            };
            if due {
                let (event, event_time) = match next {
                    Some(n) => n,
                    None => (InternalEvent::Spawn, 0),
                };
                let ghost ev_first = self.state.events@;
                proof {
                    assert(ev_first.contains_key(event));
                }
                self.apply_modifiers(&mut feedback_events, ModifierPoint::BeforeEvent(event));
                let ghost before = self.snapshot(feedback_events);
                let ghost ev0 = self.state.events@;
                proof {
                    assert(ev0 == ev_first);
                    assert(ev0.contains_key(event));
                }
                self.state.events.remove(event);
                let ghost removed = self.state;
                proof {
                    let ev = self.state.events@;
                    assert forall|e: InternalEvent| #[trigger] ev.contains_key(e) implies event_time <= ev[e] by {
                        assert(ev0.contains_key(e) && e != event);
                        assert(scheduled_before(event, event_time, e, ev0[e]));
                    }
                }
                let ghost s_before = self.state;
                let mut fb = self.handle_event(event, event_time);
                let ghost s_handled = self.state;
                let ghost fb_handled = fb@;
                proof {
                    if old(self).modifiers@.len() == 0 {
                        lemma_stats_progress_trans(old(self).state, s_before, self.state, old(self).mode.increment_level);
                    }
                }
                proof {
                    lemma_chronological_weaken(feedback_events@, old(self).state.time, self.state.time, event_time);
                    lemma_chronological_append(feedback_events@, fb@, old(self).state.time, event_time);
                }
                self.state.time = event_time;
                let ghost fb_before = feedback_events@;
                feedback_events.append(&mut fb);
                let ghost handled = self.snapshot(feedback_events);
                proof {
                    let n = before.feedback@.len() as int;
                    assert(handled.feedback@.take(n) =~= before.feedback@);
                    assert(handled.feedback@.skip(n) =~= fb_handled);
                    assert(GameState { time: removed.time, ..handled.state } == s_handled);
                }
                self.apply_modifiers(&mut feedback_events, ModifierPoint::AfterEvent(event));
                let ghost after = self.snapshot(feedback_events);
                self.update_game_end();
                proof {
                    let step = UpdateStep::Event { event, time: event_time, before, removed, handled, after };
                    let g1 = self.snapshot(feedback_events);
                    assert(update_step_ok(old(self).mode, update_time, new_button_state, g0, step, g1)) by {
                        reveal(update_step_ok);
                    }
                    lemma_run_push(
                        old(self).mode,
                        new_button_state,
                        update_time,
                        old(self).modifiers@,
                        old(self).config,
                        old(self).state,
                        starts,
                        steps,
                        step,
                        g1,
                    );
                    let old_steps = steps;
                    starts = starts.push(g1);
                    steps = steps.push(step);
                    if buttons is None && new_button_state is Some {
                        let k = choose|k: int| 0 <= k < old_steps.len() && #[trigger] old_steps[k] is Buttons;
                        assert(steps[k] == old_steps[k]);
                    }
                    assert forall|k: int| 0 <= k < steps.len() && buttons is Some implies !(#[trigger] steps[k] is Buttons) by {
                        if k < old_steps.len() {
                            assert(steps[k] == old_steps[k]);
                        }
                    }
                }
                if self.ended() {
                    return Ok(feedback_events);
                }
            } else {
                proof {
                    lemma_chronological_weaken(feedback_events@, old(self).state.time, self.state.time, update_time);
                    if let Some((e0, t0)) = next {
                        assert forall|e: InternalEvent| #[trigger] self.state.events@.contains_key(e)
                            implies self.state.events@[e] > update_time by {
                            if e != e0 {
                                assert(scheduled_before(e0, t0, e, self.state.events@[e]));
                            }
                        }
                    } else {
                        assert(self.state.events@.dom().is_empty());
                    }
                }
                self.state.time = update_time;
                match buttons {
                    Some(bp) => {
                        buttons = None;
                        let ghost mut before = self.snapshot(feedback_events);
                        let ghost mut input = self.snapshot(feedback_events);
                        if self.state.active_piece_data.is_some() {
                            let before_buttons = self.state.buttons_pressed;
                            self.apply_modifiers(
                                &mut feedback_events,
                                ModifierPoint::BeforeButtonChange(before_buttons, bp),
                            );
                            proof {
                                before = self.snapshot(feedback_events);
                            }
                            self.add_input_events(bp, update_time);
                            proof {
                                input = self.snapshot(feedback_events);
                            }
                            self.apply_modifiers(&mut feedback_events, ModifierPoint::AfterButtonChange);
                        }
                        let ghost after = self.snapshot(feedback_events);
                        self.state.buttons_pressed = bp;
                        proof {
                            let step = UpdateStep::Buttons { buttons: bp, before, input, after };
                            let g1 = self.snapshot(feedback_events);
                            assert(update_step_ok(old(self).mode, update_time, new_button_state, g0, step, g1)) by {
                                reveal(update_step_ok);
                            }
                            lemma_run_push(
                                old(self).mode,
                                new_button_state,
                                update_time,
                                old(self).modifiers@,
                                old(self).config,
                                old(self).state,
                                starts,
                                steps,
                                step,
                                g1,
                            );
                            starts = starts.push(g1);
                            steps = steps.push(step);
                            assert(steps[steps.len() - 1] is Buttons);
                        }
                    },
                    None => {
                        self.update_game_end();
                        proof {
                            assert(update_finished(
                                old(self).mode,
                                new_button_state,
                                update_time,
                                starts,
                                steps,
                                self.modifiers@,
                                self.config,
                                self.state,
                                Ok::<FeedbackEvents, GameUpdateError>(feedback_events),
                            ));
                        }
                        return Ok(feedback_events);
                    },
                }
            }
        }
    }

    /// The parts of the game that an update changes, with the feedback collected so far.
    pub open spec fn snapshot(&self, feedback: FeedbackEvents) -> GameSnapshot {
        GameSnapshot { modifiers: self.modifiers@, config: self.config, state: self.state, feedback }
    }

    /// Updates the game end, checking whether any limit of the mode has been reached.
    fn update_game_end(&mut self)
        ensures
            final(self).modifiers == old(self).modifiers,
            final(self).state == (GameState {
                end: match old(self).state.end {
                    Some(e) => Some(e),
                    None => limit_outcome(old(self).mode, old(self).state),
                },
                ..old(self).state
            }),
            final(self).config == old(self).config,
            final(self).mode == old(self).mode,
    {
        if self.state.end.is_some() {
            return;
        }
        let ghost s = self.state;
        let ghost mode = self.mode;
        let time_hit: Option<bool> = match self.mode.limits.time {
            Some((win, dur)) => if dur <= self.state.time { Some(win) } else { None },
            None => None,
        };
        let p = &self.state.pieces_played;
        let total: u64 = p[0] as u64 + p[1] as u64 + p[2] as u64 + p[3] as u64 + p[4] as u64
            + p[5] as u64 + p[6] as u64;
        let pieces_hit: Option<bool> = match self.mode.limits.pieces {
            Some((win, pcs)) => if pcs as u64 <= total { Some(win) } else { None },
            None => None,
        };
        let lines_hit: Option<bool> = match self.mode.limits.lines {
            Some((win, lns)) => if lns <= self.state.lines_cleared { Some(win) } else { None },
            None => None,
        };
        let level_hit: Option<bool> = match self.mode.limits.level {
            Some((win, lvl)) => if lvl < self.state.level { Some(win) } else { None },
            None => None,
        };
        let score_hit: Option<bool> = match self.mode.limits.score {
            Some((win, pts)) => if pts <= self.state.score { Some(win) } else { None },
            None => None,
        };
        let first = if time_hit.is_some() {
            time_hit
        } else if pieces_hit.is_some() {
            pieces_hit
        } else if lines_hit.is_some() {
            lines_hit
        } else if level_hit.is_some() {
            level_hit
        } else {
            score_hit
        };
        proof {
            assert(time_hit == limit_hit(mode.limits.time, |d: GameTime| d <= s.time));
            assert(pieces_hit == limit_hit(mode.limits.pieces, |n: u32| n <= pieces_total(s.pieces_played@)));
            assert(lines_hit == limit_hit(mode.limits.lines, |n: usize| n <= s.lines_cleared));
            assert(level_hit == limit_hit(mode.limits.level, |l: u32| l < s.level));
            assert(score_hit == limit_hit(mode.limits.score, |n: u32| n <= s.score));
        }
        self.state.end = match first {
            Some(win) => Some(if win { Ok(()) } else { Err(GameOver::ModeLimit) }),
            None => None,
        };
    }

    /// Schedules the move, rotation and drop events caused by a change of the buttons pressed.
    fn add_input_events(&mut self, next_buttons_pressed: ButtonsPressed, update_time: GameTime)
        requires
            old(self).state.events.wf(),
        ensures
            final(self).modifiers == old(self).modifiers,
            final(self).state.events.wf(),
            final(self).state.events@ == input_events(
                old(self).state.events@,
                old(self).state.buttons_pressed,
                next_buttons_pressed,
                update_time,
                old(self).state.level,
            ),
            final(self).state == (GameState { events: final(self).state.events, ..old(self).state }),
            final(self).config == old(self).config,
            final(self).mode == old(self).mode,
    {
        let b0 = self.state.buttons_pressed;
        let level = self.state.level;
        schedule_moves(&mut self.state.events, &b0, &next_buttons_pressed, update_time);
        schedule_rotation(&mut self.state.events, &b0, &next_buttons_pressed, update_time);
        schedule_drops(&mut self.state.events, &b0, &next_buttons_pressed, update_time, level);
    }
}

} // verus!
