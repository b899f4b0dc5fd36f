//! Game modes: which round is played, at what level it starts and how it may end.

use vstd::prelude::*;
use vstd::std_specs::cmp::PartialEqSpecImpl;

verus! {

/// Game time, in nanoseconds since the game started.
pub type GameTime = u64;

/// Nanoseconds in one millisecond.
pub const NANOS_PER_MILLI: u64 = 1_000_000;

/// Nanoseconds in one second.
pub const NANOS_PER_SEC: u64 = 1_000_000_000;

/// The level at which pieces fall with "20G", one grid cell per frame or faster.
pub const LEVEL_20G: u32 = 19;

/// Stores the ways in which a round of the game should be limited.
///
/// Each limitation may be either positive ('game completed') or negative ('game over'), as
/// designated by the `bool` stored with it. No limitations allow for endless games.
#[derive(Clone, Copy, PartialEq, Eq, Debug, Hash, Default, PartialOrd, Ord)]
pub struct Limits {
    /// The total time a round may be played.
    pub time: Option<(bool, GameTime)>,
    /// The total number of pieces locked that may be played.
    pub pieces: Option<(bool, u32)>,
    /// The total number of full lines that may be cleared.
    pub lines: Option<(bool, usize)>,
    /// The number of levels to reach (never zero).
    pub level: Option<(bool, u32)>,
    /// The number of game points to earn.
    pub score: Option<(bool, u32)>,
}

/// The playing configuration specific to the single, current round of play.
#[derive(Clone, PartialEq, Eq, Debug, Hash, PartialOrd, Ord)]
pub struct GameMode {
    /// Conventional name that may be given to an instance of this struct.
    pub name: String,
    /// The level at which a game should start (never zero).
    pub start_level: u32,
    /// Whether the level should be automatically incremented while the game plays.
    pub increment_level: bool,
    /// The limitations under which a game may end (un)successfully.
    pub limits: Limits,
}

/// No limits at all.
pub open spec fn no_limits() -> Limits {
    Limits { time: None, pieces: None, lines: None, level: None, score: None }
}

fn limits_none() -> (r: Limits)
    ensures
        r == no_limits(),
{
    Limits { time: None, pieces: None, lines: None, level: None, score: None }
}

impl GameMode {
    /// "Marathon" mode: starts at level 1, increments the level, completed after level 19.
    pub fn marathon() -> (r: Self)
        ensures
            r.name@ == "Marathon"@,
            r.start_level == 1,
            r.increment_level,
            r.limits == (Limits { level: Some((true, LEVEL_20G)), ..no_limits() }),
    {
        GameMode {
            name: "Marathon".to_owned(),
            start_level: 1,
            increment_level: true,
            limits: Limits { level: Some((true, LEVEL_20G)), ..limits_none() },
        }
    }

    /// "40-Lines" mode: starts at the given level, no level increment, completed after 40 lines.
    pub fn sprint(start_level: u32) -> (r: Self)
        requires
            start_level >= 1,
        ensures
            r.name@ == "40-Lines"@,
            r.start_level == start_level,
            !r.increment_level,
            r.limits == (Limits { lines: Some((true, 40usize)), ..no_limits() }),
    {
        GameMode {
            name: "40-Lines".to_owned(),
            start_level,
            increment_level: false,
            limits: Limits { lines: Some((true, 40)), ..limits_none() },
        }
    }

    /// "Time Trial" mode: starts at the given level, no level increment, completed after
    /// 180 seconds.
    pub fn ultra(start_level: u32) -> (r: Self)
        requires
            start_level >= 1,
        ensures
            r.name@ == "Time Trial"@,
            r.start_level == start_level,
            !r.increment_level,
            r.limits == (Limits { time: Some((true, (180 * NANOS_PER_SEC) as u64)), ..no_limits() }),
    {
        GameMode {
            name: "Time Trial".to_owned(),
            start_level,
            increment_level: false,
            limits: Limits { time: Some((true, 180 * NANOS_PER_SEC)), ..limits_none() },
        }
    }

    /// "Master" mode: starts at level 19, increments the level, completed after 300 lines.
    pub fn master() -> (r: Self)
        ensures
            r.name@ == "Master"@,
            r.start_level == LEVEL_20G,
            r.increment_level,
            r.limits == (Limits { lines: Some((true, 300usize)), ..no_limits() }),
    {
        GameMode {
            name: "Master".to_owned(),
            start_level: LEVEL_20G,
            increment_level: true,
            limits: Limits { lines: Some((true, 300)), ..limits_none() },
        }
    }

    /// "Endless" mode: starts at level 1, no level increment, no limits.
    pub fn zen() -> (r: Self)
        ensures
            r.name@ == "Endless"@,
            r.start_level == 1,
            !r.increment_level,
            r.limits == no_limits(),
    {
        GameMode {
            name: "Endless".to_owned(),
            start_level: 1,
            increment_level: false,
            limits: limits_none(),
        }
    }
}

/// A measurable statistic of a round: what limits a game mode, or what it optimizes for.
#[derive(Clone, Copy, PartialEq, Eq, Structural, Debug, Hash, PartialOrd, Ord)]
pub enum MeasureStat {
    /// Lines cleared.
    Lines(usize),
    /// Level reached (never zero).
    Level(u32),
    /// Score earned.
    Score(u32),
    /// Pieces played.
    Pieces(u32),
    /// Time played.
    Time(GameTime),
}

/// A game mode described by its name, its start level, whether it increases the level, the
/// statistic that ends it (if any) and the statistic a player tries to optimize.
///
/// Two game modes are equal when everything but their names agrees.
#[derive(Clone, Eq, Debug, Hash)]
pub struct Gamemode {
    /// Conventional name of the mode.
    pub name: String,
    /// The level at which a game starts (never zero).
    pub start_level: u32,
    /// Whether the level increases during play.
    pub increase_level: bool,
    /// The statistic whose value ends the game, if any.
    pub limit: Option<MeasureStat>,
    /// The statistic the player optimizes.
    pub optimize: MeasureStat,
}

/// Whether two optional statistics are equal.
fn same_limit(a: &Option<MeasureStat>, b: &Option<MeasureStat>) -> (r: bool)
    ensures
        r == (*a == *b),
{
    match (a, b) {
        (Some(x), Some(y)) => *x == *y,
        (None, None) => true,
        _ => false,
    }
}

impl PartialEq for Gamemode {
    fn eq(&self, other: &Self) -> (r: bool) {
        self.start_level == other.start_level && self.increase_level == other.increase_level
            && same_limit(&self.limit, &other.limit) && self.optimize == other.optimize
    }
}

impl PartialEqSpecImpl for Gamemode {
    open spec fn obeys_eq_spec() -> bool {
        true
    }

    open spec fn eq_spec(&self, other: &Self) -> bool {
        &&& self.start_level == other.start_level
        &&& self.increase_level == other.increase_level
        &&& self.limit == other.limit
        &&& self.optimize == other.optimize
    }
}

impl Gamemode {
    /// A game mode built from all of its parts.
    pub fn custom(
        name: String,
        start_level: u32,
        increase_level: bool,
        mode_limit: Option<MeasureStat>,
        optimization_goal: MeasureStat,
    ) -> (r: Self)
        requires
            start_level >= 1,
        ensures
            r.name@ == name@,
            r.start_level == start_level,
            r.increase_level == increase_level,
            r.limit == mode_limit,
            r.optimize == optimization_goal,
    {
        Gamemode { name, start_level, increase_level, limit: mode_limit, optimize: optimization_goal }
    }

    /// "sprint": no level increase, ends after 40 lines, optimizes time.
    pub fn sprint(start_level: u32) -> (r: Self)
        requires
            start_level >= 1,
        ensures
            r.name@ == "sprint"@,
            r.start_level == start_level,
            !r.increase_level,
            r.limit == Some(MeasureStat::Lines(40)),
            r.optimize == MeasureStat::Time(0),
    {
        Gamemode {
            name: "sprint".to_owned(),
            start_level,
            increase_level: false,
            limit: Some(MeasureStat::Lines(40)),
            optimize: MeasureStat::Time(0),
        }
    }

    /// "ultra": no level increase, ends after three minutes, optimizes lines.
    pub fn ultra(start_level: u32) -> (r: Self)
        requires
            start_level >= 1,
        ensures
            r.name@ == "ultra"@,
            r.start_level == start_level,
            !r.increase_level,
            r.limit == Some(MeasureStat::Time((180 * NANOS_PER_SEC) as u64)),
            r.optimize == MeasureStat::Lines(0),
    {
        Gamemode {
            name: "ultra".to_owned(),
            start_level,
            increase_level: false,
            limit: Some(MeasureStat::Time(180 * NANOS_PER_SEC)),
            optimize: MeasureStat::Lines(0),
        }
    }

    /// "marathon": starts at level 1, increases the level, ends on reaching the level after
    /// the 20G level, optimizes score.
    pub fn marathon() -> (r: Self)
        ensures
            r.name@ == "marathon"@,
            r.start_level == 1,
            r.increase_level,
            r.limit == Some(MeasureStat::Level((LEVEL_20G + 1) as u32)),
            r.optimize == MeasureStat::Score(0),
    {
        Gamemode {
            name: "marathon".to_owned(),
            start_level: 1,
            increase_level: true,
            limit: Some(MeasureStat::Level(LEVEL_20G.saturating_add(1))),
            optimize: MeasureStat::Score(0),
        }
    }

    /// "endless": starts at level 1, increases the level, never ends, optimizes pieces played.
    pub fn endless() -> (r: Self)
        ensures
            r.name@ == "endless"@,
            r.start_level == 1,
            r.increase_level,
            r.limit is None,
            r.optimize == MeasureStat::Pieces(0),
    {
        Gamemode {
            name: "endless".to_owned(),
            start_level: 1,
            increase_level: true,
            limit: None,
            optimize: MeasureStat::Pieces(0),
        }
    }

    /// "master": starts at the 20G level, increases the level, ends after 300 lines, optimizes
    /// score.
    pub fn master() -> (r: Self)
        ensures
            r.name@ == "master"@,
            r.start_level == LEVEL_20G,
            r.increase_level,
            r.limit == Some(MeasureStat::Lines(300)),
            r.optimize == MeasureStat::Score(0),
    {
        Gamemode {
            name: "master".to_owned(),
            start_level: LEVEL_20G,
            increase_level: true,
            limit: Some(MeasureStat::Lines(300)),
            optimize: MeasureStat::Score(0),
        }
    }
}

} // verus!
