//! The menus of the terminal game as state machines: the new game menu with the custom mode's
//! settings, and the settings menu. Each step takes the menu's state and a key and gives the
//! next state and what the program is to do next.

use vstd::prelude::*;
use crate::modes::{GameMode, GameTime, Limits, NANOS_PER_SEC, no_limits};
use crate::rotation::RotationSystem;
use crate::game::Button;
use crate::scores::{compare_text, lemma_text_order};

verus! {

/// A statistic that limits a custom game.
#[derive(Clone, Copy, PartialEq, Eq, Structural, Debug, Hash)]
pub enum Stat {
    /// The time played, in nanoseconds.
    Time(GameTime),
    /// The number of pieces played.
    Pieces(u32),
    /// The number of lines cleared.
    Lines(usize),
    /// The level reached (never zero).
    Level(u32),
    /// The score reached.
    Score(u32),
}

/// The settings of the custom game mode.
#[derive(Clone, Debug)]
pub struct CustomModeSettings {
    /// The name given to the mode.
    pub name: String,
    /// The level at which a custom game starts (never zero).
    pub start_level: u32,
    /// Whether the level goes up with the lines cleared.
    pub increment_level: bool,
    /// The statistic whose value completes a custom game, if any.
    pub mode_limit: Option<Stat>,
}

/// The steps by which the custom settings change: five seconds of time, 200 points of score,
/// ten pieces, five lines and one level.
pub const STEP_TIME: GameTime = 5_000_000_000;
/// See [`STEP_TIME`].
pub const STEP_SCORE: u32 = 200;
/// See [`STEP_TIME`].
pub const STEP_PIECES: u32 = 10;
/// See [`STEP_TIME`].
pub const STEP_LINES: usize = 5;

/// Whether custom settings can make a game mode: the start level, and a level limit, are
/// never zero.
pub open spec fn custom_settings_ok(s: CustomModeSettings) -> bool {
    &&& s.start_level >= 1
    &&& (s.mode_limit matches Some(Stat::Level(l)) ==> l >= 1)
}

/// The limits of a custom game: reaching the chosen statistic completes it.
pub open spec fn limits_of(limit: Option<Stat>) -> Limits {
    match limit {
        Some(Stat::Time(t)) => Limits { time: Some((true, t)), ..no_limits() },
        Some(Stat::Pieces(n)) => Limits { pieces: Some((true, n)), ..no_limits() },
        Some(Stat::Lines(n)) => Limits { lines: Some((true, n)), ..no_limits() },
        Some(Stat::Level(l)) => Limits { level: Some((true, l)), ..no_limits() },
        Some(Stat::Score(n)) => Limits { score: Some((true, n)), ..no_limits() },
        None => no_limits(),
    }
}

/// The limits of a custom game, as [`limits_of`] gives them.
pub fn custom_limits(limit: Option<Stat>) -> (r: Limits)
    ensures
        r == limits_of(limit),
{
    let none = Limits { time: None, pieces: None, lines: None, level: None, score: None };
    match limit {
        Some(Stat::Time(t)) => Limits { time: Some((true, t)), ..none },
        Some(Stat::Pieces(n)) => Limits { pieces: Some((true, n)), ..none },
        Some(Stat::Lines(n)) => Limits { lines: Some((true, n)), ..none },
        Some(Stat::Level(l)) => Limits { level: Some((true, l)), ..none },
        Some(Stat::Score(n)) => Limits { score: Some((true, n)), ..none },
        None => none,
    }
}

/// The game mode that the custom settings describe.
pub fn custom_game_mode(s: &CustomModeSettings) -> (r: GameMode)
    requires
        custom_settings_ok(*s),
    ensures
        r.name@ == s.name@,
        r.start_level == s.start_level,
        r.increment_level == s.increment_level,
        r.limits == limits_of(s.mode_limit),
{
    GameMode {
        name: s.name.clone(),
        start_level: s.start_level,
        increment_level: s.increment_level,
        limits: custom_limits(s.mode_limit),
    }
}

/// A level one lower, but never below one.
pub open spec fn level_down(l: u32) -> u32 {
    if l > 1 { (l - 1) as u32 } else { 1 }
}

/// A level one higher, staying at `u32::MAX` once reached.
pub open spec fn level_up(l: u32) -> u32 {
    if l < u32::MAX { (l + 1) as u32 } else { l }
}

/// Whether raising the limit's value stays within its type (time saturates instead).
pub open spec fn limit_up_ok(limit: Option<Stat>) -> bool {
    match limit {
        Some(Stat::Pieces(n)) => n + STEP_PIECES <= u32::MAX,
        Some(Stat::Lines(n)) => n + STEP_LINES <= usize::MAX,
        Some(Stat::Score(n)) => n + STEP_SCORE <= u32::MAX,
        _ => true,
    }
}

/// The limit with its value raised (`up`) or lowered by one step; lowering stops at zero (at
/// one for a level), and raising a time or a level stops at the greatest value.
pub open spec fn limit_stepped(limit: Option<Stat>, up: bool) -> Option<Stat> {
    match limit {
        Some(Stat::Time(t)) => Some(Stat::Time(
            if up {
                if t + STEP_TIME <= u64::MAX { (t + STEP_TIME) as u64 } else { u64::MAX }
            } else {
                if t >= STEP_TIME { (t - STEP_TIME) as u64 } else { 0 }
            },
        )),
        Some(Stat::Pieces(n)) => Some(Stat::Pieces(
            if up { (n + STEP_PIECES) as u32 } else if n >= STEP_PIECES { (n - STEP_PIECES) as u32 } else { 0 },
        )),
        Some(Stat::Lines(n)) => Some(Stat::Lines(
            if up { (n + STEP_LINES) as usize } else if n >= STEP_LINES { (n - STEP_LINES) as usize } else { 0 },
        )),
        Some(Stat::Level(l)) => Some(Stat::Level(if up { level_up(l) } else { level_down(l) })),
        Some(Stat::Score(n)) => Some(Stat::Score(
            if up { (n + STEP_SCORE) as u32 } else if n >= STEP_SCORE { (n - STEP_SCORE) as u32 } else { 0 },
        )),
        None => None,
    }
}

/// The kind of limit that follows in the menu's cycle, with its starting value: time
/// (two minutes), score (9000), pieces (100), lines (40), level (25), none, and time again.
pub open spec fn next_limit_spec(limit: Option<Stat>) -> Option<Stat> {
    match limit {
        Some(Stat::Time(_)) => Some(Stat::Score(9000)),
        Some(Stat::Score(_)) => Some(Stat::Pieces(100)),
        Some(Stat::Pieces(_)) => Some(Stat::Lines(40)),
        Some(Stat::Lines(_)) => Some(Stat::Level(25)),
        Some(Stat::Level(_)) => None,
        None => Some(Stat::Time((120 * NANOS_PER_SEC) as u64)),
    }
}

/// The custom settings after the field `field` was raised (`up`) or lowered: field 1 is the
/// start level, field 2 the level increment (toggled either way), field 3 the limit's value.
/// Any other field leaves the settings as they are.
pub open spec fn custom_step_spec(s: CustomModeSettings, field: usize, up: bool) -> CustomModeSettings {
    if field == 1 {
        CustomModeSettings { start_level: if up { level_up(s.start_level) } else { level_down(s.start_level) }, ..s }
    } else if field == 2 {
        CustomModeSettings { increment_level: !s.increment_level, ..s }
    } else if field == 3 {
        CustomModeSettings { mode_limit: limit_stepped(s.mode_limit, up), ..s }
    } else {
        s
    }
}

/// Whether the step can be taken without overflow: raising a limit of pieces, lines or
/// score must stay within its type.
pub open spec fn custom_step_ok(s: CustomModeSettings, field: usize, up: bool) -> bool {
    field == 3 && up ==> limit_up_ok(s.mode_limit)
}

fn level_up_exec(l: u32) -> (r: u32)
    ensures
        r == level_up(l),
{
    if l < u32::MAX { l + 1 } else { l }
}

fn level_down_exec(l: u32) -> (r: u32)
    ensures
        r == level_down(l),
{
    if l > 1 { l - 1 } else { 1 }
}

/// The limit with its value raised or lowered by one step, as [`limit_stepped`] gives it.
fn step_limit(limit: Option<Stat>, up: bool) -> (r: Option<Stat>)
    requires
        up ==> limit_up_ok(limit),
    ensures
        r == limit_stepped(limit, up),
{
    match limit {
        Some(Stat::Time(t)) => Some(Stat::Time(if up { t.saturating_add(STEP_TIME) } else { t.saturating_sub(STEP_TIME) })),
        Some(Stat::Pieces(n)) => Some(Stat::Pieces(if up { n + STEP_PIECES } else { n.saturating_sub(STEP_PIECES) })),
        Some(Stat::Lines(n)) => Some(Stat::Lines(if up { n + STEP_LINES } else { n.saturating_sub(STEP_LINES) })),
        Some(Stat::Level(l)) => Some(Stat::Level(if up { level_up_exec(l) } else { level_down_exec(l) })),
        Some(Stat::Score(n)) => Some(Stat::Score(if up { n + STEP_SCORE } else { n.saturating_sub(STEP_SCORE) })),
        None => None,
    }
}

/// The kind of limit that follows in the menu's cycle, as [`next_limit_spec`] gives it.
pub fn next_limit(limit: Option<Stat>) -> (r: Option<Stat>)
    ensures
        r == next_limit_spec(limit),
{
    match limit {
        Some(Stat::Time(_)) => Some(Stat::Score(9000)),
        Some(Stat::Score(_)) => Some(Stat::Pieces(100)),
        Some(Stat::Pieces(_)) => Some(Stat::Lines(40)),
        Some(Stat::Lines(_)) => Some(Stat::Level(25)),
        Some(Stat::Level(_)) => None,
        None => Some(Stat::Time(120 * NANOS_PER_SEC)),
    }
}

/// Raises (`up`) or lowers the field `field` of the custom settings by one step.
pub fn custom_setting_step(s: CustomModeSettings, field: usize, up: bool) -> (r: CustomModeSettings)
    requires
        custom_step_ok(s, field, up),
    ensures
        r == custom_step_spec(s, field, up),
{
    if field == 1 {
        let start_level = if up { level_up_exec(s.start_level) } else { level_down_exec(s.start_level) };
        CustomModeSettings { start_level, ..s }
    } else if field == 2 {
        CustomModeSettings { increment_level: !s.increment_level, ..s }
    } else if field == 3 {
        let mode_limit = step_limit(s.mode_limit, up);
        CustomModeSettings { mode_limit, ..s }
    } else {
        s
    }
}

/// The steps keep custom settings able to make a game mode.
pub proof fn lemma_custom_step_ok(s: CustomModeSettings, field: usize, up: bool)
    requires
        custom_settings_ok(s),
    ensures
        custom_settings_ok(custom_step_spec(s, field, up)),
        custom_settings_ok(CustomModeSettings { mode_limit: next_limit_spec(s.mode_limit), ..s }),
{
}

/// The keys a menu reacts to.
#[derive(Clone, Copy, PartialEq, Eq, Structural, Debug, Hash)]
pub enum MenuKey {
    /// Arrow up.
    Up,
    /// Arrow down.
    Down,
    /// Arrow left.
    Left,
    /// Arrow right.
    Right,
    /// Enter: select.
    Enter,
    /// Escape: leave the menu.
    Esc,
    /// Ctrl-C: quit the program.
    Quit,
}

/// The number of entries of the new game menu: the four preset modes, the puzzle mode and
/// the custom mode.
pub const NEW_GAME_ENTRIES: usize = 6;

/// The entry of the puzzle mode.
pub const PUZZLE_ENTRY: usize = 4;

/// The entry of the custom mode.
pub const CUSTOM_ENTRY: usize = 5;

/// The number of positions of the custom mode's field selector: none, start level, level
/// increment and limit.
pub const CUSTOM_FIELDS: usize = 4;

/// Where the selection of the new game menu stands.
#[derive(Clone, Copy, PartialEq, Eq, Structural, Debug, Hash)]
pub struct NewGameMenu {
    /// The selected entry: a preset mode (`0..4`), the puzzle mode or the custom mode.
    pub selected: usize,
    /// The selected field of the custom mode (`0` for none).
    pub selected_custom: usize,
}

impl NewGameMenu {
    /// The selection is within the menu.
    pub open spec fn wf(self) -> bool {
        self.selected < NEW_GAME_ENTRIES && self.selected_custom < CUSTOM_FIELDS
    }

    /// The menu as it opens: the first entry selected, no field.
    pub fn new() -> (r: Self)
        ensures
            r == (NewGameMenu { selected: 0, selected_custom: 0 }),
            r.wf(),
    {
        NewGameMenu { selected: 0, selected_custom: 0 }
    }
}

/// What the program does after a key in the new game menu.
#[derive(Clone, Copy, PartialEq, Eq, Structural, Debug, Hash)]
pub enum NewGameAction {
    /// Stay in the menu.
    Stay,
    /// Leave the menu.
    Back,
    /// Quit the program.
    Quit,
    /// Start a game of the preset mode with this index (see [`preset_mode`]).
    StartPreset(usize),
    /// Start a game of the puzzle mode.
    StartPuzzle,
    /// Start a game of the custom mode.
    StartCustom,
}

/// The next state of the new game menu, of the custom settings, and what to do, after a key:
/// up and down move the selection (cyclically) or, with a custom field selected, raise and
/// lower that field; left and right move between the custom fields (right on the limit
/// field changes the kind of limit); enter starts the selected mode.
pub open spec fn new_game_menu_spec(m: NewGameMenu, s: CustomModeSettings, key: MenuKey) -> (NewGameMenu, CustomModeSettings, NewGameAction) {
    match key {
        MenuKey::Quit => (m, s, NewGameAction::Quit),
        MenuKey::Esc => (m, s, NewGameAction::Back),
        MenuKey::Enter => (m, s, if m.selected == CUSTOM_ENTRY {
            NewGameAction::StartCustom
        } else if m.selected == PUZZLE_ENTRY {
            NewGameAction::StartPuzzle
        } else {
            NewGameAction::StartPreset(m.selected)
        }),
        MenuKey::Up => if m.selected_custom > 0 {
            (m, custom_step_spec(s, m.selected_custom, true), NewGameAction::Stay)
        } else {
            (NewGameMenu { selected: ((m.selected + NEW_GAME_ENTRIES - 1) % (NEW_GAME_ENTRIES as int)) as usize, ..m }, s, NewGameAction::Stay)
        },
        MenuKey::Down => if m.selected_custom > 0 {
            (m, custom_step_spec(s, m.selected_custom, false), NewGameAction::Stay)
        } else {
            (NewGameMenu { selected: ((m.selected + 1) % (NEW_GAME_ENTRIES as int)) as usize, ..m }, s, NewGameAction::Stay)
        },
        MenuKey::Left => if m.selected == CUSTOM_ENTRY && m.selected_custom > 0 {
            (NewGameMenu { selected_custom: ((m.selected_custom + CUSTOM_FIELDS - 1) % (CUSTOM_FIELDS as int)) as usize, ..m }, s, NewGameAction::Stay)
        } else {
            (m, s, NewGameAction::Stay)
        },
        MenuKey::Right => if m.selected == CUSTOM_ENTRY {
            if m.selected_custom == CUSTOM_FIELDS - 1 {
                (m, CustomModeSettings { mode_limit: next_limit_spec(s.mode_limit), ..s }, NewGameAction::Stay)
            } else {
                (NewGameMenu { selected_custom: (m.selected_custom + 1) as usize, ..m }, s, NewGameAction::Stay)
            }
        } else {
            (m, s, NewGameAction::Stay)
        },
    }
}

/// Whether the key can be taken in the new game menu without overflow.
pub open spec fn new_game_step_ok(m: NewGameMenu, s: CustomModeSettings, key: MenuKey) -> bool {
    m.selected_custom > 0 ==> custom_step_ok(s, m.selected_custom, key == MenuKey::Up)
}

/// Takes a key in the new game menu.
pub fn new_game_menu_step(m: NewGameMenu, s: CustomModeSettings, key: MenuKey) -> (r: (NewGameMenu, CustomModeSettings, NewGameAction))
    requires
        m.wf(),
        new_game_step_ok(m, s, key),
    ensures
        r == new_game_menu_spec(m, s, key),
        r.0.wf(),
{
    match key {
        MenuKey::Quit => (m, s, NewGameAction::Quit),
        MenuKey::Esc => (m, s, NewGameAction::Back),
        MenuKey::Enter => {
            let action = if m.selected == CUSTOM_ENTRY {
                NewGameAction::StartCustom
            } else if m.selected == PUZZLE_ENTRY {
                NewGameAction::StartPuzzle
            } else {
                NewGameAction::StartPreset(m.selected)
            };
            (m, s, action)
        },
        MenuKey::Up => if m.selected_custom > 0 {
            let f = m.selected_custom;
            (m, custom_setting_step(s, f, true), NewGameAction::Stay)
        } else {
            (NewGameMenu { selected: (m.selected + NEW_GAME_ENTRIES - 1) % NEW_GAME_ENTRIES, ..m }, s, NewGameAction::Stay)
        },
        MenuKey::Down => if m.selected_custom > 0 {
            let f = m.selected_custom;
            (m, custom_setting_step(s, f, false), NewGameAction::Stay)
        } else {
            (NewGameMenu { selected: (m.selected + 1) % NEW_GAME_ENTRIES, ..m }, s, NewGameAction::Stay)
        },
        MenuKey::Left => if m.selected == CUSTOM_ENTRY && m.selected_custom > 0 {
            (NewGameMenu { selected_custom: (m.selected_custom + CUSTOM_FIELDS - 1) % CUSTOM_FIELDS, ..m }, s, NewGameAction::Stay)
        } else {
            (m, s, NewGameAction::Stay)
        },
        MenuKey::Right => if m.selected == CUSTOM_ENTRY {
            if m.selected_custom == CUSTOM_FIELDS - 1 {
                let mode_limit = next_limit(s.mode_limit);
                (m, CustomModeSettings { mode_limit, ..s }, NewGameAction::Stay)
            } else {
                (NewGameMenu { selected_custom: m.selected_custom + 1, ..m }, s, NewGameAction::Stay)
            }
        } else {
            (m, s, NewGameAction::Stay)
        },
    }
}

/// The preset modes of the new game menu: Marathon, 40-Lines and Time Trial starting at
/// level 3, and Master.
pub fn preset_mode(i: usize) -> (r: GameMode)
    requires
        i < PUZZLE_ENTRY,
    ensures
        i == 0 ==> r.name@ == "Marathon"@ && r.start_level == 1,
        i == 1 ==> r.name@ == "40-Lines"@ && r.start_level == 3,
        i == 2 ==> r.name@ == "Time Trial"@ && r.start_level == 3,
        i == 3 ==> r.name@ == "Master"@,
{
    match i {
        0 => GameMode::marathon(),
        1 => GameMode::sprint(3),
        2 => GameMode::ultra(3),
        _ => GameMode::master(),
    }
}

/// How the board and its frame are drawn.
#[derive(Clone, Copy, PartialEq, Eq, Structural, Debug, Hash)]
pub enum GraphicsStyle {
    /// Plain ASCII characters.
    ASCII,
    /// Unicode block characters.
    Unicode,
}

/// Which colors tiles are drawn in.
#[derive(Clone, Copy, PartialEq, Eq, Structural, Debug, Hash)]
pub enum GraphicsColor {
    /// No colors.
    Monochrome,
    /// The sixteen terminal colors.
    Color16,
    /// Full RGB colors.
    ColorRGB,
}

/// The settings that the settings menu edits (the frame rate, a floating-point value, is
/// changed by the caller when asked to).
#[derive(Clone, Copy, PartialEq, Eq, Structural, Debug, Hash)]
pub struct MenuSettings {
    /// How the board is drawn.
    pub graphics_style: GraphicsStyle,
    /// Which colors tiles are drawn in.
    pub graphics_color: GraphicsColor,
    /// Whether the frame rate is shown.
    pub show_fps: bool,
    /// The rotation system of new games.
    pub rotation_system: RotationSystem,
    /// Whether soft drop does not lock a piece on the ground.
    pub no_soft_drop_lock: bool,
    /// Whether the save file is kept on exit.
    pub save_data_on_exit: bool,
}

/// The number of entries of the settings menu: controls, graphics, color, frame rate, show
/// frame rate, rotation system, soft drop lock and save file.
pub const SETTINGS_ENTRIES: usize = 8;

/// Where the selection of the settings menu stands.
#[derive(Clone, Copy, PartialEq, Eq, Structural, Debug, Hash)]
pub struct SettingsMenu {
    /// The selected entry.
    pub selected: usize,
}

impl SettingsMenu {
    /// The selection is within the menu.
    pub open spec fn wf(self) -> bool {
        self.selected < SETTINGS_ENTRIES
    }
}

/// What the program does after a key in the settings menu.
#[derive(Clone, Copy, PartialEq, Eq, Structural, Debug, Hash)]
pub enum SettingsAction {
    /// Stay in the menu.
    Stay,
    /// Leave the menu.
    Back,
    /// Quit the program.
    Quit,
    /// Open the controls menu.
    ConfigureControls,
    /// Raise the frame rate by one.
    FpsUp,
    /// Lower the frame rate by one, if it is at least one.
    FpsDown,
}

/// The graphics style after the other one.
pub open spec fn other_style(g: GraphicsStyle) -> GraphicsStyle {
    match g {
        GraphicsStyle::ASCII => GraphicsStyle::Unicode,
        GraphicsStyle::Unicode => GraphicsStyle::ASCII,
    }
}

/// The color setting after (`forward`) or before the given one in the cycle monochrome,
/// sixteen colors, RGB.
pub open spec fn cycled_color(c: GraphicsColor, forward: bool) -> GraphicsColor {
    match c {
        GraphicsColor::Monochrome => if forward { GraphicsColor::Color16 } else { GraphicsColor::ColorRGB },
        GraphicsColor::Color16 => if forward { GraphicsColor::ColorRGB } else { GraphicsColor::Monochrome },
        GraphicsColor::ColorRGB => if forward { GraphicsColor::Monochrome } else { GraphicsColor::Color16 },
    }
}

/// The rotation system after (`forward`) or before the given one in the cycle Ocular,
/// Classic, Super.
pub open spec fn cycled_rotation(r: RotationSystem, forward: bool) -> RotationSystem {
    match r {
        RotationSystem::Ocular => if forward { RotationSystem::Classic } else { RotationSystem::Super },
        RotationSystem::Classic => if forward { RotationSystem::Super } else { RotationSystem::Ocular },
        RotationSystem::Super => if forward { RotationSystem::Ocular } else { RotationSystem::Classic },
    }
}

/// The settings and what to do after the selected entry was changed forward (right) or
/// backward (left).
pub open spec fn changed_setting(selected: usize, s: MenuSettings, forward: bool) -> (MenuSettings, SettingsAction) {
    if selected == 1 {
        (MenuSettings { graphics_style: other_style(s.graphics_style), ..s }, SettingsAction::Stay)
    } else if selected == 2 {
        (MenuSettings { graphics_color: cycled_color(s.graphics_color, forward), ..s }, SettingsAction::Stay)
    } else if selected == 3 {
        (s, if forward { SettingsAction::FpsUp } else { SettingsAction::FpsDown })
    } else if selected == 4 {
        (MenuSettings { show_fps: !s.show_fps, ..s }, SettingsAction::Stay)
    } else if selected == 5 {
        (MenuSettings { rotation_system: cycled_rotation(s.rotation_system, forward), ..s }, SettingsAction::Stay)
    } else if selected == 6 {
        (MenuSettings { no_soft_drop_lock: !s.no_soft_drop_lock, ..s }, SettingsAction::Stay)
    } else if selected == 7 {
        (MenuSettings { save_data_on_exit: !s.save_data_on_exit, ..s }, SettingsAction::Stay)
    } else {
        (s, SettingsAction::Stay)
    }
}

/// The next state of the settings menu, the settings, and what to do, after a key: up and
/// down move the selection (cyclically), right and left change the selected setting, enter
/// on the first entry opens the controls menu.
pub open spec fn settings_menu_spec(m: SettingsMenu, s: MenuSettings, key: MenuKey) -> (SettingsMenu, MenuSettings, SettingsAction) {
    match key {
        MenuKey::Quit => (m, s, SettingsAction::Quit),
        MenuKey::Esc => (m, s, SettingsAction::Back),
        MenuKey::Enter => (m, s, if m.selected == 0 { SettingsAction::ConfigureControls } else { SettingsAction::Stay }),
        MenuKey::Up => (SettingsMenu { selected: ((m.selected + SETTINGS_ENTRIES - 1) % (SETTINGS_ENTRIES as int)) as usize }, s, SettingsAction::Stay),
        MenuKey::Down => (SettingsMenu { selected: ((m.selected + 1) % (SETTINGS_ENTRIES as int)) as usize }, s, SettingsAction::Stay),
        MenuKey::Right => {
            let (s2, a) = changed_setting(m.selected, s, true);
            (m, s2, a)
        },
        MenuKey::Left => {
            let (s2, a) = changed_setting(m.selected, s, false);
            (m, s2, a)
        },
    }
}

fn change_setting(selected: usize, s: MenuSettings, forward: bool) -> (r: (MenuSettings, SettingsAction))
    ensures
        r == changed_setting(selected, s, forward),
{
    if selected == 1 {
        let graphics_style = match s.graphics_style {
            GraphicsStyle::ASCII => GraphicsStyle::Unicode,
            GraphicsStyle::Unicode => GraphicsStyle::ASCII,
        };
        (MenuSettings { graphics_style, ..s }, SettingsAction::Stay)
    } else if selected == 2 {
        let graphics_color = match s.graphics_color {
            GraphicsColor::Monochrome => if forward { GraphicsColor::Color16 } else { GraphicsColor::ColorRGB },
            GraphicsColor::Color16 => if forward { GraphicsColor::ColorRGB } else { GraphicsColor::Monochrome },
            GraphicsColor::ColorRGB => if forward { GraphicsColor::Monochrome } else { GraphicsColor::Color16 },
        };
        (MenuSettings { graphics_color, ..s }, SettingsAction::Stay)
    } else if selected == 3 {
        (s, if forward { SettingsAction::FpsUp } else { SettingsAction::FpsDown })
    } else if selected == 4 {
        (MenuSettings { show_fps: !s.show_fps, ..s }, SettingsAction::Stay)
    } else if selected == 5 {
        let rotation_system = match s.rotation_system {
            RotationSystem::Ocular => if forward { RotationSystem::Classic } else { RotationSystem::Super },
            RotationSystem::Classic => if forward { RotationSystem::Super } else { RotationSystem::Ocular },
            RotationSystem::Super => if forward { RotationSystem::Ocular } else { RotationSystem::Classic },
        };
        (MenuSettings { rotation_system, ..s }, SettingsAction::Stay)
    } else if selected == 6 {
        (MenuSettings { no_soft_drop_lock: !s.no_soft_drop_lock, ..s }, SettingsAction::Stay)
    } else if selected == 7 {
        (MenuSettings { save_data_on_exit: !s.save_data_on_exit, ..s }, SettingsAction::Stay)
    } else {
        (s, SettingsAction::Stay)
    }
}

/// Takes a key in the settings menu.
pub fn settings_menu_step(m: SettingsMenu, s: MenuSettings, key: MenuKey) -> (r: (SettingsMenu, MenuSettings, SettingsAction))
    requires
        m.wf(),
    ensures
        r == settings_menu_spec(m, s, key),
        r.0.wf(),
{
    match key {
        MenuKey::Quit => (m, s, SettingsAction::Quit),
        MenuKey::Esc => (m, s, SettingsAction::Back),
        MenuKey::Enter => (m, s, if m.selected == 0 { SettingsAction::ConfigureControls } else { SettingsAction::Stay }),
        MenuKey::Up => (SettingsMenu { selected: (m.selected + SETTINGS_ENTRIES - 1) % SETTINGS_ENTRIES }, s, SettingsAction::Stay),
        MenuKey::Down => (SettingsMenu { selected: (m.selected + 1) % SETTINGS_ENTRIES }, s, SettingsAction::Stay),
        MenuKey::Right => {
            let (s2, a) = change_setting(m.selected, s, true);
            (m, s2, a)
        },
        MenuKey::Left => {
            let (s2, a) = change_setting(m.selected, s, false);
            (m, s2, a)
        },
    }
}


/// The buttons in the order the controls menu lists them.
pub open spec fn control_button(i: int) -> Button {
    if i == 0 {
        Button::MoveLeft
    } else if i == 1 {
        Button::MoveRight
    } else if i == 2 {
        Button::RotateLeft
    } else if i == 3 {
        Button::RotateRight
    } else if i == 4 {
        Button::RotateAround
    } else if i == 5 {
        Button::DropSoft
    } else if i == 6 {
        Button::DropHard
    } else {
        Button::DropSonic
    }
}

/// The number of entries of the controls menu: the eight buttons and the reset entry.
pub const CONTROLS_ENTRIES: usize = 9;

/// Where the selection of the controls menu stands.
#[derive(Clone, Copy, PartialEq, Eq, Structural, Debug, Hash)]
pub struct ControlsMenu {
    /// The selected entry: a button (`0..8`) or the reset entry.
    pub selected: usize,
}

impl ControlsMenu {
    /// The selection is within the menu.
    pub open spec fn wf(self) -> bool {
        self.selected < CONTROLS_ENTRIES
    }
}

/// What the program does after a key in the controls menu.
#[derive(Clone, Copy, PartialEq, Eq, Structural, Debug, Hash)]
pub enum ControlsAction {
    /// Stay in the menu.
    Stay,
    /// Leave the menu.
    Back,
    /// Quit the program.
    Quit,
    /// Wait for a key and bind it to the button.
    BindKeyTo(Button),
    /// Put back the default key bindings.
    ResetKeybinds,
}

/// The next state of the controls menu and what to do, after a key: up and down move the
/// selection (cyclically); enter on a button asks for a key to bind to it, on the last entry
/// resets the bindings.
pub open spec fn controls_menu_spec(m: ControlsMenu, key: MenuKey) -> (ControlsMenu, ControlsAction) {
    match key {
        MenuKey::Quit => (m, ControlsAction::Quit),
        MenuKey::Esc => (m, ControlsAction::Back),
        MenuKey::Enter => (m, if m.selected == CONTROLS_ENTRIES - 1 {
            ControlsAction::ResetKeybinds
        } else {
            ControlsAction::BindKeyTo(control_button(m.selected as int))
        }),
        MenuKey::Up => (ControlsMenu { selected: ((m.selected + CONTROLS_ENTRIES - 1) % (CONTROLS_ENTRIES as int)) as usize }, ControlsAction::Stay),
        MenuKey::Down => (ControlsMenu { selected: ((m.selected + 1) % (CONTROLS_ENTRIES as int)) as usize }, ControlsAction::Stay),
        _ => (m, ControlsAction::Stay),
    }
}

fn control_button_of(i: usize) -> (r: Button)
    ensures
        r == control_button(i as int),
{
    match i {
        0 => Button::MoveLeft,
        1 => Button::MoveRight,
        2 => Button::RotateLeft,
        3 => Button::RotateRight,
        4 => Button::RotateAround,
        5 => Button::DropSoft,
        6 => Button::DropHard,
        _ => Button::DropSonic,
    }
}

/// Takes a key in the controls menu.
pub fn controls_menu_step(m: ControlsMenu, key: MenuKey) -> (r: (ControlsMenu, ControlsAction))
    requires
        m.wf(),
    ensures
        r == controls_menu_spec(m, key),
        r.0.wf(),
{
    match key {
        MenuKey::Quit => (m, ControlsAction::Quit),
        MenuKey::Esc => (m, ControlsAction::Back),
        MenuKey::Enter => {
            let action = if m.selected == CONTROLS_ENTRIES - 1 {
                ControlsAction::ResetKeybinds
            } else {
                ControlsAction::BindKeyTo(control_button_of(m.selected))
            };
            (m, action)
        },
        MenuKey::Up => (ControlsMenu { selected: (m.selected + CONTROLS_ENTRIES - 1) % CONTROLS_ENTRIES }, ControlsAction::Stay),
        MenuKey::Down => (ControlsMenu { selected: (m.selected + 1) % CONTROLS_ENTRIES }, ControlsAction::Stay),
        _ => (m, ControlsAction::Stay),
    }
}

/// The key bindings without those of the key named `key`, in order.
pub open spec fn without_key(binds: Seq<(String, Button)>, key: Seq<char>) -> Seq<(String, Button)>
    decreases binds.len(),
{
    if binds.len() == 0 {
        Seq::empty()
    } else {
        let rest = without_key(binds.drop_last(), key);
        if binds.last().0@ == key { rest } else { rest.push(binds.last()) }
    }
}

/// Binds the key named `key` to `button`: a binding the key had before is replaced, every
/// other binding is kept in order, and the new one comes last.
pub fn bind_key(binds: &mut Vec<(String, Button)>, key: String, button: Button)
    ensures
        final(binds)@ == without_key(old(binds)@, key@).push((key, button)),
{
    let ghost all = binds@;
    let mut rest: Vec<(String, Button)> = Vec::new();
    std::mem::swap(&mut rest, binds);
    let mut i: usize = 0;
    assert(all.take(0) =~= Seq::<(String, Button)>::empty());
    while i < rest.len()
        invariant
            rest@ == all,
            i <= rest@.len(),
            binds@ == without_key(all.take(i as int), key@),
        decreases rest@.len() - i,
    {
        let same = compare_text(rest[i].0.as_str(), key.as_str());
        proof {
            lemma_text_order(rest@[i as int].0@, key@);
            assert(all.take(i + 1).drop_last() =~= all.take(i as int));
        }
        if same != 0 {
            let name = rest[i].0.clone();
            let b = rest[i].1;
            binds.push((name, b));
        }
        i += 1;
    }
    assert(all.take(i as int) =~= all);
    binds.push((key, button));
}

} // verus!
