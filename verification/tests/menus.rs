use tetrs_engine::menus::{
    custom_game_mode, custom_setting_step, new_game_menu_step, next_limit, preset_mode,
    settings_menu_step, CustomModeSettings, GraphicsColor, GraphicsStyle, MenuKey, MenuSettings,
    NewGameAction, NewGameMenu, SettingsAction, SettingsMenu, Stat,
};
use tetrs_engine::game::Button;
use tetrs_engine::menus::{bind_key, controls_menu_step, ControlsAction, ControlsMenu};
use tetrs_engine::modes::{Limits, NANOS_PER_SEC};
use tetrs_engine::rotation::RotationSystem;

fn custom() -> CustomModeSettings {
    CustomModeSettings {
        name: "Custom".to_string(),
        start_level: 1,
        increment_level: true,
        mode_limit: Some(Stat::Lines(40)),
    }
}

#[test]
fn custom_mode_from_settings() {
    let mut s = custom();
    s.start_level = 5;
    s.mode_limit = Some(Stat::Score(9000));
    let m = custom_game_mode(&s);
    assert_eq!(m.name, "Custom");
    assert_eq!(m.start_level, 5);
    assert!(m.increment_level);
    assert_eq!(m.limits, Limits { score: Some((true, 9000)), ..Limits::default() });
    s.mode_limit = None;
    assert_eq!(custom_game_mode(&s).limits, Limits::default());
    s.mode_limit = Some(Stat::Time(7));
    assert_eq!(custom_game_mode(&s).limits, Limits { time: Some((true, 7)), ..Limits::default() });
}

#[test]
fn custom_settings_steps() {
    let s = custom();
    let up = custom_setting_step(s.clone(), 1, true);
    assert_eq!(up.start_level, 2);
    assert_eq!(custom_setting_step(up.clone(), 1, false).start_level, 1);
    assert_eq!(custom_setting_step(s.clone(), 1, false).start_level, 1);
    assert!(!custom_setting_step(s.clone(), 2, true).increment_level);
    assert_eq!(custom_setting_step(s.clone(), 3, true).mode_limit, Some(Stat::Lines(45)));
    assert_eq!(custom_setting_step(s.clone(), 3, false).mode_limit, Some(Stat::Lines(35)));
    let mut small = s.clone();
    small.mode_limit = Some(Stat::Score(100));
    assert_eq!(custom_setting_step(small.clone(), 3, false).mode_limit, Some(Stat::Score(0)));
    small.mode_limit = Some(Stat::Level(1));
    assert_eq!(custom_setting_step(small.clone(), 3, false).mode_limit, Some(Stat::Level(1)));
    small.mode_limit = Some(Stat::Time(u64::MAX - 1));
    assert_eq!(custom_setting_step(small, 3, true).mode_limit, Some(Stat::Time(u64::MAX)));
}

#[test]
fn limit_kinds_cycle() {
    let mut l = None;
    let mut seen = Vec::new();
    for _ in 0..6 {
        l = next_limit(l);
        seen.push(l);
    }
    assert_eq!(
        seen,
        vec![
            Some(Stat::Time(120 * NANOS_PER_SEC)),
            Some(Stat::Score(9000)),
            Some(Stat::Pieces(100)),
            Some(Stat::Lines(40)),
            Some(Stat::Level(25)),
            None,
        ]
    );
}

#[test]
fn new_game_menu_navigation() {
    let m = NewGameMenu::new();
    let (m1, _, a) = new_game_menu_step(m, custom(), MenuKey::Up);
    assert_eq!(m1.selected, 5);
    assert_eq!(a, NewGameAction::Stay);
    let (m2, _, a) = new_game_menu_step(m1, custom(), MenuKey::Down);
    assert_eq!(m2.selected, 0);
    assert_eq!(a, NewGameAction::Stay);
    assert_eq!(new_game_menu_step(m2, custom(), MenuKey::Enter).2, NewGameAction::StartPreset(0));
    let puzzle = NewGameMenu { selected: 4, selected_custom: 0 };
    assert_eq!(new_game_menu_step(puzzle, custom(), MenuKey::Enter).2, NewGameAction::StartPuzzle);
    assert_eq!(new_game_menu_step(m1, custom(), MenuKey::Enter).2, NewGameAction::StartCustom);
    assert_eq!(new_game_menu_step(m, custom(), MenuKey::Esc).2, NewGameAction::Back);
    assert_eq!(new_game_menu_step(m, custom(), MenuKey::Quit).2, NewGameAction::Quit);
    // Right on a preset does nothing.
    assert_eq!(new_game_menu_step(m, custom(), MenuKey::Right).0, m);
}

#[test]
fn new_game_menu_edits_the_custom_mode() {
    let m = NewGameMenu { selected: 5, selected_custom: 0 };
    let (m, s, _) = new_game_menu_step(m, custom(), MenuKey::Right);
    assert_eq!(m.selected_custom, 1);
    let (m, s, _) = new_game_menu_step(m, s, MenuKey::Up);
    assert_eq!(s.start_level, 2);
    assert_eq!(m.selected, 5);
    let (m, s, _) = new_game_menu_step(m, s, MenuKey::Right);
    let (m, s, _) = new_game_menu_step(m, s, MenuKey::Down);
    assert!(!s.increment_level);
    let (m, s, _) = new_game_menu_step(m, s, MenuKey::Right);
    assert_eq!(m.selected_custom, 3);
    let (m, s, _) = new_game_menu_step(m, s, MenuKey::Right);
    assert_eq!(s.mode_limit, Some(Stat::Level(25)));
    assert_eq!(m.selected_custom, 3);
    let (m, s, _) = new_game_menu_step(m, s, MenuKey::Left);
    assert_eq!(m.selected_custom, 2);
    let (m, _, _) = new_game_menu_step(m, s, MenuKey::Left);
    let (m, _, _) = new_game_menu_step(m, custom(), MenuKey::Left);
    assert_eq!(m.selected_custom, 0);
}

#[test]
fn preset_modes() {
    assert_eq!(preset_mode(0).name, "Marathon");
    assert_eq!(preset_mode(1).name, "40-Lines");
    assert_eq!(preset_mode(1).start_level, 3);
    assert_eq!(preset_mode(2).name, "Time Trial");
    assert_eq!(preset_mode(3).name, "Master");
}

#[test]
fn settings_menu_changes_settings() {
    let s = MenuSettings {
        graphics_style: GraphicsStyle::Unicode,
        graphics_color: GraphicsColor::Color16,
        show_fps: false,
        rotation_system: RotationSystem::Ocular,
        no_soft_drop_lock: false,
        save_data_on_exit: false,
    };
    let m = SettingsMenu { selected: 0 };
    assert_eq!(settings_menu_step(m, s, MenuKey::Enter).2, SettingsAction::ConfigureControls);
    assert_eq!(settings_menu_step(m, s, MenuKey::Up).0, SettingsMenu { selected: 7 });
    let (_, s1, _) = settings_menu_step(SettingsMenu { selected: 1 }, s, MenuKey::Right);
    assert_eq!(s1.graphics_style, GraphicsStyle::ASCII);
    let (_, s2, _) = settings_menu_step(SettingsMenu { selected: 2 }, s, MenuKey::Left);
    assert_eq!(s2.graphics_color, GraphicsColor::Monochrome);
    let (_, s3, _) = settings_menu_step(SettingsMenu { selected: 2 }, s, MenuKey::Right);
    assert_eq!(s3.graphics_color, GraphicsColor::ColorRGB);
    assert_eq!(settings_menu_step(SettingsMenu { selected: 3 }, s, MenuKey::Right).2, SettingsAction::FpsUp);
    assert_eq!(settings_menu_step(SettingsMenu { selected: 3 }, s, MenuKey::Left).2, SettingsAction::FpsDown);
    let (_, s4, _) = settings_menu_step(SettingsMenu { selected: 5 }, s, MenuKey::Right);
    assert_eq!(s4.rotation_system, RotationSystem::Classic);
    let (_, s5, _) = settings_menu_step(SettingsMenu { selected: 5 }, s, MenuKey::Left);
    assert_eq!(s5.rotation_system, RotationSystem::Super);
    let (_, s6, _) = settings_menu_step(SettingsMenu { selected: 7 }, s, MenuKey::Left);
    assert!(s6.save_data_on_exit);
    assert_eq!(settings_menu_step(SettingsMenu { selected: 7 }, s, MenuKey::Down).0, SettingsMenu { selected: 0 });
}

#[test]
fn controls_menu_and_key_binding() {
    let m = ControlsMenu { selected: 0 };
    assert_eq!(controls_menu_step(m, MenuKey::Up).0, ControlsMenu { selected: 8 });
    assert_eq!(controls_menu_step(m, MenuKey::Enter).1, ControlsAction::BindKeyTo(Button::MoveLeft));
    assert_eq!(controls_menu_step(ControlsMenu { selected: 7 }, MenuKey::Enter).1, ControlsAction::BindKeyTo(Button::DropSonic));
    assert_eq!(controls_menu_step(ControlsMenu { selected: 8 }, MenuKey::Enter).1, ControlsAction::ResetKeybinds);
    assert_eq!(controls_menu_step(ControlsMenu { selected: 8 }, MenuKey::Down).0, ControlsMenu { selected: 0 });
    let mut binds = vec![("a".to_string(), Button::RotateLeft), ("Left".to_string(), Button::MoveLeft)];
    bind_key(&mut binds, "a".to_string(), Button::DropHard);
    assert_eq!(binds, vec![("Left".to_string(), Button::MoveLeft), ("a".to_string(), Button::DropHard)]);
    bind_key(&mut binds, "s".to_string(), Button::DropSoft);
    assert_eq!(binds.len(), 3);
}
