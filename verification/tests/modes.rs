use tetrs_engine::modes::{GameMode, Gamemode, Limits, MeasureStat, LEVEL_20G, NANOS_PER_SEC};

#[test]
fn game_modes_of_the_engine() {
    let m = GameMode::marathon();
    assert_eq!(m.name, "Marathon");
    assert_eq!(m.start_level, 1);
    assert!(m.increment_level);
    assert_eq!(m.limits, Limits { level: Some((true, LEVEL_20G)), ..Default::default() });

    let s = GameMode::sprint(5);
    assert_eq!(s.name, "40-Lines");
    assert_eq!(s.start_level, 5);
    assert!(!s.increment_level);
    assert_eq!(s.limits.lines, Some((true, 40)));

    let u = GameMode::ultra(3);
    assert_eq!(u.limits.time, Some((true, 180 * NANOS_PER_SEC)));

    let ma = GameMode::master();
    assert_eq!(ma.start_level, 19);
    assert_eq!(ma.limits.lines, Some((true, 300)));

    let z = GameMode::zen();
    assert_eq!(z.name, "Endless");
    assert_eq!(z.limits, Limits::default());
}

#[test]
fn gamemodes_with_measure_stats() {
    let s = Gamemode::sprint(2);
    assert_eq!(s.name, "sprint");
    assert_eq!(s.limit, Some(MeasureStat::Lines(40)));
    assert_eq!(s.optimize, MeasureStat::Time(0));
    let u = Gamemode::ultra(1);
    assert_eq!(u.limit, Some(MeasureStat::Time(180 * NANOS_PER_SEC)));
    assert_eq!(u.optimize, MeasureStat::Lines(0));
    let m = Gamemode::marathon();
    assert_eq!(m.limit, Some(MeasureStat::Level(20)));
    assert_eq!(m.optimize, MeasureStat::Score(0));
    let e = Gamemode::endless();
    assert_eq!(e.limit, None);
    assert_eq!(e.optimize, MeasureStat::Pieces(0));
    let ma = Gamemode::master();
    assert_eq!(ma.start_level, 19);
    assert_eq!(ma.limit, Some(MeasureStat::Lines(300)));
}

#[test]
fn gamemode_equality_ignores_the_name() {
    let a = Gamemode::custom("one".to_string(), 3, true, None, MeasureStat::Score(0));
    let b = Gamemode::custom("two".to_string(), 3, true, None, MeasureStat::Score(0));
    assert!(a == b);
    let c = Gamemode::custom("one".to_string(), 4, true, None, MeasureStat::Score(0));
    assert!(a != c);
    assert!(Gamemode::endless() == Gamemode::custom(String::new(), 1, true, None, MeasureStat::Pieces(0)));
    assert!(Gamemode::sprint(1) != Gamemode::sprint(2));
}
