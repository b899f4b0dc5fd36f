use tetrs_engine::game::GameOver;
use tetrs_engine::menus::MenuKey;
use tetrs_engine::modes::{GameMode, Limits};
use tetrs_engine::scores::{
    compare_games, compare_text, game_ended_lines, record_finished_game, scoreboard_entry, scores_step,
    scores_window, FinishedGame, GameTally, ScoresAction,
};

fn game(mode: &str, stamp: &str, completed: bool, level: u32, score: u32, lines: usize, time: u64) -> FinishedGame {
    FinishedGame {
        timestamp: stamp.to_string(),
        mode_name: mode.to_string(),
        end: Some(if completed { Ok(()) } else { Err(GameOver::BlockOut) }),
        time,
        score,
        lines,
        level,
        pieces: [0; 7],
        limits: Limits::default(),
    }
}

#[test]
fn text_order() {
    assert_eq!(compare_text("Master", "Marathon"), 1);
    assert_eq!(compare_text("Mara", "Marathon"), -1);
    assert_eq!(compare_text("40-Lines", "40-Lines"), 0);
    assert_eq!(compare_text("", ""), 0);
    assert_eq!(compare_text("b", "a"), 1);
}

#[test]
fn scoreboard_is_kept_in_order() {
    let mut past = Vec::new();
    record_finished_game(&mut past, game("Marathon", "2024-01-01 10:00", false, 5, 100, 40, 9));
    record_finished_game(&mut past, game("40-Lines", "2024-01-01 10:05", true, 1, 0, 40, 90));
    record_finished_game(&mut past, game("Marathon", "2024-01-01 10:10", false, 7, 50, 60, 9));
    record_finished_game(&mut past, game("Marathon", "2024-01-01 10:20", true, 19, 10, 190, 9));
    record_finished_game(&mut past, game("40-Lines", "2024-01-01 10:30", true, 1, 0, 40, 80));
    record_finished_game(&mut past, game("Marathon", "2024-01-01 10:40", false, 7, 80, 60, 9));
    let order: Vec<&str> = past.iter().map(|g| g.timestamp.as_str()).collect();
    assert_eq!(
        order,
        vec![
            "2024-01-01 10:30",
            "2024-01-01 10:05",
            "2024-01-01 10:20",
            "2024-01-01 10:40",
            "2024-01-01 10:10",
            "2024-01-01 10:00",
        ]
    );
    for w in past.windows(2) {
        assert!(compare_games(&w[0], &w[1]) <= 0);
    }
}

#[test]
fn scoreboard_orders_by_mode() {
    let a = game("Time Trial", "1", true, 1, 0, 30, 100);
    let b = game("Time Trial", "2", true, 1, 0, 40, 100);
    assert_eq!(compare_games(&b, &a), -1);
    let c = game("Master", "1", false, 20, 0, 120, 5);
    let d = game("Master", "2", false, 21, 0, 100, 1);
    assert_eq!(compare_games(&c, &d), -1);
    let e = game("Puzzle", "1", false, 3, 0, 0, 50);
    let f = game("Puzzle", "2", false, 3, 0, 0, 40);
    assert_eq!(compare_games(&f, &e), -1);
    let g = game("Puzzle", "1", false, 3, 0, 0, 50);
    assert_eq!(compare_games(&e, &g), 0);
    assert_eq!(compare_games(&e, &f), 1);
}

#[test]
fn equal_games_keep_the_order_they_came_in() {
    let mut past = Vec::new();
    record_finished_game(&mut past, game("Master", "a", false, 20, 1, 100, 5));
    record_finished_game(&mut past, game("Master", "b", false, 20, 2, 120, 5));
    // Same mode, completion, lines and timestamp as the first: it goes after it.
    let mut twin = game("Master", "a", false, 20, 99, 100, 5);
    twin.pieces = [1; 7];
    record_finished_game(&mut past, twin);
    let keys: Vec<(&str, u32)> = past.iter().map(|g| (g.timestamp.as_str(), g.score)).collect();
    assert_eq!(keys, vec![("b", 2), ("a", 1), ("a", 99)]);
}

#[test]
fn unsorted_scoreboard_is_put_in_order() {
    let mut past = vec![game("Master", "x", false, 20, 0, 10, 5), game("Master", "y", false, 20, 0, 90, 5)];
    record_finished_game(&mut past, game("Marathon", "z", true, 19, 0, 0, 5));
    let order: Vec<&str> = past.iter().map(|g| g.timestamp.as_str()).collect();
    assert_eq!(order, vec!["z", "y", "x"]);
}

fn with_mode(mut g: FinishedGame, mode: GameMode) -> FinishedGame {
    g.mode_name = mode.name.clone();
    g.limits = mode.limits;
    g
}

#[test]
fn scoreboard_entries() {
    let m = with_mode(game("", "2024-05-01 12:00", false, 7, 1234, 60, 0), GameMode::marathon());
    assert_eq!(scoreboard_entry(&m), "2024-05-01 12:00 ~ Marathon: 1234 pts (7/19 lvl)");
    let m2 = with_mode(game("", "t", true, 20, 5, 190, 0), GameMode::marathon());
    assert_eq!(scoreboard_entry(&m2), "t ~ Marathon: 5 pts");
    let sprint = with_mode(game("", "t", false, 1, 0, 12, 65_070_000_000), GameMode::sprint(1));
    assert_eq!(scoreboard_entry(&sprint), "t ~ 40-Lines: 1min 5.07sec (12/40 lns)");
    let ultra = with_mode(game("", "t", false, 1, 0, 33, 60_000_000_000), GameMode::ultra(1));
    assert_eq!(scoreboard_entry(&ultra), "t ~ Time Trial: 33 lns (1min 0.00sec / 3min 0.00sec)");
    let master = with_mode(game("", "t", false, 19, 0, 120, 0), GameMode::master());
    assert_eq!(scoreboard_entry(&master), "t ~ Master: 120/300 lns");
    let mut custom = game("Custom", "t", false, 3, 50, 8, 2_000_000_000);
    custom.pieces = [1, 2, 3, 0, 0, 0, 0];
    custom.limits = Limits { pieces: Some((true, 100)), lines: Some((true, 40)), ..Limits::default() };
    assert_eq!(scoreboard_entry(&custom), "t ~ Custom Mode: 8 lns, 50 pts, 0min 2.00sec (6/100 pcs)");
    custom.limits = Limits::default();
    assert_eq!(scoreboard_entry(&custom), "t ~ Custom Mode: 8 lns, 50 pts, 0min 2.00sec");
}

#[test]
fn scoreboard_scrolling() {
    assert_eq!(scores_window(20, 0, 16), (0, 16, 4));
    assert_eq!(scores_window(20, 4, 16), (4, 20, 0));
    assert_eq!(scores_window(3, 0, 16), (0, 3, 0));
    assert_eq!(scores_step(0, 20, MenuKey::Up), (0, ScoresAction::Stay));
    assert_eq!(scores_step(0, 20, MenuKey::Down), (1, ScoresAction::Stay));
    assert_eq!(scores_step(4, 20, MenuKey::Down), (4, ScoresAction::Stay));
    assert_eq!(scores_step(4, 20, MenuKey::Up), (3, ScoresAction::Stay));
    assert_eq!(scores_step(4, 20, MenuKey::Esc), (4, ScoresAction::Back));
    assert_eq!(scores_step(4, 20, MenuKey::Quit), (4, ScoresAction::Quit));
}

#[test]
fn game_over_screen() {
    let mut tally = GameTally::new();
    tally.record_accolade(40, true, 2);
    tally.record_accolade(10, false, 1);
    tally.record_accolade(20, false, 1);
    assert_eq!(tally.actions, [1, 2, 1, 0, 0]);
    assert_eq!(tally.score_bonuses, vec![40, 10, 20]);
    let mut g = game("Marathon", "t", false, 4, 70, 4, 61_500_000_000);
    g.pieces = [2, 2, 1, 0, 0, 0, 0];
    let lines = game_ended_lines(&g, &tally.actions);
    assert_eq!(
        lines,
        vec![
            "- Game Over (BlockOut). [Marathon] -".to_string(),
            "Score: 70".to_string(),
            "Level: 4".to_string(),
            "Lines: 4".to_string(),
            "Tetrominos: 5".to_string(),
            "Time: 1min 1.50sec".to_string(),
            "2 Singles, 1 Double, 0 Triples, 0 Quadruples, 1 Spin".to_string(),
        ]
    );
    let done = game("40-Lines", "t", true, 1, 0, 40, 0);
    assert_eq!(game_ended_lines(&done, &[0; 5])[0], "+ Game Completed! [40-LINES] +");
}
