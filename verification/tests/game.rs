use tetrs_engine::events::InternalEvent;
use tetrs_engine::game::{
    button_index, drop_delay, lock_delay, score_bonus, Button, ButtonsPressed, Feedback, Game,
    GameConfig, GameOver, GameUpdateError,
};
use tetrs_engine::generation::{TetrominoGenerator, TetrominoSampler};
use tetrs_engine::modes::{GameMode, Limits, NANOS_PER_MILLI};
use tetrs_engine::pieces::{ActivePiece, Orientation, Tetromino};
use tetrs_engine::rotation::RotationSystem;

struct Fixed(usize);

impl TetrominoSampler for Fixed {
    fn sample_index(&mut self, _generator: &TetrominoGenerator) -> usize {
        self.0
    }
}

fn config() -> GameConfig {
    GameConfig { tetromino_generator: TetrominoGenerator::uniform(), ..GameConfig::default() }
}

fn pressed(buttons: &[Button]) -> ButtonsPressed {
    let mut b = [false; 8];
    for &button in buttons {
        b[button_index(button)] = true;
    }
    b
}

#[test]
fn score_bonus_table() {
    // (lines, spin, perfect, combo, back_to_back) => bonus
    assert_eq!(score_bonus(1, false, false, 1, 0), 10);
    assert_eq!(score_bonus(2, false, false, 1, 0), 40);
    assert_eq!(score_bonus(3, false, false, 1, 0), 90);
    assert_eq!(score_bonus(4, false, false, 1, 1), 160);
    assert_eq!(score_bonus(1, false, false, 2, 0), 20);
    assert_eq!(score_bonus(1, false, false, 3, 0), 30);
    assert_eq!(score_bonus(2, false, false, 2, 0), 80);
    assert_eq!(score_bonus(2, false, false, 3, 0), 120);
    assert_eq!(score_bonus(1, true, false, 1, 1), 40);
    assert_eq!(score_bonus(2, true, false, 1, 1), 160);
    assert_eq!(score_bonus(3, true, false, 1, 1), 360);
}

#[test]
fn score_bonus_formula_and_cap() {
    // 10 * 4^2 * 4 * 16 * 2 * 3^2
    assert_eq!(score_bonus(4, true, true, 2, 3), 10 * 16 * 4 * 16 * 2 * 9);
    assert_eq!(score_bonus(4, true, true, u32::MAX, u32::MAX), u32::MAX);
}

#[test]
fn drop_and_lock_delays() {
    assert_eq!(drop_delay(1, None), 1_000_000_000);
    assert_eq!(drop_delay(19, None), 833_333);
    assert_eq!(drop_delay(25, None), 0);
    assert_eq!(drop_delay(1, Some(15_000_000)), 66_666_666);
    assert_eq!(drop_delay(1, Some(0)), 100_000_000_000_000);
    assert_eq!(lock_delay(1), 500 * NANOS_PER_MILLI);
    assert_eq!(lock_delay(25), 200 * NANOS_PER_MILLI);
    assert_eq!(lock_delay(40), 150 * NANOS_PER_MILLI);
}

#[test]
fn default_configuration() {
    let c = GameConfig::default();
    assert_eq!(c.rotation_system, RotationSystem::Ocular);
    assert!(matches!(c.tetromino_generator, TetrominoGenerator::Recency { .. }));
    assert_eq!(c.preview_count, 1);
    assert_eq!(c.delayed_auto_shift, 200 * NANOS_PER_MILLI);
    assert_eq!(c.auto_repeat_rate, 50 * NANOS_PER_MILLI);
    assert_eq!(c.soft_drop_factor, 15_000_000);
    assert_eq!(c.hard_drop_delay, 100_000);
    assert_eq!(c.ground_time_max, 2250 * NANOS_PER_MILLI);
    assert_eq!(c.line_clear_delay, 200 * NANOS_PER_MILLI);
    assert_eq!(c.appearance_delay, 100 * NANOS_PER_MILLI);
}

#[test]
fn new_game_state() {
    let game = Game::new(GameMode::marathon(), Fixed(0));
    let s = game.state();
    assert_eq!(s.time, 0);
    assert_eq!(s.end, None);
    assert_eq!(s.board.len(), 27);
    assert!(s.board.iter().all(|l| l.iter().all(|c| c.is_none())));
    assert_eq!(s.events.get(InternalEvent::Spawn), Some(0));
    assert_eq!(s.level, 1);
    assert!(!game.ended());
}

#[test]
fn update_errors() {
    let mut game = Game::with_config(GameMode::zen(), config(), Fixed(1));
    assert!(game.update(None, 10).is_ok());
    assert_eq!(game.update(None, 5), Err(GameUpdateError::DurationPassed));
    game.forfeit();
    assert!(game.ended());
    assert_eq!(game.state().end, Some(Err(GameOver::Forfeit)));
    assert_eq!(game.update(None, 20), Err(GameUpdateError::GameEnded));
    assert_eq!(game.state().time, 10);
}

#[test]
fn first_update_spawns_a_piece_and_fills_preview() {
    let mut game = Game::with_config(GameMode::zen(), config(), Fixed(1));
    game.update(None, 0).unwrap();
    let s = game.state();
    let (piece, _) = s.active_piece_data.unwrap();
    assert_eq!(piece.shape, Tetromino::I);
    assert_eq!(piece.orientation, Orientation::N);
    assert_eq!(piece.position.0, 3);
    assert_eq!(s.next_pieces.len(), 1);
    assert_eq!(s.time, 0);
}

#[test]
fn hard_drop_locks_and_clears_a_line() {
    let mut game = Game::with_config(GameMode::zen(), config(), Fixed(1));
    let block = Some(9);
    game.state.board[0] = [block, block, block, None, None, None, None, block, block, block];
    game.state.board[1][0] = block;
    game.update(None, 0).unwrap();
    let fb = game.update(Some(pressed(&[Button::DropHard])), NANOS_PER_MILLI).unwrap();
    assert!(fb.iter().any(|(_, f)| matches!(f, Feedback::HardDrop(_, p) if p.position == (3, 0))));
    // The lock timer runs out after the hard drop delay; the piece locks and the line is full.
    let fb = game.update(None, 2 * NANOS_PER_MILLI).unwrap();
    assert!(fb.iter().any(|(_, f)| matches!(
        f,
        Feedback::PieceLocked(ActivePiece { shape: Tetromino::I, position: (3, 0), .. })
    )));
    assert!(fb.iter().any(|(_, f)| matches!(
        f,
        Feedback::Accolade { score_bonus: 10, lineclears: 1, perfect_clear: false, combo: 1, .. }
    )));
    assert_eq!(game.state().score, 10);
    assert_eq!(game.state().pieces_played, [0, 1, 0, 0, 0, 0, 0]);
    // After the line clear delay the full line is removed and the line above moves down.
    game.update(None, 300 * NANOS_PER_MILLI).unwrap();
    let s = game.state();
    assert_eq!(s.lines_cleared, 1);
    assert_eq!(s.board[0], [block, None, None, None, None, None, None, None, None, None]);
    assert!(s.board[1].iter().all(|c| c.is_none()));
}

#[test]
fn perfect_clear_scores_sixteen_fold() {
    let mut game = Game::with_config(GameMode::zen(), config(), Fixed(1));
    let block = Some(9);
    game.state.board[0] = [block, block, block, None, None, None, None, block, block, block];
    game.update(None, 0).unwrap();
    game.update(Some(pressed(&[Button::DropHard])), NANOS_PER_MILLI).unwrap();
    let fb = game.update(None, 2 * NANOS_PER_MILLI).unwrap();
    assert!(fb.iter().any(|(_, f)| matches!(
        f,
        Feedback::Accolade { score_bonus: 160, perfect_clear: true, back_to_back: 1, .. }
    )));
    assert_eq!(game.state().score, 160);
}

#[test]
fn mode_limit_ends_the_game() {
    let mode = GameMode {
        name: "short".to_string(),
        start_level: 1,
        increment_level: false,
        limits: Limits { time: Some((true, 5 * NANOS_PER_MILLI)), ..Default::default() },
    };
    let mut game = Game::with_config(mode, config(), Fixed(0));
    game.update(None, 4 * NANOS_PER_MILLI).unwrap();
    assert!(!game.ended());
    game.update(None, 6 * NANOS_PER_MILLI).unwrap();
    assert_eq!(game.state().end, Some(Ok(())));
    let mode = GameMode {
        name: "short".to_string(),
        start_level: 1,
        increment_level: false,
        limits: Limits { time: Some((false, 5 * NANOS_PER_MILLI)), ..Default::default() },
    };
    let mut game = Game::with_config(mode, config(), Fixed(0));
    game.update(None, 6 * NANOS_PER_MILLI).unwrap();
    assert_eq!(game.state().end, Some(Err(GameOver::ModeLimit)));
}

#[test]
fn block_out_when_spawn_is_taken() {
    let mut game = Game::with_config(GameMode::zen(), config(), Fixed(0));
    game.state.board[20][4] = Some(9);
    game.update(None, 0).unwrap();
    assert_eq!(game.state().end, Some(Err(GameOver::BlockOut)));
    assert!(game.state().active_piece_data.is_none());
}

#[test]
fn moving_left_shifts_the_piece() {
    let mut game = Game::with_config(GameMode::zen(), config(), Fixed(0));
    game.update(None, 0).unwrap();
    let x0 = game.state().active_piece_data.unwrap().0.position.0;
    game.update(Some(pressed(&[Button::MoveLeft])), NANOS_PER_MILLI).unwrap();
    let x1 = game.state().active_piece_data.unwrap().0.position.0;
    assert_eq!(x1 + 1, x0);
    // Held past the auto-shift delay, the piece keeps moving until the wall.
    game.update(None, 2000 * NANOS_PER_MILLI).unwrap();
    assert_eq!(game.state().active_piece_data.unwrap().0.position.0, 0);
}

#[test]
fn level_follows_lines_in_marathon() {
    let mut game = Game::with_config(GameMode::marathon(), config(), Fixed(1));
    let block = Some(9);
    game.state.board[0] = [block, block, block, None, None, None, None, block, block, block];
    game.state.lines_cleared = 9;
    game.state.board[1][0] = block;
    game.update(None, 0).unwrap();
    game.update(Some(pressed(&[Button::DropHard])), NANOS_PER_MILLI).unwrap();
    game.update(None, 300 * NANOS_PER_MILLI).unwrap();
    assert_eq!(game.state().lines_cleared, 10);
    assert_eq!(game.state().level, 2);
}

#[test]
fn lock_out_above_the_skyline() {
    let mut game = Game::with_config(GameMode::zen(), config(), Fixed(1));
    let block = Some(9);
    for y in 0..20 {
        for x in 3..7 {
            game.state.board[y][x] = block;
        }
    }
    game.update(None, 0).unwrap();
    assert_eq!(game.state().active_piece_data.unwrap().0.position, (3, 20));
    game.update(Some(pressed(&[Button::DropHard])), NANOS_PER_MILLI).unwrap();
    game.update(None, 2 * NANOS_PER_MILLI).unwrap();
    assert_eq!(game.state().end, Some(Err(GameOver::LockOut)));
}

#[test]
fn first_update_of_an_endless_game_spawns_and_drops_once() {
    let mut game = Game::with_config(GameMode::zen(), config(), Fixed(4));
    let fb = game.update(None, 0).unwrap();
    assert!(fb.is_empty());
    let s = game.state();
    let (p, ld) = s.active_piece_data.unwrap();
    assert_eq!(p.shape, Tetromino::T);
    assert_eq!(p.orientation, Orientation::N);
    assert_eq!(p.position, (3, 19));
    assert!(!ld.touches_ground);
    assert_eq!(s.events.first(), Some((InternalEvent::Fall, 1_000_000_000)));
    let mut rest = s.events.clone();
    rest.remove(InternalEvent::Fall);
    assert!(rest.is_empty());
    assert_eq!(s.time, 0);
    assert!(!game.ended());
}

#[test]
fn first_update_places_the_o_piece_one_cell_further_right() {
    let mut game = Game::with_config(GameMode::zen(), config(), Fixed(0));
    game.update(None, 0).unwrap();
    let (p, _) = game.state().active_piece_data.unwrap();
    assert_eq!(p.shape, Tetromino::O);
    assert_eq!(p.position, (4, 19));
}

#[test]
fn update_reaches_the_update_time_and_leaves_only_later_events() {
    let mut game = Game::with_config(GameMode::marathon(), config(), Fixed(1));
    let mut t = 0;
    for step in 0..40u64 {
        t += 123 * NANOS_PER_MILLI;
        let buttons = if step % 3 == 0 { Some(pressed(&[Button::MoveLeft])) } else { Some(pressed(&[])) };
        game.update(buttons, t).unwrap();
        if game.ended() {
            break;
        }
        let s = game.state();
        assert_eq!(s.time, t);
        let (_, earliest) = s.events.first().unwrap();
        assert!(earliest > t);
        assert_eq!(s.buttons_pressed, buttons.unwrap());
    }
}

#[test]
fn ground_time_runs_out_despite_moves() {
    let mut game = Game::with_config(GameMode::zen(), config(), Fixed(4));
    game.update(None, 0).unwrap();
    let ms = NANOS_PER_MILLI;
    game.update(Some(pressed(&[Button::DropSonic])), ms).unwrap();
    game.update(Some(pressed(&[])), 2 * ms).unwrap();
    assert!(game.state().active_piece_data.unwrap().1.touches_ground);
    let mut t = 2 * ms;
    let mut locked_at = None;
    for k in 0..60u64 {
        t += 50 * ms;
        let b = if k % 2 == 0 { Button::MoveLeft } else { Button::MoveRight };
        game.update(Some(pressed(&[b])), t).unwrap();
        t += 50 * ms;
        game.update(Some(pressed(&[])), t).unwrap();
        if game.state().pieces_played.iter().sum::<u32>() > 0 {
            locked_at = Some(t);
            break;
        }
    }
    let locked_at = locked_at.unwrap();
    // Moving kept resetting the lock timer past one lock delay, but not past the ground time.
    assert!(locked_at > ms + 500 * ms);
    assert!(locked_at <= ms + 2250 * ms + 100 * ms);
}

#[test]
fn an_update_of_a_running_game_succeeds_and_ends_at_the_limit() {
    let mode = GameMode { limits: Limits { time: Some((true, 3_000_000_000)), ..Limits::default() }, ..GameMode::zen() };
    let mut game = Game::with_config(mode, config(), Fixed(1));
    let r = game.update(None, 2_000_000_000);
    assert!(r.is_ok());
    assert!(!game.ended());
    assert_eq!(game.state().time, 2_000_000_000);
    game.update(None, 3_500_000_000).unwrap();
    // The time limit is checked once the update time is reached.
    assert_eq!(game.state().end, Some(Ok(())));
    assert_eq!(game.update(None, 4_000_000_000), Err(GameUpdateError::GameEnded));
}
