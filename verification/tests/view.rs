use tetrs_engine::game::{Game, GameConfig};
use tetrs_engine::generation::{TetrominoGenerator, TetrominoSampler};
use tetrs_engine::modes::{GameMode, Limits, NANOS_PER_SEC};
use tetrs_engine::pieces::{ActivePiece, Board, Orientation, Tetromino, HEIGHT};
use tetrs_engine::view::{board_view, goal, line_clear_frame, lock_frame, trail_shade, CellView, Goal};

struct Fixed(usize);

impl TetrominoSampler for Fixed {
    fn sample_index(&mut self, _generator: &TetrominoGenerator) -> usize {
        self.0
    }
}

#[test]
fn board_view_shows_piece_landing_and_tiles() {
    let mut board: Board = vec![[None; 10]; HEIGHT];
    board[0][0] = Some(5);
    board[25][3] = Some(2);
    let p = ActivePiece { shape: Tetromino::O, orientation: Orientation::N, position: (4, 10) };
    let rows = board_view(&board, Some(p));
    assert_eq!(rows.len(), 21);
    assert_eq!(rows[0][0], CellView::Fixed(5));
    assert_eq!(rows[10][4], CellView::Active(1));
    assert_eq!(rows[11][5], CellView::Active(1));
    assert_eq!(rows[0][4], CellView::Landing(1));
    assert_eq!(rows[1][5], CellView::Landing(1));
    assert_eq!(rows[2][4], CellView::Empty);
    assert_eq!(rows[5][0], CellView::Empty);
    // The piece covers its landing cells when it already lies on the ground.
    let low = ActivePiece { position: (4, 0), ..p };
    let rows = board_view(&board, Some(low));
    assert_eq!(rows[0][4], CellView::Active(1));
    assert_eq!(board_view(&board, None)[0][4], CellView::Empty);
}

#[test]
fn goal_is_the_first_limit() {
    let game = Game::with_config(GameMode::ultra(1), GameConfig::default(), Fixed(0));
    assert_eq!(goal(&game.mode().limits, game.state()), Some(Goal::TimeLeft(180 * NANOS_PER_SEC)));
    let game = Game::with_config(GameMode::sprint(1), GameConfig::default(), Fixed(0));
    assert_eq!(goal(&game.mode().limits, game.state()), Some(Goal::LinesLeft(40)));
    let mut game = Game::with_config(GameMode::marathon(), GameConfig::default(), Fixed(0));
    game.state.level = 25;
    assert_eq!(goal(&game.mode().limits, game.state()), Some(Goal::LevelsRemaining(0)));
    let limits = Limits { pieces: Some((true, 10)), score: Some((true, 5)), ..Default::default() };
    game.state.pieces_played = [1, 2, 0, 0, 0, 0, 3];
    assert_eq!(goal(&limits, game.state()), Some(Goal::PiecesRemaining(4)));
    assert_eq!(goal(&Limits::default(), game.state()), None);
}

#[test]
fn config_mut_changes_the_configuration() {
    let mut game = Game::with_config(GameMode::zen(), GameConfig::default(), Fixed(0));
    game.config_mut().preview_count = 3;
    assert_eq!(game.config().preview_count, 3);
    game.update(None, 0).unwrap();
    assert_eq!(game.state().next_pieces.len(), 3);
}

#[test]
fn animation_frames() {
    let ms = 1_000_000;
    assert_eq!(lock_frame(0), Some(0));
    assert_eq!(lock_frame(60 * ms), Some(1));
    assert_eq!(lock_frame(174 * ms), Some(5));
    assert_eq!(lock_frame(175 * ms), None);
    assert_eq!(line_clear_frame(0, 200 * ms), Some(0));
    assert_eq!(line_clear_frame(95 * ms, 200 * ms), Some(4));
    assert_eq!(line_clear_frame(199 * ms, 200 * ms), Some(9));
    assert_eq!(line_clear_frame(200 * ms, 200 * ms), None);
    assert_eq!(line_clear_frame(0, 0), None);
    assert_eq!(line_clear_frame(u64::MAX - 1, u64::MAX), Some(9));
    assert_eq!(trail_shade(0, 0), Some(0));
    assert_eq!(trail_shade(0, 5), Some(2));
    assert_eq!(trail_shade(100 * ms, 4), Some(5));
    assert_eq!(trail_shade(100 * ms, 8), Some(7));
    assert_eq!(trail_shade(100 * ms, 10), None);
    assert_eq!(trail_shade(240 * ms, 0), None);
}
