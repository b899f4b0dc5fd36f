use tetrs_engine::game::{button_index, Button, Feedback, GameModifier, GameOver};
use tetrs_engine::generation::{TetrominoGenerator, TetrominoSampler};
use tetrs_engine::pieces::Tetromino;
use tetrs_engine::puzzle::{list_of_puzzles, make_game, PuzzleMode, G, X};

struct Fixed(usize);

impl TetrominoSampler for Fixed {
    fn sample_index(&mut self, _generator: &TetrominoGenerator) -> usize {
        self.0
    }
}

#[test]
fn puzzle_list() {
    let puzzles = list_of_puzzles();
    assert_eq!(puzzles.len(), 24);
    assert_eq!(puzzles[0].0, "I-spin");
    assert_eq!(puzzles[0].1[4], [X, X, X, X, G, G, G, G, X, X]);
    assert_eq!(puzzles[0].2, vec![Tetromino::I, Tetromino::I]);
    assert_eq!(puzzles[23].0, "~ Finale ~");
    assert_eq!(puzzles[23].1.len(), 9);
    assert_eq!(puzzles[23].2.len(), 7);
    assert!(puzzles.iter().all(|p| p.1.iter().all(|row| row.iter().all(|&b| b == X || b == G))));
}

#[test]
fn puzzle_game_loads_first_stage() {
    let mut game = make_game(Fixed(0));
    assert_eq!(game.mode().name, "Puzzle");
    assert_eq!(game.mode().start_level, 2);
    assert_eq!(game.config().preview_count, 0);
    let fb = game.update(None, 0).unwrap();
    assert!(matches!(&fb[0].1, Feedback::Message(m) if m == "Stage 1: I-SPIN"));
    let s = game.state();
    let t = Some(254);
    assert_eq!(s.board[0], [t, t, t, t, None, None, None, None, t, t]);
    assert_eq!(s.board[4], [t, t, t, t, t, None, t, t, t, t]);
    assert!(s.board[5].iter().all(|c| c.is_none()));
    assert_eq!(s.active_piece_data.unwrap().0.shape, Tetromino::I);
    assert_eq!(s.next_pieces.iter().copied().collect::<Vec<_>>(), vec![Tetromino::I]);
    assert_eq!(s.level, 1);
    assert_eq!(game.config().preview_count, 1);
}

#[test]
fn puzzle_mode_starts_at_first_puzzle() {
    let p = PuzzleMode::new();
    assert!(p.init);
    assert_eq!(p.current_puzzle_idx, 0);
    assert_eq!(p.current_puzzle_attempt, 1);
    assert_eq!(p.puzzles.len(), 24);
    let game = make_game(Fixed(0));
    assert!(matches!(&game.modifiers[0], GameModifier::Puzzle(p) if p.init));
}

#[test]
fn puzzle_rows_and_pieces_fit_together() {
    let puzzles = list_of_puzzles();
    let names: Vec<&str> = puzzles.iter().map(|p| p.0).collect();
    assert_eq!(names[1], "I-spin");
    assert_eq!(names[12], "77");
    assert_eq!(names[16], "T-spin");
    for (_, rows, pieces) in &puzzles {
        assert!(!pieces.is_empty() && pieces.len() <= 7);
        assert!(!rows.is_empty() && rows.len() <= 9);
        let mut gaps = 0;
        for row in rows {
            assert!(row.iter().any(|&b| b == G));
            gaps += row.iter().filter(|&&b| b == G).count();
        }
        assert_eq!(gaps, 4 * pieces.len());
    }
}

#[test]
fn puzzle_stage_allows_one_retry() {
    let mut game = make_game(Fixed(0));
    game.update(None, 0).unwrap();
    let mut drop = [false; 8];
    drop[button_index(Button::DropHard)] = true;
    let mut t = 0;
    let mut messages = Vec::new();
    for _ in 0..20 {
        t += 1_000_000_000;
        for (_, f) in game.update(Some(drop), t).unwrap_or_default() {
            if let Feedback::Message(m) = f {
                messages.push(m);
            }
        }
        if game.ended() {
            break;
        }
        t += 1_000_000_000;
        for (_, f) in game.update(Some([false; 8]), t).unwrap() {
            if let Feedback::Message(m) = f {
                messages.push(m);
            }
        }
        if game.ended() {
            break;
        }
    }
    // Two attempts of the first stage, four pieces dropped without clearing it: the game is lost.
    assert_eq!(game.state().end, Some(Err(GameOver::ModeLimit)));
    assert_eq!(game.state().pieces_played.iter().sum::<u32>(), 4);
    assert_eq!(messages, vec!["2. TRY (I-SPIN)".to_string()]);
}
