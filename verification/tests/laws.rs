use tetrs_engine::game::{Button, ButtonsPressed, Game, GameConfig};
use tetrs_engine::generation::{TetrominoGenerator, TetrominoSampler};
use tetrs_engine::modes::{GameMode, NANOS_PER_MILLI};

struct Cycle(usize);

impl TetrominoSampler for Cycle {
    fn sample_index(&mut self, _generator: &TetrominoGenerator) -> usize {
        self.0 = (self.0 + 3) % 7;
        self.0
    }
}

fn pressed(b: Button) -> ButtonsPressed {
    let mut p = [false; 8];
    p[tetrs_engine::game::button_index(b)] = true;
    p
}

#[test]
fn game_invariants_hold_along_a_round() {
    let config = GameConfig { tetromino_generator: TetrominoGenerator::bag(1), ..GameConfig::default() };
    let mut game = Game::with_config(GameMode::marathon(), config, Cycle(0));
    let mut t = 0;
    let mut last_score = 0;
    let mut last_time = 0;
    for step in 0..200 {
        t += 37 * NANOS_PER_MILLI;
        let buttons = match step % 4 {
            0 => Some(pressed(Button::DropHard)),
            1 => Some([false; 8]),
            2 => Some(pressed(if step % 8 == 2 { Button::MoveLeft } else { Button::RotateRight })),
            _ => None,
        };
        let before = game.state().time;
        let feedback = match game.update(buttons, t) {
            Ok(fb) => fb,
            Err(_) => break,
        };
        let s = game.state();
        // Feedback comes in chronological order, within the span of the update.
        assert!(feedback.windows(2).all(|w| w[0].0 <= w[1].0));
        assert!(feedback.iter().all(|(ft, _)| before <= *ft && *ft <= s.time));
        // Buttons are either kept or the new ones.
        if let Some(b) = buttons {
            assert!(s.buttons_pressed == b || game.ended());
        }
        // Time never goes backwards and pending events never lie in the past.
        assert!(s.time >= last_time && s.time <= t);
        last_time = s.time;
        assert!(s.score >= last_score);
        last_score = s.score;
        assert_eq!(s.board.len(), 27);
        assert!(s.level >= 1);
        assert_eq!(s.level as usize, 1 + s.lines_cleared / 10);
        if !game.ended() {
            assert!(s.events.first().is_some());
            assert!(s.events.first().unwrap().1 >= s.time);
        }
        if let Some((p, _)) = s.active_piece_data {
            assert!(p.fits(&s.board));
        }
    }
}
