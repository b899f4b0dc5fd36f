use tetrs_engine::pieces::Tetromino;
use tetrs_engine::text::{accolade_text, format_duration};

#[test]
fn format_duration_examples() {
    assert_eq!(format_duration(0), "0min 0.00sec");
    assert_eq!(format_duration(125_070_000_000), "2min 5.07sec");
    assert_eq!(format_duration(59_999_000_000), "0min 59.99sec");
    assert_eq!(format_duration(3_600_500_000_000), "60min 0.50sec");
}

#[test]
fn accolade_messages() {
    assert_eq!(accolade_text(800, Tetromino::T, true, 2, false, 2, 1), "+800 T-Spin Double (2.combo)");
    assert_eq!(accolade_text(10, Tetromino::L, false, 1, false, 1, 0), "+10 Single");
    assert_eq!(
        accolade_text(102400, Tetromino::I, false, 4, true, 1, 3),
        "+102400 Perfect Quadruple (3.B2B)"
    );
    assert_eq!(accolade_text(5, Tetromino::O, false, 21, false, 0, 0), "+5 Kirbtris");
}
