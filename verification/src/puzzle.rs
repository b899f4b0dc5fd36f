//! Puzzle mode: a sequence of stages, each a prepared board and a fixed queue of pieces that
//! can clear it perfectly; a stage may be retried a limited number of times.

use vstd::prelude::*;
use vstd::string::StringExecFns;
use crate::events::InternalEvent;
use crate::game::{
    Feedback, FeedbackEvents, Game, GameConfig, GameModifier, GameOver, GameState, ModifierPoint,
    chronological, line_empty, pieces_total, state_wf,
};
use crate::generation::TetrominoSampler;
use crate::modes::{GameMode, Limits, no_limits};
use crate::pieces::{HEIGHT, Line, Tetromino};
use crate::text::{ascii_upper, ascii_uppercase, decimal, push_decimal};

verus! {

/// A block of a puzzle row (the byte of `'O'`).
pub const X: u8 = 79;

/// A gap of a puzzle row (the byte of `' '`).
pub const G: u8 = 32;

/// How many times a stage may be played before the game is lost.
pub const MAX_STAGE_ATTEMPTS: u64 = 2;

/// The level (speed) at which the pieces of a puzzle fall.
pub const SPEED_LEVEL: u32 = 3;

/// The tile id of a puzzle's blocks.
pub const PUZZLE_TILE: u32 = 254;

/// A puzzle: its name, its rows from the top down (a gap byte is an empty cell, any other
/// byte a block), and the pieces to play, in order.
pub type Puzzle = (&'static str, Vec<[u8; 10]>, Vec<Tetromino>);

/// The name of the puzzle at position `i` of the list.
pub open spec fn puzzle_name(i: int) -> &'static str {
    if i == 0 { "I-spin" }
    else if i == 1 { "I-spin" }
    else if i == 2 { "I-spin Triple" }
    else if i == 3 { "I-spin trial" }
    else if i == 4 { "S-spin" }
    else if i == 5 { "S-spins" }
    else if i == 6 { "Z-spin galore" }
    else if i == 7 { "SuZ-spins" }
    else if i == 8 { "J-spin" }
    else if i == 9 { "L_J-spin" }
    else if i == 10 { "L-spin" }
    else if i == 11 { "L/J-spins" }
    else if i == 12 { "77" }
    else if i == 13 { "7-turn" }
    else if i == 14 { "L-turn" }
    else if i == 15 { "L-turn trial" }
    else if i == 16 { "T-spin" }
    else if i == 17 { "T-spin pt.2" }
    else if i == 18 { "T-tuck" }
    else if i == 19 { "T-go-round" }
    else if i == 20 { "T T-spin Setup" }
    else if i == 21 { "T T-spin Triple" }
    else if i == 22 { "T-insert" }
    else { "~ Finale ~" }
}

/// The rows of the puzzle at position `i` of the list, from the top down.
pub open spec fn puzzle_rows(i: int) -> Seq<Seq<u8>> {
    if i == 0 {
        seq![
            seq![X, X, X, X, X, G, X, X, X, X],
            seq![X, X, X, X, X, G, X, X, X, X],
            seq![X, X, X, X, X, G, X, X, X, X],
            seq![X, X, X, X, X, G, X, X, X, X],
            seq![X, X, X, X, G, G, G, G, X, X],
        ]
    }
    else if i == 1 {
        seq![
            seq![X, X, X, X, X, G, G, X, X, X],
            seq![X, X, X, X, X, G, X, X, X, X],
            seq![X, X, X, X, X, G, X, X, X, X],
            seq![X, X, G, G, G, G, X, X, X, X],
        ]
    }
    else if i == 2 {
        seq![
            seq![X, X, G, G, X, G, G, G, X, X],
            seq![X, X, G, G, G, G, X, X, X, X],
            seq![X, X, X, X, G, X, X, X, X, X],
            seq![X, X, X, X, G, X, X, X, X, X],
            seq![X, X, X, X, G, X, X, X, X, X],
        ]
    }
    else if i == 3 {
        seq![
            seq![X, X, X, X, X, G, G, X, X, X],
            seq![X, X, X, G, X, X, G, X, X, X],
            seq![X, X, X, G, X, X, G, X, X, X],
            seq![X, X, X, G, G, G, G, G, X, X],
            seq![X, X, X, G, X, X, X, X, X, X],
        ]
    }
    else if i == 4 {
        seq![
            seq![X, X, X, X, G, G, X, X, X, X],
            seq![X, X, X, G, G, X, X, X, X, X],
        ]
    }
    else if i == 5 {
        seq![
            seq![X, X, X, X, G, G, G, G, X, X],
            seq![X, X, X, G, G, G, G, X, X, X],
            seq![X, X, X, X, X, G, G, X, X, X],
            seq![X, X, X, X, G, G, X, X, X, X],
        ]
    }
    else if i == 6 {
        seq![
            seq![X, G, G, X, X, X, X, X, X, X],
            seq![X, X, G, G, X, X, X, X, X, X],
            seq![X, X, X, G, G, X, X, X, X, X],
            seq![X, X, X, X, G, G, X, X, X, X],
            seq![X, X, X, X, X, G, G, X, X, X],
            seq![X, X, X, X, X, X, G, G, X, X],
            seq![X, X, X, X, X, X, X, G, G, X],
            seq![X, X, X, X, X, X, X, X, G, G],
        ]
    }
    else if i == 7 {
        seq![
            seq![X, X, X, X, G, G, X, X, X, X],
            seq![X, X, X, G, G, X, X, X, X, X],
            seq![X, X, G, G, G, G, X, X, X, X],
            seq![X, X, G, G, G, G, X, X, X, X],
            seq![X, X, X, G, G, G, G, X, X, X],
            seq![X, X, G, G, X, X, G, G, X, X],
        ]
    }
    else if i == 8 {
        seq![
            seq![X, X, G, G, G, G, G, X, X, X],
            seq![X, X, X, X, X, X, G, X, X, X],
            seq![X, X, X, X, X, G, G, X, X, X],
        ]
    }
    else if i == 9 {
        seq![
            seq![X, X, G, G, G, G, G, G, X, X],
            seq![X, X, G, X, X, X, X, G, X, X],
            seq![X, X, G, G, X, X, G, G, X, X],
        ]
    }
    else if i == 10 {
        seq![
            seq![X, X, X, X, X, G, X, X, X, X],
            seq![X, X, X, G, G, G, X, X, X, X],
        ]
    }
    else if i == 11 {
        seq![
            seq![X, G, G, G, X, X, G, G, G, X],
            seq![X, G, X, G, X, X, G, X, G, X],
            seq![X, G, G, G, X, X, G, G, G, X],
        ]
    }
    else if i == 12 {
        seq![
            seq![X, X, X, X, G, G, X, X, X, X],
            seq![X, X, X, X, X, G, X, X, X, X],
            seq![X, X, X, G, G, G, X, X, X, X],
            seq![X, X, X, X, G, X, X, X, X, X],
            seq![X, X, X, X, G, X, X, X, X, X],
        ]
    }
    else if i == 13 {
        seq![
            seq![X, X, X, X, X, G, G, X, X, X],
            seq![X, X, X, G, G, G, G, X, X, X],
            seq![X, X, X, X, G, X, X, X, X, X],
            seq![X, X, X, X, G, X, X, X, X, X],
        ]
    }
    else if i == 14 {
        seq![
            seq![X, X, X, X, G, G, X, X, X, X],
            seq![X, X, X, X, G, G, X, X, X, X],
            seq![X, X, X, X, G, G, G, X, X, X],
            seq![X, X, X, X, G, X, X, X, X, X],
        ]
    }
    else if i == 15 {
        seq![
            seq![X, X, X, X, G, G, X, X, X, X],
            seq![X, X, X, X, G, G, X, X, X, X],
            seq![X, X, G, G, G, G, G, X, X, X],
            seq![X, X, X, G, G, X, X, X, X, X],
            seq![X, X, X, G, X, X, X, X, X, X],
        ]
    }
    else if i == 16 {
        seq![
            seq![X, X, X, X, G, G, G, G, X, X],
            seq![X, X, X, G, G, G, X, X, X, X],
            seq![X, X, X, X, G, X, X, X, X, X],
        ]
    }
    else if i == 17 {
        seq![
            seq![X, X, X, X, G, G, G, G, X, X],
            seq![X, X, X, G, G, G, X, X, X, X],
            seq![X, X, X, X, G, X, X, X, X, X],
        ]
    }
    else if i == 18 {
        seq![
            seq![X, X, G, G, G, X, X, X, X, X],
            seq![X, X, X, G, G, X, X, X, X, X],
            seq![X, X, X, G, G, G, X, X, X, X],
        ]
    }
    else if i == 19 {
        seq![
            seq![X, X, X, G, G, X, X, X, X, X],
            seq![X, X, X, G, G, G, X, X, X, X],
            seq![X, X, X, X, X, G, G, X, X, X],
            seq![X, X, X, X, X, G, X, X, X, X],
        ]
    }
    else if i == 20 {
        seq![
            seq![X, X, X, X, X, G, G, X, X, X],
            seq![X, X, X, X, X, G, G, X, X, X],
            seq![X, X, X, G, G, G, X, X, X, X],
            seq![X, X, X, X, G, X, X, X, X, X],
        ]
    }
    else if i == 21 {
        seq![
            seq![X, X, X, X, G, G, G, X, X, X],
            seq![X, X, X, X, X, G, G, X, X, X],
            seq![X, X, X, G, G, G, X, X, X, X],
            seq![X, X, X, X, G, X, X, X, X, X],
            seq![X, X, X, G, G, X, X, X, X, X],
            seq![X, X, X, X, G, X, X, X, X, X],
        ]
    }
    else if i == 22 {
        seq![
            seq![X, X, X, X, G, G, X, X, X, X],
            seq![X, X, X, X, G, G, X, X, X, X],
            seq![X, X, X, X, X, G, X, X, X, X],
            seq![X, X, X, X, G, G, G, X, X, X],
        ]
    }
    else {
        seq![
            seq![X, X, X, X, G, G, X, X, X, X],
            seq![X, G, G, X, G, G, X, X, X, X],
            seq![G, G, X, X, X, G, X, X, X, X],
            seq![X, X, X, G, G, G, G, X, X, X],
            seq![X, X, X, X, X, X, G, G, G, X],
            seq![G, G, X, G, G, G, G, X, X, X],
            seq![X, X, X, X, X, G, X, X, X, X],
            seq![X, G, G, X, G, G, X, X, X, X],
            seq![X, X, X, X, X, G, X, X, X, X],
        ]
    }
}

/// The pieces of the puzzle at position `i` of the list, in the order they are played.
pub open spec fn puzzle_pieces(i: int) -> Seq<Tetromino> {
    if i == 0 { seq![Tetromino::I, Tetromino::I] }
    else if i == 1 { seq![Tetromino::I, Tetromino::J] }
    else if i == 2 { seq![Tetromino::I, Tetromino::L, Tetromino::O] }
    else if i == 3 { seq![Tetromino::I, Tetromino::I, Tetromino::L] }
    else if i == 4 { seq![Tetromino::S] }
    else if i == 5 { seq![Tetromino::S, Tetromino::S, Tetromino::S] }
    else if i == 6 { seq![Tetromino::Z, Tetromino::Z, Tetromino::Z, Tetromino::Z] }
    else if i == 7 { seq![Tetromino::S, Tetromino::S, Tetromino::I, Tetromino::I, Tetromino::Z] }
    else if i == 8 { seq![Tetromino::J, Tetromino::I] }
    else if i == 9 { seq![Tetromino::J, Tetromino::L, Tetromino::I] }
    else if i == 10 { seq![Tetromino::L] }
    else if i == 11 { seq![Tetromino::J, Tetromino::L, Tetromino::J, Tetromino::L] }
    else if i == 12 { seq![Tetromino::L, Tetromino::L] }
    else if i == 13 { seq![Tetromino::L, Tetromino::O] }
    else if i == 14 { seq![Tetromino::L, Tetromino::O] }
    else if i == 15 { seq![Tetromino::L, Tetromino::L, Tetromino::O] }
    else if i == 16 { seq![Tetromino::T, Tetromino::I] }
    else if i == 17 { seq![Tetromino::T, Tetromino::L] }
    else if i == 18 { seq![Tetromino::T, Tetromino::T] }
    else if i == 19 { seq![Tetromino::T, Tetromino::O] }
    else if i == 20 { seq![Tetromino::T, Tetromino::O] }
    else if i == 21 { seq![Tetromino::T, Tetromino::L, Tetromino::J] }
    else if i == 22 { seq![Tetromino::T, Tetromino::O] }
    else { seq![Tetromino::T, Tetromino::L, Tetromino::O, Tetromino::S, Tetromino::I, Tetromino::J, Tetromino::Z] }
}

/// How many gaps the row holds.
pub open spec fn gaps_in_row(row: Seq<u8>) -> int {
    (if row[0] == G { 1int } else { 0 }) + (if row[1] == G { 1int } else { 0 }) + (if row[2] == G { 1int } else { 0 })
        + (if row[3] == G { 1int } else { 0 }) + (if row[4] == G { 1int } else { 0 }) + (if row[5] == G { 1int } else { 0 })
        + (if row[6] == G { 1int } else { 0 }) + (if row[7] == G { 1int } else { 0 }) + (if row[8] == G { 1int } else { 0 })
        + (if row[9] == G { 1int } else { 0 })
}

/// How many gaps the rows hold together.
pub open spec fn gaps(rows: Seq<[u8; 10]>) -> int
    decreases rows.len(),
{
    if rows.len() == 0 {
        0
    } else {
        gaps(rows.drop_last()) + gaps_in_row(rows.last()@)
    }
}

/// Whether a puzzle row holds only blocks and gaps, and at least one gap.
pub open spec fn row_ok(row: Seq<u8>) -> bool {
    &&& forall|x: int| 0 <= x < 10 ==> row[x] == X || row[x] == G
    &&& gaps_in_row(row) > 0
}

/// Whether `p` is the puzzle at position `i` of the list, well made: it bears that
/// position's name, rows and pieces (as [`puzzle_name`], [`puzzle_rows`] and
/// [`puzzle_pieces`] give them), has one to nine rows, each holding blocks and at least one gap, and one
/// to seven pieces, which can exactly fill its gaps (four cells each).
pub open spec fn well_made(p: Puzzle, i: int) -> bool {
    &&& p.0 == puzzle_name(i)
    &&& p.1@.len() == puzzle_rows(i).len()
    &&& forall|j: int| 0 <= j < p.1@.len() ==> #[trigger] p.1@[j]@ == puzzle_rows(i)[j]
    &&& p.2@ == puzzle_pieces(i)
    &&& 1 <= p.1@.len() <= 9
    &&& 1 <= p.2@.len() <= 7
    &&& forall|j: int| 0 <= j < p.1@.len() ==> row_ok(#[trigger] p.1@[j]@)
    &&& gaps(p.1@) == 4 * p.2@.len()
}

/// The puzzles of the puzzle mode, in the order they are played.
pub fn list_of_puzzles() -> (r: Vec<Puzzle>)
    ensures
        r@.len() == 24,
        forall|i: int| 0 <= i < 24 ==> well_made(#[trigger] r@[i], i),
{
    let p0: Puzzle = (
        "I-spin",
        vec![
            [X, X, X, X, X, G, X, X, X, X],
            [X, X, X, X, X, G, X, X, X, X],
            [X, X, X, X, X, G, X, X, X, X],
            [X, X, X, X, X, G, X, X, X, X],
            [X, X, X, X, G, G, G, G, X, X],
        ],
        vec![Tetromino::I, Tetromino::I],
    );
    proof {
        reveal_with_fuel(gaps, 6);
        assert(p0.2@ =~= puzzle_pieces(0));
        assert(well_made(p0, 0));
    }
    let p1: Puzzle = (
        "I-spin",
        vec![
            [X, X, X, X, X, G, G, X, X, X],
            [X, X, X, X, X, G, X, X, X, X],
            [X, X, X, X, X, G, X, X, X, X],
            [X, X, G, G, G, G, X, X, X, X],
        ],
        vec![Tetromino::I, Tetromino::J],
    );
    proof {
        reveal_with_fuel(gaps, 5);
        assert(p1.2@ =~= puzzle_pieces(1));
        assert(well_made(p1, 1));
    }
    let p2: Puzzle = (
        "I-spin Triple",
        vec![
            [X, X, G, G, X, G, G, G, X, X],
            [X, X, G, G, G, G, X, X, X, X],
            [X, X, X, X, G, X, X, X, X, X],
            [X, X, X, X, G, X, X, X, X, X],
            [X, X, X, X, G, X, X, X, X, X],
        ],
        vec![Tetromino::I, Tetromino::L, Tetromino::O],
    );
    proof {
        reveal_with_fuel(gaps, 6);
        assert(p2.2@ =~= puzzle_pieces(2));
        assert(well_made(p2, 2));
    }
    let p3: Puzzle = (
        "I-spin trial",
        vec![
            [X, X, X, X, X, G, G, X, X, X],
            [X, X, X, G, X, X, G, X, X, X],
            [X, X, X, G, X, X, G, X, X, X],
            [X, X, X, G, G, G, G, G, X, X],
            [X, X, X, G, X, X, X, X, X, X],
        ],
        vec![Tetromino::I, Tetromino::I, Tetromino::L],
    );
    proof {
        reveal_with_fuel(gaps, 6);
        assert(p3.2@ =~= puzzle_pieces(3));
        assert(well_made(p3, 3));
    }
    let p4: Puzzle = (
        "S-spin",
        vec![
            [X, X, X, X, G, G, X, X, X, X],
            [X, X, X, G, G, X, X, X, X, X],
        ],
        vec![Tetromino::S],
    );
    proof {
        reveal_with_fuel(gaps, 3);
        assert(p4.2@ =~= puzzle_pieces(4));
        assert(well_made(p4, 4));
    }
    let p5: Puzzle = (
        "S-spins",
        vec![
            [X, X, X, X, G, G, G, G, X, X],
            [X, X, X, G, G, G, G, X, X, X],
            [X, X, X, X, X, G, G, X, X, X],
            [X, X, X, X, G, G, X, X, X, X],
        ],
        vec![Tetromino::S, Tetromino::S, Tetromino::S],
    );
    proof {
        reveal_with_fuel(gaps, 5);
        assert(p5.2@ =~= puzzle_pieces(5));
        assert(well_made(p5, 5));
    }
    let p6: Puzzle = (
        "Z-spin galore",
        vec![
            [X, G, G, X, X, X, X, X, X, X],
            [X, X, G, G, X, X, X, X, X, X],
            [X, X, X, G, G, X, X, X, X, X],
            [X, X, X, X, G, G, X, X, X, X],
            [X, X, X, X, X, G, G, X, X, X],
            [X, X, X, X, X, X, G, G, X, X],
            [X, X, X, X, X, X, X, G, G, X],
            [X, X, X, X, X, X, X, X, G, G],
        ],
        vec![Tetromino::Z, Tetromino::Z, Tetromino::Z, Tetromino::Z],
    );
    proof {
        reveal_with_fuel(gaps, 9);
        assert(p6.2@ =~= puzzle_pieces(6));
        assert(well_made(p6, 6));
    }
    let p7: Puzzle = (
        "SuZ-spins",
        vec![
            [X, X, X, X, G, G, X, X, X, X],
            [X, X, X, G, G, X, X, X, X, X],
            [X, X, G, G, G, G, X, X, X, X],
            [X, X, G, G, G, G, X, X, X, X],
            [X, X, X, G, G, G, G, X, X, X],
            [X, X, G, G, X, X, G, G, X, X],
        ],
        vec![Tetromino::S, Tetromino::S, Tetromino::I, Tetromino::I, Tetromino::Z],
    );
    proof {
        reveal_with_fuel(gaps, 7);
        assert(p7.2@ =~= puzzle_pieces(7));
        assert(well_made(p7, 7));
    }
    let p8: Puzzle = (
        "J-spin",
        vec![
            [X, X, G, G, G, G, G, X, X, X],
            [X, X, X, X, X, X, G, X, X, X],
            [X, X, X, X, X, G, G, X, X, X],
        ],
        vec![Tetromino::J, Tetromino::I],
    );
    proof {
        reveal_with_fuel(gaps, 4);
        assert(p8.2@ =~= puzzle_pieces(8));
        assert(well_made(p8, 8));
    }
    let p9: Puzzle = (
        "L_J-spin",
        vec![
            [X, X, G, G, G, G, G, G, X, X],
            [X, X, G, X, X, X, X, G, X, X],
            [X, X, G, G, X, X, G, G, X, X],
        ],
        vec![Tetromino::J, Tetromino::L, Tetromino::I],
    );
    proof {
        reveal_with_fuel(gaps, 4);
        assert(p9.2@ =~= puzzle_pieces(9));
        assert(well_made(p9, 9));
    }
    let p10: Puzzle = (
        "L-spin",
        vec![
            [X, X, X, X, X, G, X, X, X, X],
            [X, X, X, G, G, G, X, X, X, X],
        ],
        vec![Tetromino::L],
    );
    proof {
        reveal_with_fuel(gaps, 3);
        assert(p10.2@ =~= puzzle_pieces(10));
        assert(well_made(p10, 10));
    }
    let p11: Puzzle = (
        "L/J-spins",
        vec![
            [X, G, G, G, X, X, G, G, G, X],
            [X, G, X, G, X, X, G, X, G, X],
            [X, G, G, G, X, X, G, G, G, X],
        ],
        vec![Tetromino::J, Tetromino::L, Tetromino::J, Tetromino::L],
    );
    proof {
        reveal_with_fuel(gaps, 4);
        assert(p11.2@ =~= puzzle_pieces(11));
        assert(well_made(p11, 11));
    }
    let p12: Puzzle = (
        "77",
        vec![
            [X, X, X, X, G, G, X, X, X, X],
            [X, X, X, X, X, G, X, X, X, X],
            [X, X, X, G, G, G, X, X, X, X],
            [X, X, X, X, G, X, X, X, X, X],
            [X, X, X, X, G, X, X, X, X, X],
        ],
        vec![Tetromino::L, Tetromino::L],
    );
    proof {
        reveal_with_fuel(gaps, 6);
        assert(p12.2@ =~= puzzle_pieces(12));
        assert(well_made(p12, 12));
    }
    let p13: Puzzle = (
        "7-turn",
        vec![
            [X, X, X, X, X, G, G, X, X, X],
            [X, X, X, G, G, G, G, X, X, X],
            [X, X, X, X, G, X, X, X, X, X],
            [X, X, X, X, G, X, X, X, X, X],
        ],
        vec![Tetromino::L, Tetromino::O],
    );
    proof {
        reveal_with_fuel(gaps, 5);
        assert(p13.2@ =~= puzzle_pieces(13));
        assert(well_made(p13, 13));
    }
    let p14: Puzzle = (
        "L-turn",
        vec![
            [X, X, X, X, G, G, X, X, X, X],
            [X, X, X, X, G, G, X, X, X, X],
            [X, X, X, X, G, G, G, X, X, X],
            [X, X, X, X, G, X, X, X, X, X],
        ],
        vec![Tetromino::L, Tetromino::O],
    );
    proof {
        reveal_with_fuel(gaps, 5);
        assert(p14.2@ =~= puzzle_pieces(14));
        assert(well_made(p14, 14));
    }
    let p15: Puzzle = (
        "L-turn trial",
        vec![
            [X, X, X, X, G, G, X, X, X, X],
            [X, X, X, X, G, G, X, X, X, X],
            [X, X, G, G, G, G, G, X, X, X],
            [X, X, X, G, G, X, X, X, X, X],
            [X, X, X, G, X, X, X, X, X, X],
        ],
        vec![Tetromino::L, Tetromino::L, Tetromino::O],
    );
    proof {
        reveal_with_fuel(gaps, 6);
        assert(p15.2@ =~= puzzle_pieces(15));
        assert(well_made(p15, 15));
    }
    let p16: Puzzle = (
        "T-spin",
        vec![
            [X, X, X, X, G, G, G, G, X, X],
            [X, X, X, G, G, G, X, X, X, X],
            [X, X, X, X, G, X, X, X, X, X],
        ],
        vec![Tetromino::T, Tetromino::I],
    );
    proof {
        reveal_with_fuel(gaps, 4);
        assert(p16.2@ =~= puzzle_pieces(16));
        assert(well_made(p16, 16));
    }
    let p17: Puzzle = (
        "T-spin pt.2",
        vec![
            [X, X, X, X, G, G, G, G, X, X],
            [X, X, X, G, G, G, X, X, X, X],
            [X, X, X, X, G, X, X, X, X, X],
        ],
        vec![Tetromino::T, Tetromino::L],
    );
    proof {
        reveal_with_fuel(gaps, 4);
        assert(p17.2@ =~= puzzle_pieces(17));
        assert(well_made(p17, 17));
    }
    let p18: Puzzle = (
        "T-tuck",
        vec![
            [X, X, G, G, G, X, X, X, X, X],
            [X, X, X, G, G, X, X, X, X, X],
            [X, X, X, G, G, G, X, X, X, X],
        ],
        vec![Tetromino::T, Tetromino::T],
    );
    proof {
        reveal_with_fuel(gaps, 4);
        assert(p18.2@ =~= puzzle_pieces(18));
        assert(well_made(p18, 18));
    }
    let p19: Puzzle = (
        "T-go-round",
        vec![
            [X, X, X, G, G, X, X, X, X, X],
            [X, X, X, G, G, G, X, X, X, X],
            [X, X, X, X, X, G, G, X, X, X],
            [X, X, X, X, X, G, X, X, X, X],
        ],
        vec![Tetromino::T, Tetromino::O],
    );
    proof {
        reveal_with_fuel(gaps, 5);
        assert(p19.2@ =~= puzzle_pieces(19));
        assert(well_made(p19, 19));
    }
    let p20: Puzzle = (
        "T T-spin Setup",
        vec![
            [X, X, X, X, X, G, G, X, X, X],
            [X, X, X, X, X, G, G, X, X, X],
            [X, X, X, G, G, G, X, X, X, X],
            [X, X, X, X, G, X, X, X, X, X],
        ],
        vec![Tetromino::T, Tetromino::O],
    );
    proof {
        reveal_with_fuel(gaps, 5);
        assert(p20.2@ =~= puzzle_pieces(20));
        assert(well_made(p20, 20));
    }
    let p21: Puzzle = (
        "T T-spin Triple",
        vec![
            [X, X, X, X, G, G, G, X, X, X],
            [X, X, X, X, X, G, G, X, X, X],
            [X, X, X, G, G, G, X, X, X, X],
            [X, X, X, X, G, X, X, X, X, X],
            [X, X, X, G, G, X, X, X, X, X],
            [X, X, X, X, G, X, X, X, X, X],
        ],
        vec![Tetromino::T, Tetromino::L, Tetromino::J],
    );
    proof {
        reveal_with_fuel(gaps, 7);
        assert(p21.2@ =~= puzzle_pieces(21));
        assert(well_made(p21, 21));
    }
    let p22: Puzzle = (
        "T-insert",
        vec![
            [X, X, X, X, G, G, X, X, X, X],
            [X, X, X, X, G, G, X, X, X, X],
            [X, X, X, X, X, G, X, X, X, X],
            [X, X, X, X, G, G, G, X, X, X],
        ],
        vec![Tetromino::T, Tetromino::O],
    );
    proof {
        reveal_with_fuel(gaps, 5);
        assert(p22.2@ =~= puzzle_pieces(22));
        assert(well_made(p22, 22));
    }
    let p23: Puzzle = (
        "~ Finale ~",
        vec![
            [X, X, X, X, G, G, X, X, X, X],
            [X, G, G, X, G, G, X, X, X, X],
            [G, G, X, X, X, G, X, X, X, X],
            [X, X, X, G, G, G, G, X, X, X],
            [X, X, X, X, X, X, G, G, G, X],
            [G, G, X, G, G, G, G, X, X, X],
            [X, X, X, X, X, G, X, X, X, X],
            [X, G, G, X, G, G, X, X, X, X],
            [X, X, X, X, X, G, X, X, X, X],
        ],
        vec![Tetromino::T, Tetromino::L, Tetromino::O, Tetromino::S, Tetromino::I, Tetromino::J, Tetromino::Z],
    );
    proof {
        reveal_with_fuel(gaps, 10);
        assert(p23.2@ =~= puzzle_pieces(23));
        assert(well_made(p23, 23));
    }
    vec![
        p0, p1, p2, p3, p4, p5, p6, p7, p8, p9, p10, p11, p12, p13, p14, p15, p16, p17, p18, p19, p20, p21, p22, p23,
    ]
}

/// The cell of the board that a puzzle row's byte stands for.
pub open spec fn puzzle_cell(b: u8) -> Option<u32> {
    if b == G { None } else { Some(PUZZLE_TILE) }
}

/// Whether the board holds exactly the puzzle's rows at the bottom (the last row lowest) and
/// empty lines above them.
pub open spec fn holds_puzzle(board: Seq<Line>, rows: Seq<[u8; 10]>) -> bool {
    &&& board.len() == HEIGHT
    &&& forall|y: int, x: int|
        #![trigger board[y]@[x]]
        0 <= y < HEIGHT && 0 <= x < 10 ==> board[y]@[x] == if y < rows.len() {
            puzzle_cell(rows[rows.len() - 1 - y]@[x])
        } else {
            None
        }
}

/// Whether the whole board is empty.
pub open spec fn board_empty(board: Seq<Line>) -> bool {
    forall|y: int| 0 <= y < board.len() ==> line_empty(#[trigger] board[y])
}

/// The message shown when a stage starts: `"Stage {n}: {NAME}"` on the first attempt,
/// `"{attempt}. TRY ({NAME})"` on later ones, the name in upper case.
pub open spec fn stage_message(attempt: nat, idx: nat, name: Seq<char>) -> Seq<char> {
    let upper = name.map_values(|c: char| ascii_upper(c));
    if attempt == 1 {
        "Stage "@ + decimal(idx + 1) + ": "@ + upper
    } else {
        decimal(attempt) + ". TRY ("@ + upper + ")"@
    }
}

/// Whether a feedback event is an accolade.
pub open spec fn is_accolade(e: (crate::modes::GameTime, Feedback)) -> bool {
    e.1 is Accolade
}

/// The feedback events that are not accolades, in order.
pub open spec fn without_accolades(s: Seq<(crate::modes::GameTime, Feedback)>) -> Seq<(crate::modes::GameTime, Feedback)> {
    s.filter(|e: (crate::modes::GameTime, Feedback)| !is_accolade(e))
}

/// Dropping accolades from a sequence with one more event at its end.
proof fn lemma_without_accolades_push(s: Seq<(crate::modes::GameTime, Feedback)>, e: (crate::modes::GameTime, Feedback))
    ensures
        without_accolades(s.push(e)) == if is_accolade(e) {
            without_accolades(s)
        } else {
            without_accolades(s).push(e)
        },
{
    s.lemma_filter_push(e, |e: (crate::modes::GameTime, Feedback)| !is_accolade(e));
}

/// The time of the last feedback event, or `lo` if there is none.
pub open spec fn latest(s: Seq<(crate::modes::GameTime, Feedback)>, lo: crate::modes::GameTime) -> crate::modes::GameTime {
    if s.len() > 0 { s.last().0 } else { lo }
}

/// Dropping accolades from chronological feedback events keeps them chronological.
proof fn lemma_without_accolades_sorted(s: Seq<(crate::modes::GameTime, Feedback)>, lo: crate::modes::GameTime)
    requires
        chronological(s, lo, latest(s, lo)),
    ensures
        chronological(without_accolades(s), lo, latest(s, lo)),
    decreases s.len(),
{
    if s.len() == 0 {
        assert(without_accolades(s) =~= s) by {
            reveal_with_fuel(Seq::filter, 1);
        }
    } else {
        let t = s.drop_last();
        let x = s.last();
        assert(s =~= t.push(x));
        if t.len() > 0 {
            assert(t.last() == s[t.len() - 1]);
            assert(chronological(t, lo, latest(t, lo))) by {
                assert forall|i: int| 0 <= i < t.len() implies lo <= (#[trigger] t[i]).0 <= latest(t, lo) by {
                    assert(t[i] == s[i]);
                    if i < t.len() - 1 {
                        assert(s[i].0 <= s[t.len() - 1].0);
                    }
                }
                assert forall|i: int, j: int| 0 <= i < j < t.len() implies (#[trigger] t[i]).0 <= (#[trigger] t[j]).0 by {
                    assert(t[i] == s[i] && t[j] == s[j]);
                }
            }
            assert(latest(t, lo) <= x.0) by {
                assert(s[t.len() - 1].0 <= s[s.len() - 1].0);
            }
        } else {
            assert(lo <= x.0) by {
                assert(lo <= s[0].0);
            }
        }
        lemma_without_accolades_sorted(t, lo);
        lemma_without_accolades_push(t, x);
        crate::game::lemma_chronological_weaken(without_accolades(t), lo, latest(t, lo), x.0);
        if !is_accolade(x) {
            crate::game::lemma_chronological_append(without_accolades(t), seq![x], lo, x.0);
            assert(without_accolades(t) + seq![x] == without_accolades(t).push(x));
        }
    }
}

/// Dropping accolades from chronological feedback events keeps them chronological.
pub proof fn lemma_without_accolades_chronological(s: Seq<(crate::modes::GameTime, Feedback)>, lo: crate::modes::GameTime, hi: crate::modes::GameTime)
    requires
        chronological(s, lo, hi),
        lo <= hi,
    ensures
        chronological(without_accolades(s), lo, hi),
{
    if s.len() > 0 {
        assert forall|i: int| 0 <= i < s.len() implies lo <= (#[trigger] s[i]).0 <= latest(s, lo) by {
            if i < s.len() - 1 {
                assert(s[i].0 <= s[s.len() - 1].0);
            }
        }
    }
    lemma_without_accolades_sorted(s, lo);
    crate::game::lemma_chronological_weaken(without_accolades(s), lo, latest(s, lo), hi);
}

/// The state of a game's puzzle mode: the puzzles, whether the first one still has to be
/// loaded, the current stage and attempt, and the number of pieces played at which the stage
/// is over.
pub struct PuzzleMode {
    /// The puzzles, in order.
    pub puzzles: Vec<Puzzle>,
    /// Whether the first puzzle still has to be loaded.
    pub init: bool,
    /// The index of the current puzzle.
    pub current_puzzle_idx: usize,
    /// The current attempt at the current puzzle (counting from one).
    pub current_puzzle_attempt: u64,
    /// The total number of pieces played at which the current attempt is over.
    pub current_puzzle_piececnt_limit: u64,
}

/// Whether the current attempt is over and checked: right before a piece would spawn, with no
/// piece in play, once all of the attempt's pieces have been played.
pub open spec fn stage_check(p: PuzzleMode, s: GameState, point: ModifierPoint) -> bool {
    &&& !p.init
    &&& p.current_puzzle_idx < p.puzzles@.len()
    &&& point == ModifierPoint::BeforeEvent(InternalEvent::Spawn)
    &&& s.active_piece_data is None
    &&& pieces_total(s.pieces_played@) == p.current_puzzle_piececnt_limit
}

/// Whether the stage check finds the last attempt failed.
pub open spec fn stage_failed(p: PuzzleMode, s: GameState, point: ModifierPoint) -> bool {
    stage_check(p, s, point) && !board_empty(s.board@) && p.current_puzzle_attempt == MAX_STAGE_ATTEMPTS
}

/// The attempt and puzzle index after a stage check that did not fail (as `(attempt, index)`):
/// the next puzzle's first attempt after a perfect clear, the next attempt otherwise.
pub open spec fn stage_change(p: PuzzleMode, s: GameState, point: ModifierPoint) -> Option<(u64, int)> {
    if stage_check(p, s, point) && !stage_failed(p, s, point) {
        if board_empty(s.board@) {
            Some((1u64, p.current_puzzle_idx + 1))
        } else {
            Some(((p.current_puzzle_attempt + 1) as u64, p.current_puzzle_idx as int))
        }
    } else {
        None
    }
}

/// The attempt and puzzle index that are loaded at a point, if any.
pub open spec fn load_target(p: PuzzleMode, s: GameState, point: ModifierPoint) -> Option<(u64, int)> {
    if p.init {
        if s.active_piece_data is None {
            Some((p.current_puzzle_attempt, p.current_puzzle_idx as int))
        } else {
            None
        }
    } else {
        match stage_change(p, s, point) {
            Some((a, i)) => if i < p.puzzles@.len() { Some((a, i)) } else { None },
            None => None,
        }
    }
}

/// Whether the point comes before something happens (an event or a change of buttons).
pub open spec fn is_before(point: ModifierPoint) -> bool {
    point is BeforeEvent || point is BeforeButtonChange
}

/// What the puzzle mode does at a point (see [`PuzzleMode::modify`]): `p0`, `c0`, `s0`, `fb0`
/// are the puzzle mode, configuration, game state and feedback before, `p1`, `c1`, `s1`, `fb1`
/// after.
pub open spec fn puzzle_modified(
    p0: PuzzleMode,
    p1: PuzzleMode,
    c0: GameConfig,
    c1: GameConfig,
    s0: GameState,
    s1: GameState,
    fb0: FeedbackEvents,
    fb1: FeedbackEvents,
    point: ModifierPoint,
) -> bool {
    &&& p1.puzzles == p0.puzzles
    &&& p1.init == (p0.init && s0.active_piece_data is Some)
    &&& ({
        let p = p0;
        let s = s0;
        let count = pieces_total(s.pieces_played@);
        let (idx, attempt) = match stage_change(p, s, point) {
            Some((a, i)) => (i, a),
            None => (p.current_puzzle_idx as int, p.current_puzzle_attempt),
        };
        let end = if stage_failed(p, s, point) {
            Some(Err(GameOver::ModeLimit))
        } else if stage_change(p, s, point) is Some && idx >= p.puzzles@.len() {
            Some(Ok(()))
        } else {
            s.end
        };
        let removed = point == ModifierPoint::AfterEvent(InternalEvent::Spawn) && end is Some;
        &&& p1.current_puzzle_idx == idx
        &&& p1.current_puzzle_attempt == attempt
        &&& s1.end == end
        &&& match load_target(p, s, point) {
            Some((a, i)) => {
                &&& holds_puzzle(s1.board@, p.puzzles@[i].1@)
                &&& s1.next_pieces@ == p.puzzles@[i].2@
                &&& p1.current_puzzle_piececnt_limit == count + p.puzzles@[i].2@.len()
            },
            None => {
                &&& s1.board == s.board
                &&& s1.next_pieces == s.next_pieces
                &&& p1.current_puzzle_piececnt_limit == p.current_puzzle_piececnt_limit
            },
        }
        &&& s1.active_piece_data == if removed { None } else { s.active_piece_data }
        &&& s1.events@ == s.events@
        &&& s1.events.wf()
        &&& s1.level == if is_before(point) { SPEED_LEVEL } else { (idx + 1) as u32 }
        &&& c1 == (GameConfig {
            preview_count: if is_before(point) { 0 } else { s1.next_pieces@.len() as usize },
            ..c0
        })
        &&& s1 == (GameState {
            end: s1.end,
            board: s1.board,
            next_pieces: s1.next_pieces,
            active_piece_data: s1.active_piece_data,
            events: s1.events,
            level: s1.level,
            ..s
        })
        &&& {
            let base = if is_before(point) {
                fb0@
            } else {
                without_accolades(fb0@)
            };
            match load_target(p, s, point) {
                Some((a, i)) => {
                    &&& fb1@.len() == base.len() + 1
                    &&& fb1@.drop_last() == base
                    &&& fb1@.last() matches (t, Feedback::Message(m))
                        && t == s.time && m@ == stage_message(a as nat, i as nat, p.puzzles@[i].0@)
                },
                None => fb1@ == base,
            }
        }
    })
}

impl PuzzleMode {
    /// The puzzle mode is consistent: its puzzles fit on the board, the current index is at
    /// most one past the last puzzle, and the attempt is between one and the maximum.
    pub open spec fn wf(&self) -> bool {
        &&& 1 <= self.puzzles@.len() < u32::MAX
        &&& forall|i: int| 0 <= i < self.puzzles@.len() ==> (#[trigger] self.puzzles@[i]).1@.len() <= HEIGHT
            && self.puzzles@[i].2@.len() <= u32::MAX
        &&& self.current_puzzle_idx <= self.puzzles@.len()
        &&& (self.init ==> self.current_puzzle_idx < self.puzzles@.len())
        &&& 1 <= self.current_puzzle_attempt <= MAX_STAGE_ATTEMPTS
        &&& self.current_puzzle_piececnt_limit <= 2 * (u32::MAX as int)
    }

    /// A puzzle mode at the first attempt of the first puzzle, which is loaded at the first
    /// point where no piece is in play.
    pub fn new() -> (r: Self)
        ensures
            r.wf(),
            r.puzzles@.len() == 24,
            r.init,
            r.current_puzzle_idx == 0,
            r.current_puzzle_attempt == 1,
            r.current_puzzle_piececnt_limit == 0,
    {
        let puzzles = list_of_puzzles();
        assert forall|i: int| 0 <= i < puzzles@.len() implies (#[trigger] puzzles@[i]).1@.len() <= HEIGHT
            && puzzles@[i].2@.len() <= u32::MAX by {
            assert(1 <= puzzles@[i].1@.len() <= 9);
        }
        PuzzleMode {
            puzzles,
            init: true,
            current_puzzle_idx: 0,
            current_puzzle_attempt: 1,
            current_puzzle_piececnt_limit: 0,
        }
    }

    /// Loads a puzzle: announces the stage, queues the puzzle's pieces and lays its rows onto
    /// the board. Returns the number of pieces of the puzzle.
    fn load_puzzle(&self, state: &mut GameState, attempt: u64, idx: usize, feedback_events: &mut FeedbackEvents) -> (r: u64)
        requires
            self.wf(),
            idx < self.puzzles@.len(),
            old(state).board@.len() == HEIGHT,
        ensures
            r == self.puzzles@[idx as int].2@.len(),
            final(state).next_pieces@ == self.puzzles@[idx as int].2@,
            holds_puzzle(final(state).board@, self.puzzles@[idx as int].1@),
            *final(state) == (GameState {
                board: final(state).board,
                next_pieces: final(state).next_pieces,
                ..*old(state)
            }),
            final(feedback_events)@.len() == old(feedback_events)@.len() + 1,
            final(feedback_events)@.drop_last() == old(feedback_events)@,
            final(feedback_events)@.last() matches (t, Feedback::Message(m))
                && t == old(state).time
                && m@ == stage_message(attempt as nat, idx as nat, self.puzzles@[idx as int].0@),
    {
        let puzzle = &self.puzzles[idx];
        let name = puzzle.0;
        let upper = ascii_uppercase(name);
        let mut message = String::new();
        if attempt == 1 {
            message.append("Stage ");
            push_decimal(&mut message, idx as u64 + 1);
            message.append(": ");
            message.append(upper.as_str());
        } else {
            push_decimal(&mut message, attempt);
            message.append(". TRY (");
            message.append(upper.as_str());
            message.append(")");
        }
        assert(message@ =~= stage_message(attempt as nat, idx as nat, name@));
        let ghost fb0 = feedback_events@;
        feedback_events.push((state.time, Feedback::Message(message)));
        assert(feedback_events@.drop_last() =~= fb0);
        // Queue the pieces.
        let pieces = &puzzle.2;
        state.next_pieces.clear();
        let mut i: usize = 0;
        while i < pieces.len()
            invariant
                i <= pieces@.len(),
                state.next_pieces@ =~= pieces@.take(i as int),
                *state == (GameState { next_pieces: state.next_pieces, ..*old(state) }),
            decreases pieces@.len() - i,
        {
            state.next_pieces.push_back(pieces[i]);
            assert(pieces@.take(i + 1) =~= pieces@.take(i as int).push(pieces@[i as int]));
            i += 1;
        }
        assert(pieces@.take(pieces@.len() as int) =~= pieces@);
        // Lay the rows onto the board, the last row lowest.
        let rows = &puzzle.1;
        assert(rows@.len() <= HEIGHT);
        let mut y: usize = 0;
        while y < HEIGHT
            invariant
                y <= HEIGHT,
                rows@.len() <= HEIGHT,
                state.board@.len() == HEIGHT,
                state.next_pieces@ == pieces@,
                *state == (GameState {
                    board: state.board,
                    next_pieces: state.next_pieces,
                    ..*old(state)
                }),
                forall|yy: int, x: int|
                    #![trigger state.board@[yy]@[x]]
                    0 <= yy < y && 0 <= x < 10 ==> state.board@[yy]@[x] == if yy < rows@.len() {
                        puzzle_cell(rows@[rows@.len() - 1 - yy]@[x])
                    } else {
                        None
                    },
            decreases HEIGHT - y,
        {
            let line: Line = if y < rows.len() {
                row_line(&rows[rows.len() - 1 - y])
            } else {
                [None, None, None, None, None, None, None, None, None, None]
            };
            state.board.set(y, line);
            y += 1;
        }
        pieces.len() as u64
    }

    /// Applies the puzzle mode at a point of a game's update:
    ///
    /// - the first puzzle is loaded at the first point where no piece is in play;
    /// - before a piece spawns, once the current attempt's pieces are all played: if the board
    ///   is not empty after the last allowed attempt, the game is lost; otherwise the next
    ///   puzzle (after a perfect clear) or the next attempt is loaded, and the game is won once
    ///   no puzzle is left;
    /// - before an event or a change of buttons, no preview is shown and pieces fall at
    ///   [`SPEED_LEVEL`]; after one, the preview shows the whole queue, the level shows the
    ///   stage, and accolades are dropped from the feedback;
    /// - a piece spawned as the game ended is removed again; what it had scheduled stays, unused.
    pub fn modify(
        &mut self,
        config: &mut GameConfig,
        state: &mut GameState,
        feedback_events: &mut FeedbackEvents,
        point: &ModifierPoint,
    )
        requires
            old(self).wf(),
            old(state).board@.len() == HEIGHT,
            old(state).events.wf(),
            pieces_total(old(state).pieces_played@) <= u32::MAX,
        ensures
            final(self).wf(),
            puzzle_modified(
                *old(self),
                *final(self),
                *old(config),
                *final(config),
                *old(state),
                *final(state),
                *old(feedback_events),
                *final(feedback_events),
                *point,
            ),
    {
        let count: u64 = self.pieces_count(state);
        let ghost p0 = *self;
        let ghost s0 = *state;
        if self.init {
            if state.active_piece_data.is_none() {
                let n = self.load_puzzle(state, self.current_puzzle_attempt, self.current_puzzle_idx, feedback_events);
                self.current_puzzle_piececnt_limit = count + n;
                self.init = false;
            }
        } else if self.current_puzzle_idx < self.puzzles.len() && is_spawn_before(point)
            && state.active_piece_data.is_none() && count == self.current_puzzle_piececnt_limit {
            let puzzle_done = board_is_empty(&state.board);
            if !puzzle_done && self.current_puzzle_attempt == MAX_STAGE_ATTEMPTS {
                state.end = Some(Err(GameOver::ModeLimit));
            } else {
                if puzzle_done {
                    self.current_puzzle_idx = self.current_puzzle_idx + 1;
                    self.current_puzzle_attempt = 1;
                } else {
                    self.current_puzzle_attempt = self.current_puzzle_attempt + 1;
                }
                if self.current_puzzle_idx >= self.puzzles.len() {
                    state.end = Some(Ok(()));
                } else {
                    let n = self.load_puzzle(state, self.current_puzzle_attempt, self.current_puzzle_idx, feedback_events);
                    self.current_puzzle_piececnt_limit = count + n;
                }
            }
        }
        if is_before_point(point) {
            config.preview_count = 0;
            state.level = SPEED_LEVEL;
        } else {
            config.preview_count = state.next_pieces.len();
            state.level = self.current_puzzle_idx as u32 + 1;
            let ghost fb1 = feedback_events@;
            drop_accolades(feedback_events);
            proof {
                if fb1.len() > 0 {
                    assert(fb1 =~= fb1.drop_last().push(fb1.last()));
                    lemma_without_accolades_push(fb1.drop_last(), fb1.last());
                    if !is_accolade(fb1.last()) {
                        assert(feedback_events@.drop_last() =~= without_accolades(fb1.drop_last()));
                        assert(feedback_events@.last() == fb1.last());
                    }
                }
            }
        }
        if is_spawn_after(point) && state.end.is_some() {
            state.active_piece_data = None;
        }
    }

    /// The total number of pieces played.
    fn pieces_count(&self, state: &GameState) -> (r: u64)
        ensures
            r == pieces_total(state.pieces_played@),
    {
        let p = &state.pieces_played;
        p[0] as u64 + p[1] as u64 + p[2] as u64 + p[3] as u64 + p[4] as u64 + p[5] as u64 + p[6] as u64
    }
}

/// The board line a puzzle row stands for.
fn row_line(row: &[u8; 10]) -> (r: Line)
    ensures
        forall|x: int| 0 <= x < 10 ==> #[trigger] r@[x] == puzzle_cell(row@[x]),
{
    let r: Line = [
        cell_of(row[0]),
        cell_of(row[1]),
        cell_of(row[2]),
        cell_of(row[3]),
        cell_of(row[4]),
        cell_of(row[5]),
        cell_of(row[6]),
        cell_of(row[7]),
        cell_of(row[8]),
        cell_of(row[9]),
    ];
    assert forall|x: int| 0 <= x < 10 implies #[trigger] r@[x] == puzzle_cell(row@[x]) by {
        if x == 0 {} else if x == 1 {} else if x == 2 {} else if x == 3 {} else if x == 4 {}
        else if x == 5 {} else if x == 6 {} else if x == 7 {} else if x == 8 {} else {}
    }
    r
}

/// The cell a puzzle byte stands for.
fn cell_of(b: u8) -> (r: Option<u32>)
    ensures
        r == puzzle_cell(b),
{
    if b == G { None } else { Some(PUZZLE_TILE) }
}

/// Whether every line of the board is empty.
fn board_is_empty(board: &Vec<Line>) -> (r: bool)
    ensures
        r == board_empty(board@),
{
    let mut y: usize = 0;
    while y < board.len()
        invariant
            y <= board@.len(),
            forall|yy: int| 0 <= yy < y ==> line_empty(#[trigger] board@[yy]),
        decreases board@.len() - y,
    {
        if !crate::game::is_line_empty(&board[y]) {
            return false;
        }
        y += 1;
    }
    true
}

/// Whether the point is the one before a piece spawns.
fn is_spawn_before(point: &ModifierPoint) -> (r: bool)
    ensures
        r == (*point == ModifierPoint::BeforeEvent(InternalEvent::Spawn)),
{
    match point {
        ModifierPoint::BeforeEvent(InternalEvent::Spawn) => true,
        _ => false,
    }
}

/// Whether the point is the one after a piece spawned.
fn is_spawn_after(point: &ModifierPoint) -> (r: bool)
    ensures
        r == (*point == ModifierPoint::AfterEvent(InternalEvent::Spawn)),
{
    match point {
        ModifierPoint::AfterEvent(InternalEvent::Spawn) => true,
        _ => false,
    }
}

/// Whether the point comes before an event or a change of buttons.
fn is_before_point(point: &ModifierPoint) -> (r: bool)
    ensures
        r == is_before(*point),
{
    match point {
        ModifierPoint::BeforeEvent(_) | ModifierPoint::BeforeButtonChange(_, _) => true,
        _ => false,
    }
}

/// Drops the accolades from the feedback events, keeping the others in order.
fn drop_accolades(feedback_events: &mut FeedbackEvents)
    ensures
        final(feedback_events)@ == without_accolades(old(feedback_events)@),
{
    let ghost all = feedback_events@;
    let mut rest: FeedbackEvents = Vec::new();
    std::mem::swap(&mut rest, feedback_events);
    let ghost mut k: int = 0;
    assert(all.take(0) =~= Seq::<(crate::modes::GameTime, Feedback)>::empty());
    assert(without_accolades(Seq::<(crate::modes::GameTime, Feedback)>::empty()) =~= Seq::<(crate::modes::GameTime, Feedback)>::empty()) by {
        reveal_with_fuel(Seq::filter, 1);
    }
    while rest.len() > 0
        invariant
            0 <= k <= all.len(),
            rest@ == all.skip(k),
            feedback_events@ == without_accolades(all.take(k)),
        decreases rest@.len(),
    {
        let e = rest.remove(0);
        proof {
            assert(e == all[k]);
            assert(all.take(k + 1) =~= all.take(k).push(all[k]));
            lemma_without_accolades_push(all.take(k), all[k]);
            assert(all.skip(k + 1) =~= all.skip(k).drop_first());
        }
        match e.1 {
            Feedback::Accolade { .. } => {
                assert(is_accolade(all[k]));
            },
            _ => {
                assert(!is_accolade(all[k]));
                feedback_events.push(e);
            },
        }
        proof {
            k = k + 1;
        }
    }
    assert(all.take(all.len() as int) =~= all);
}

/// The puzzle mode keeps a game's state consistent, keeps its time, and changes its pending
/// events or whether a piece is in play only right after an event.
pub proof fn lemma_puzzle_keeps_wf(
    p0: PuzzleMode,
    p1: PuzzleMode,
    c0: GameConfig,
    c1: GameConfig,
    s0: GameState,
    s1: GameState,
    fb0: FeedbackEvents,
    fb1: FeedbackEvents,
    point: ModifierPoint,
)
    requires
        p0.wf(),
        p1.wf(),
        state_wf(c0, s0),
        puzzle_modified(p0, p1, c0, c1, s0, s1, fb0, fb1, point),
    ensures
        state_wf(c1, s1),
        s1.time == s0.time,
        !(point is AfterEvent) ==> s1.events@ == s0.events@
            && (s1.active_piece_data is None <==> s0.active_piece_data is None),
        !(point is BeforeEvent) ==> s1.end == s0.end,
        crate::game::pending_ok(s0) ==> crate::game::pending_ok(s1),
        s1.buttons_pressed == s0.buttons_pressed,
        forall|lo: crate::modes::GameTime|
            lo <= s0.time && #[trigger] chronological(fb0@, lo, s0.time) ==> chronological(fb1@, lo, s0.time),
{
    assert forall|lo: crate::modes::GameTime|
        lo <= s0.time && #[trigger] chronological(fb0@, lo, s0.time) implies chronological(fb1@, lo, s0.time) by {
        let base = if is_before(point) { fb0@ } else { without_accolades(fb0@) };
        if !is_before(point) {
            lemma_without_accolades_chronological(fb0@, lo, s0.time);
        }
        assert(chronological(base, lo, s0.time));
        if let Some((a, i)) = load_target(p0, s0, point) {
            assert(fb1@ =~= base + seq![fb1@.last()]);
            crate::game::lemma_chronological_append(base, seq![fb1@.last()], lo, s0.time);
        }
    }
    let loaded = load_target(p0, s0, point);
    if let Some((a, i)) = loaded {
        assert(s0.active_piece_data is None);
    }
    assert(s1.board@.len() == HEIGHT);
    assert(s1.level >= 1);
}

/// A new game of the puzzle mode: it starts at level 2 without increasing the level, shows
/// no preview, is won once the level passes the number of puzzles, and carries the puzzle mode
/// as its modifier.
pub fn make_game<S: TetrominoSampler>(sampler: S) -> (r: Game<S>)
    ensures
        r.wf(),
        r.mode.name@ == "Puzzle"@,
        r.mode.start_level == 2,
        !r.mode.increment_level,
        r.mode.limits == (Limits { level: Some((true, 24u32)), ..no_limits() }),
        r.config.preview_count == 0,
        r.config.rotation_system == crate::rotation::RotationSystem::Ocular,
        r.config.tetromino_generator is Recency,
        r.state.time == 0,
        r.state.end is None,
        r.state.active_piece_data is None,
        r.modifiers@.len() == 1,
        r.modifiers@[0] matches GameModifier::Puzzle(p) && p.puzzles@.len() == 24 && p.init
            && p.current_puzzle_idx == 0 && p.current_puzzle_attempt == 1,
{
    let puzzle_mode = PuzzleMode::new();
    let puzzles_len = puzzle_mode.puzzles.len() as u32;
    let mode = GameMode {
        name: "Puzzle".to_owned(),
        start_level: 2,
        increment_level: false,
        limits: Limits { time: None, pieces: None, lines: None, level: Some((true, puzzles_len)), score: None },
    };
    let mut game = Game::new(mode, sampler);
    game.config_mut().preview_count = 0;
    game.add_modifier(GameModifier::Puzzle(puzzle_mode));
    game
}

} // verus!
