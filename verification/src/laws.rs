//! Properties that relate several operations of the library, each stated over the spec
//! functions that the operations' contracts use, and proved.

use vstd::prelude::*;
use crate::game::{
    LockingData, locking_data_spec, locking_events,
    GameConfig, GameState, cleared_board, pending_ok, state_wf, clears_perfectly, empty_line, empty_lines, kept_lines, level_after,
    line_empty, line_full, stats_progress,
};
use crate::generation::{TetrominoGenerator, all_zero, min7, seven};
use crate::rotation::{RotationSystem, classic_kick, rotate_spec, turned};
use crate::pieces::{
    shape_minos, ActivePiece, Coord, Line, Offset, Orientation, Tetromino, add_spec, orientation_from_turns, piece_fits,
    orientation_index, tetromino_index, tetromino_of_index,
};

verus! {

/// Turning right `a` times and then `b` times is turning right `a + b` times.
pub proof fn law_turns_compose(o: Orientation, a: int, b: int)
    ensures
        orientation_from_turns(orientation_index(orientation_from_turns(orientation_index(o) + a)) + b)
            == orientation_from_turns(orientation_index(o) + a + b),
{
    let i = orientation_index(o);
    let j = orientation_index(orientation_from_turns(i + a));
    assert(j == (i + a) % 4);
    vstd::arithmetic::div_mod::lemma_add_mod_noop(i + a, b, 4);
    vstd::arithmetic::div_mod::lemma_mod_twice(i + a, 4);
    assert((j + b) % 4 == (i + a + b) % 4) by {
        vstd::arithmetic::div_mod::lemma_add_mod_noop(j, b, 4);
        vstd::arithmetic::div_mod::lemma_mod_twice(i + a, 4);
    }
}

/// Under the Classic system, a rotation of a piece that fits is undone by the opposite
/// rotation: the kick of each quarter turn is the reverse of the kick of the turn back, and
/// half and whole turns do not kick.
pub proof fn law_classic_rotation_undone(p: ActivePiece, board: Seq<Line>, t: int, q: ActivePiece)
    requires
        piece_fits(board, p),
        rotate_spec(RotationSystem::Classic, p, board, t) == Some(q),
    ensures
        rotate_spec(RotationSystem::Classic, q, board, -t) == Some(p),
{
    let r = t % 4;
    let i = orientation_index(p.orientation);
    let k = t / 4;
    assert(t == 4 * k + r);
    assert(-t == 4 * (-k - 1) + (4 - r));
    if r == 0 {
        assert((-t) % 4 == 0) by {
            vstd::arithmetic::div_mod::lemma_mod_multiples_vanish(-k, 0, 4);
            assert(-t == 4 * (-k));
        }
    } else {
        assert((-t) % 4 == 4 - r) by {
            vstd::arithmetic::div_mod::lemma_mod_multiples_vanish(-k - 1, 4 - r, 4);
            vstd::arithmetic::div_mod::lemma_small_mod((4 - r) as nat, 4);
        }
        let tt = if r == 2 { 2 } else { t };
        let tb = if r == 2 { 2 } else { -t };
        law_turns_compose(p.orientation, tt, tb);
        law_full_turns(p.orientation, if r == 2 { 1 } else { 0 });
        assert(tt + tb == if r == 2 { 4int } else { 0int });
        assert(orientation_from_turns(i + tt) == turned(p, tt).orientation);
        let moved = turned(p, tt);
        assert(q.shape == p.shape);
        assert(q.orientation == moved.orientation);
        assert(turned(q, tb).orientation == p.orientation);
        assert(orientation_from_turns(i + t) == orientation_from_turns(i + r)) by {
            vstd::arithmetic::div_mod::lemma_mod_multiples_vanish(k, i + r, 4);
            assert(i + t == 4 * k + (i + r));
        }
        if r == 1 || r == 3 {
            let kick = classic_kick(p.shape, p.orientation, r == 3);
            let back = classic_kick(q.shape, q.orientation, 4 - r == 3);
            assert(back.0 == -kick.0 && back.1 == -kick.1);
        }
    }
}

/// Two cells lie side by side.
pub open spec fn side_by_side(a: Coord, b: Coord) -> bool {
    let dx = a.0 - b.0;
    let dy = a.1 - b.1;
    (dx == 0 && (dy == 1 || dy == -1)) || (dy == 0 && (dx == 1 || dx == -1))
}

/// Whether the four cells, taken in the order `order` (a permutation of `0..4`), each lie
/// beside an earlier one, but for the first: then the four hang together.
pub open spec fn grown_in_order(m: Seq<Coord>, order: Seq<int>) -> bool {
    &&& order.len() == 4
    &&& forall|k: int| 0 <= k < 4 ==> 0 <= #[trigger] order[k] < 4
    &&& forall|k: int, l: int| 0 <= k < l < 4 ==> order[k] != order[l]
    &&& forall|k: int| #![trigger order[k]] 1 <= k < 4 ==> exists|j: int| 0 <= j < k && #[trigger] side_by_side(m[order[k]], m[order[j]])
}

/// Whether the cell `(x, y)` is one of the four cells.
pub open spec fn holds_cell(m: Seq<Coord>, x: int, y: int) -> bool {
    exists|j: int| 0 <= j < 4 && (#[trigger] m[j]).0 == x && m[j].1 == y
}

/// The largest column offset of the four cells.
pub open spec fn max_x(m: Seq<Coord>) -> int {
    let a = if m[0].0 >= m[1].0 { m[0].0 } else { m[1].0 };
    let b = if m[2].0 >= m[3].0 { m[2].0 } else { m[3].0 };
    if a >= b { a as int } else { b as int }
}

/// The four cells of every tetromino in every orientation are distinct and hang together,
/// and a right turn turns them clockwise within their bounding box: each cell `(x, y)`
/// becomes the cell `(y, w - x)` of the next orientation, `w` being the largest column.
pub proof fn law_minos_turn_clockwise(t: Tetromino, o: Orientation)
    ensures
        shape_minos(t, o).len() == 4,
        forall|i: int, j: int| 0 <= i < j < 4 ==> shape_minos(t, o)[i] != shape_minos(t, o)[j],
        exists|order: Seq<int>| #[trigger] grown_in_order(shape_minos(t, o), order),
        forall|i: int| 0 <= i < 4 ==> #[trigger] holds_cell(
            shape_minos(t, orientation_from_turns(orientation_index(o) + 1)),
            shape_minos(t, o)[i].1 as int,
            max_x(shape_minos(t, o)) - shape_minos(t, o)[i].0,
        ),
{
    let m = shape_minos(t, o);
    let m2 = shape_minos(t, orientation_from_turns(orientation_index(o) + 1));
    match (t, o) {
        (Tetromino::O, Orientation::N) => {
            let order = seq![0int, 1, 2, 3];
            assert(side_by_side(m[order[1]], m[order[0]]));
            assert(side_by_side(m[order[2]], m[order[0]]));
            assert(side_by_side(m[order[3]], m[order[1]]));
            assert(grown_in_order(m, order));
            assert(m[0] != m[1] && m[0] != m[2] && m[0] != m[3] && m[1] != m[2] && m[1] != m[3] && m[2] != m[3]);
            assert(m2[2].0 == m[0].1 && m2[2].1 == max_x(m) - m[0].0);
            assert(holds_cell(m2, m[0].1 as int, max_x(m) - m[0].0));
            assert(m2[0].0 == m[1].1 && m2[0].1 == max_x(m) - m[1].0);
            assert(holds_cell(m2, m[1].1 as int, max_x(m) - m[1].0));
            assert(m2[3].0 == m[2].1 && m2[3].1 == max_x(m) - m[2].0);
            assert(holds_cell(m2, m[2].1 as int, max_x(m) - m[2].0));
            assert(m2[1].0 == m[3].1 && m2[1].1 == max_x(m) - m[3].0);
            assert(holds_cell(m2, m[3].1 as int, max_x(m) - m[3].0));
        },
        (Tetromino::O, Orientation::E) => {
            let order = seq![0int, 1, 2, 3];
            assert(side_by_side(m[order[1]], m[order[0]]));
            assert(side_by_side(m[order[2]], m[order[0]]));
            assert(side_by_side(m[order[3]], m[order[1]]));
            assert(grown_in_order(m, order));
            assert(m[0] != m[1] && m[0] != m[2] && m[0] != m[3] && m[1] != m[2] && m[1] != m[3] && m[2] != m[3]);
            assert(m2[2].0 == m[0].1 && m2[2].1 == max_x(m) - m[0].0);
            assert(holds_cell(m2, m[0].1 as int, max_x(m) - m[0].0));
            assert(m2[0].0 == m[1].1 && m2[0].1 == max_x(m) - m[1].0);
            assert(holds_cell(m2, m[1].1 as int, max_x(m) - m[1].0));
            assert(m2[3].0 == m[2].1 && m2[3].1 == max_x(m) - m[2].0);
            assert(holds_cell(m2, m[2].1 as int, max_x(m) - m[2].0));
            assert(m2[1].0 == m[3].1 && m2[1].1 == max_x(m) - m[3].0);
            assert(holds_cell(m2, m[3].1 as int, max_x(m) - m[3].0));
        },
        (Tetromino::O, Orientation::S) => {
            let order = seq![0int, 1, 2, 3];
            assert(side_by_side(m[order[1]], m[order[0]]));
            assert(side_by_side(m[order[2]], m[order[0]]));
            assert(side_by_side(m[order[3]], m[order[1]]));
            assert(grown_in_order(m, order));
            assert(m[0] != m[1] && m[0] != m[2] && m[0] != m[3] && m[1] != m[2] && m[1] != m[3] && m[2] != m[3]);
            assert(m2[2].0 == m[0].1 && m2[2].1 == max_x(m) - m[0].0);
            assert(holds_cell(m2, m[0].1 as int, max_x(m) - m[0].0));
            assert(m2[0].0 == m[1].1 && m2[0].1 == max_x(m) - m[1].0);
            assert(holds_cell(m2, m[1].1 as int, max_x(m) - m[1].0));
            assert(m2[3].0 == m[2].1 && m2[3].1 == max_x(m) - m[2].0);
            assert(holds_cell(m2, m[2].1 as int, max_x(m) - m[2].0));
            assert(m2[1].0 == m[3].1 && m2[1].1 == max_x(m) - m[3].0);
            assert(holds_cell(m2, m[3].1 as int, max_x(m) - m[3].0));
        },
        (Tetromino::O, Orientation::W) => {
            let order = seq![0int, 1, 2, 3];
            assert(side_by_side(m[order[1]], m[order[0]]));
            assert(side_by_side(m[order[2]], m[order[0]]));
            assert(side_by_side(m[order[3]], m[order[1]]));
            assert(grown_in_order(m, order));
            assert(m[0] != m[1] && m[0] != m[2] && m[0] != m[3] && m[1] != m[2] && m[1] != m[3] && m[2] != m[3]);
            assert(m2[2].0 == m[0].1 && m2[2].1 == max_x(m) - m[0].0);
            assert(holds_cell(m2, m[0].1 as int, max_x(m) - m[0].0));
            assert(m2[0].0 == m[1].1 && m2[0].1 == max_x(m) - m[1].0);
            assert(holds_cell(m2, m[1].1 as int, max_x(m) - m[1].0));
            assert(m2[3].0 == m[2].1 && m2[3].1 == max_x(m) - m[2].0);
            assert(holds_cell(m2, m[2].1 as int, max_x(m) - m[2].0));
            assert(m2[1].0 == m[3].1 && m2[1].1 == max_x(m) - m[3].0);
            assert(holds_cell(m2, m[3].1 as int, max_x(m) - m[3].0));
        },
        (Tetromino::I, Orientation::N) => {
            let order = seq![0int, 1, 2, 3];
            assert(side_by_side(m[order[1]], m[order[0]]));
            assert(side_by_side(m[order[2]], m[order[1]]));
            assert(side_by_side(m[order[3]], m[order[2]]));
            assert(grown_in_order(m, order));
            assert(m[0] != m[1] && m[0] != m[2] && m[0] != m[3] && m[1] != m[2] && m[1] != m[3] && m[2] != m[3]);
            assert(m2[3].0 == m[0].1 && m2[3].1 == max_x(m) - m[0].0);
            assert(holds_cell(m2, m[0].1 as int, max_x(m) - m[0].0));
            assert(m2[2].0 == m[1].1 && m2[2].1 == max_x(m) - m[1].0);
            assert(holds_cell(m2, m[1].1 as int, max_x(m) - m[1].0));
            assert(m2[1].0 == m[2].1 && m2[1].1 == max_x(m) - m[2].0);
            assert(holds_cell(m2, m[2].1 as int, max_x(m) - m[2].0));
            assert(m2[0].0 == m[3].1 && m2[0].1 == max_x(m) - m[3].0);
            assert(holds_cell(m2, m[3].1 as int, max_x(m) - m[3].0));
        },
        (Tetromino::I, Orientation::E) => {
            let order = seq![0int, 1, 2, 3];
            assert(side_by_side(m[order[1]], m[order[0]]));
            assert(side_by_side(m[order[2]], m[order[1]]));
            assert(side_by_side(m[order[3]], m[order[2]]));
            assert(grown_in_order(m, order));
            assert(m[0] != m[1] && m[0] != m[2] && m[0] != m[3] && m[1] != m[2] && m[1] != m[3] && m[2] != m[3]);
            assert(m2[0].0 == m[0].1 && m2[0].1 == max_x(m) - m[0].0);
            assert(holds_cell(m2, m[0].1 as int, max_x(m) - m[0].0));
            assert(m2[1].0 == m[1].1 && m2[1].1 == max_x(m) - m[1].0);
            assert(holds_cell(m2, m[1].1 as int, max_x(m) - m[1].0));
            assert(m2[2].0 == m[2].1 && m2[2].1 == max_x(m) - m[2].0);
            assert(holds_cell(m2, m[2].1 as int, max_x(m) - m[2].0));
            assert(m2[3].0 == m[3].1 && m2[3].1 == max_x(m) - m[3].0);
            assert(holds_cell(m2, m[3].1 as int, max_x(m) - m[3].0));
        },
        (Tetromino::I, Orientation::S) => {
            let order = seq![0int, 1, 2, 3];
            assert(side_by_side(m[order[1]], m[order[0]]));
            assert(side_by_side(m[order[2]], m[order[1]]));
            assert(side_by_side(m[order[3]], m[order[2]]));
            assert(grown_in_order(m, order));
            assert(m[0] != m[1] && m[0] != m[2] && m[0] != m[3] && m[1] != m[2] && m[1] != m[3] && m[2] != m[3]);
            assert(m2[3].0 == m[0].1 && m2[3].1 == max_x(m) - m[0].0);
            assert(holds_cell(m2, m[0].1 as int, max_x(m) - m[0].0));
            assert(m2[2].0 == m[1].1 && m2[2].1 == max_x(m) - m[1].0);
            assert(holds_cell(m2, m[1].1 as int, max_x(m) - m[1].0));
            assert(m2[1].0 == m[2].1 && m2[1].1 == max_x(m) - m[2].0);
            assert(holds_cell(m2, m[2].1 as int, max_x(m) - m[2].0));
            assert(m2[0].0 == m[3].1 && m2[0].1 == max_x(m) - m[3].0);
            assert(holds_cell(m2, m[3].1 as int, max_x(m) - m[3].0));
        },
        (Tetromino::I, Orientation::W) => {
            let order = seq![0int, 1, 2, 3];
            assert(side_by_side(m[order[1]], m[order[0]]));
            assert(side_by_side(m[order[2]], m[order[1]]));
            assert(side_by_side(m[order[3]], m[order[2]]));
            assert(grown_in_order(m, order));
            assert(m[0] != m[1] && m[0] != m[2] && m[0] != m[3] && m[1] != m[2] && m[1] != m[3] && m[2] != m[3]);
            assert(m2[0].0 == m[0].1 && m2[0].1 == max_x(m) - m[0].0);
            assert(holds_cell(m2, m[0].1 as int, max_x(m) - m[0].0));
            assert(m2[1].0 == m[1].1 && m2[1].1 == max_x(m) - m[1].0);
            assert(holds_cell(m2, m[1].1 as int, max_x(m) - m[1].0));
            assert(m2[2].0 == m[2].1 && m2[2].1 == max_x(m) - m[2].0);
            assert(holds_cell(m2, m[2].1 as int, max_x(m) - m[2].0));
            assert(m2[3].0 == m[3].1 && m2[3].1 == max_x(m) - m[3].0);
            assert(holds_cell(m2, m[3].1 as int, max_x(m) - m[3].0));
        },
        (Tetromino::S, Orientation::N) => {
            let order = seq![0int, 1, 2, 3];
            assert(side_by_side(m[order[1]], m[order[0]]));
            assert(side_by_side(m[order[2]], m[order[1]]));
            assert(side_by_side(m[order[3]], m[order[2]]));
            assert(grown_in_order(m, order));
            assert(m[0] != m[1] && m[0] != m[2] && m[0] != m[3] && m[1] != m[2] && m[1] != m[3] && m[2] != m[3]);
            assert(m2[3].0 == m[0].1 && m2[3].1 == max_x(m) - m[0].0);
            assert(holds_cell(m2, m[0].1 as int, max_x(m) - m[0].0));
            assert(m2[1].0 == m[1].1 && m2[1].1 == max_x(m) - m[1].0);
            assert(holds_cell(m2, m[1].1 as int, max_x(m) - m[1].0));
            assert(m2[2].0 == m[2].1 && m2[2].1 == max_x(m) - m[2].0);
            assert(holds_cell(m2, m[2].1 as int, max_x(m) - m[2].0));
            assert(m2[0].0 == m[3].1 && m2[0].1 == max_x(m) - m[3].0);
            assert(holds_cell(m2, m[3].1 as int, max_x(m) - m[3].0));
        },
        (Tetromino::S, Orientation::E) => {
            let order = seq![0int, 2, 1, 3];
            assert(side_by_side(m[order[1]], m[order[0]]));
            assert(side_by_side(m[order[2]], m[order[1]]));
            assert(side_by_side(m[order[3]], m[order[2]]));
            assert(grown_in_order(m, order));
            assert(m[0] != m[1] && m[0] != m[2] && m[0] != m[3] && m[1] != m[2] && m[1] != m[3] && m[2] != m[3]);
            assert(m2[0].0 == m[0].1 && m2[0].1 == max_x(m) - m[0].0);
            assert(holds_cell(m2, m[0].1 as int, max_x(m) - m[0].0));
            assert(m2[2].0 == m[1].1 && m2[2].1 == max_x(m) - m[1].0);
            assert(holds_cell(m2, m[1].1 as int, max_x(m) - m[1].0));
            assert(m2[1].0 == m[2].1 && m2[1].1 == max_x(m) - m[2].0);
            assert(holds_cell(m2, m[2].1 as int, max_x(m) - m[2].0));
            assert(m2[3].0 == m[3].1 && m2[3].1 == max_x(m) - m[3].0);
            assert(holds_cell(m2, m[3].1 as int, max_x(m) - m[3].0));
        },
        (Tetromino::S, Orientation::S) => {
            let order = seq![0int, 1, 2, 3];
            assert(side_by_side(m[order[1]], m[order[0]]));
            assert(side_by_side(m[order[2]], m[order[1]]));
            assert(side_by_side(m[order[3]], m[order[2]]));
            assert(grown_in_order(m, order));
            assert(m[0] != m[1] && m[0] != m[2] && m[0] != m[3] && m[1] != m[2] && m[1] != m[3] && m[2] != m[3]);
            assert(m2[3].0 == m[0].1 && m2[3].1 == max_x(m) - m[0].0);
            assert(holds_cell(m2, m[0].1 as int, max_x(m) - m[0].0));
            assert(m2[1].0 == m[1].1 && m2[1].1 == max_x(m) - m[1].0);
            assert(holds_cell(m2, m[1].1 as int, max_x(m) - m[1].0));
            assert(m2[2].0 == m[2].1 && m2[2].1 == max_x(m) - m[2].0);
            assert(holds_cell(m2, m[2].1 as int, max_x(m) - m[2].0));
            assert(m2[0].0 == m[3].1 && m2[0].1 == max_x(m) - m[3].0);
            assert(holds_cell(m2, m[3].1 as int, max_x(m) - m[3].0));
        },
        (Tetromino::S, Orientation::W) => {
            let order = seq![0int, 2, 1, 3];
            assert(side_by_side(m[order[1]], m[order[0]]));
            assert(side_by_side(m[order[2]], m[order[1]]));
            assert(side_by_side(m[order[3]], m[order[2]]));
            assert(grown_in_order(m, order));
            assert(m[0] != m[1] && m[0] != m[2] && m[0] != m[3] && m[1] != m[2] && m[1] != m[3] && m[2] != m[3]);
            assert(m2[0].0 == m[0].1 && m2[0].1 == max_x(m) - m[0].0);
            assert(holds_cell(m2, m[0].1 as int, max_x(m) - m[0].0));
            assert(m2[2].0 == m[1].1 && m2[2].1 == max_x(m) - m[1].0);
            assert(holds_cell(m2, m[1].1 as int, max_x(m) - m[1].0));
            assert(m2[1].0 == m[2].1 && m2[1].1 == max_x(m) - m[2].0);
            assert(holds_cell(m2, m[2].1 as int, max_x(m) - m[2].0));
            assert(m2[3].0 == m[3].1 && m2[3].1 == max_x(m) - m[3].0);
            assert(holds_cell(m2, m[3].1 as int, max_x(m) - m[3].0));
        },
        (Tetromino::Z, Orientation::N) => {
            let order = seq![0int, 1, 3, 2];
            assert(side_by_side(m[order[1]], m[order[0]]));
            assert(side_by_side(m[order[2]], m[order[0]]));
            assert(side_by_side(m[order[3]], m[order[2]]));
            assert(grown_in_order(m, order));
            assert(m[0] != m[1] && m[0] != m[2] && m[0] != m[3] && m[1] != m[2] && m[1] != m[3] && m[2] != m[3]);
            assert(m2[1].0 == m[0].1 && m2[1].1 == max_x(m) - m[0].0);
            assert(holds_cell(m2, m[0].1 as int, max_x(m) - m[0].0));
            assert(m2[0].0 == m[1].1 && m2[0].1 == max_x(m) - m[1].0);
            assert(holds_cell(m2, m[1].1 as int, max_x(m) - m[1].0));
            assert(m2[3].0 == m[2].1 && m2[3].1 == max_x(m) - m[2].0);
            assert(holds_cell(m2, m[2].1 as int, max_x(m) - m[2].0));
            assert(m2[2].0 == m[3].1 && m2[2].1 == max_x(m) - m[3].0);
            assert(holds_cell(m2, m[3].1 as int, max_x(m) - m[3].0));
        },
        (Tetromino::Z, Orientation::E) => {
            let order = seq![0int, 1, 2, 3];
            assert(side_by_side(m[order[1]], m[order[0]]));
            assert(side_by_side(m[order[2]], m[order[1]]));
            assert(side_by_side(m[order[3]], m[order[2]]));
            assert(grown_in_order(m, order));
            assert(m[0] != m[1] && m[0] != m[2] && m[0] != m[3] && m[1] != m[2] && m[1] != m[3] && m[2] != m[3]);
            assert(m2[2].0 == m[0].1 && m2[2].1 == max_x(m) - m[0].0);
            assert(holds_cell(m2, m[0].1 as int, max_x(m) - m[0].0));
            assert(m2[3].0 == m[1].1 && m2[3].1 == max_x(m) - m[1].0);
            assert(holds_cell(m2, m[1].1 as int, max_x(m) - m[1].0));
            assert(m2[0].0 == m[2].1 && m2[0].1 == max_x(m) - m[2].0);
            assert(holds_cell(m2, m[2].1 as int, max_x(m) - m[2].0));
            assert(m2[1].0 == m[3].1 && m2[1].1 == max_x(m) - m[3].0);
            assert(holds_cell(m2, m[3].1 as int, max_x(m) - m[3].0));
        },
        (Tetromino::Z, Orientation::S) => {
            let order = seq![0int, 1, 3, 2];
            assert(side_by_side(m[order[1]], m[order[0]]));
            assert(side_by_side(m[order[2]], m[order[0]]));
            assert(side_by_side(m[order[3]], m[order[2]]));
            assert(grown_in_order(m, order));
            assert(m[0] != m[1] && m[0] != m[2] && m[0] != m[3] && m[1] != m[2] && m[1] != m[3] && m[2] != m[3]);
            assert(m2[1].0 == m[0].1 && m2[1].1 == max_x(m) - m[0].0);
            assert(holds_cell(m2, m[0].1 as int, max_x(m) - m[0].0));
            assert(m2[0].0 == m[1].1 && m2[0].1 == max_x(m) - m[1].0);
            assert(holds_cell(m2, m[1].1 as int, max_x(m) - m[1].0));
            assert(m2[3].0 == m[2].1 && m2[3].1 == max_x(m) - m[2].0);
            assert(holds_cell(m2, m[2].1 as int, max_x(m) - m[2].0));
            assert(m2[2].0 == m[3].1 && m2[2].1 == max_x(m) - m[3].0);
            assert(holds_cell(m2, m[3].1 as int, max_x(m) - m[3].0));
        },
        (Tetromino::Z, Orientation::W) => {
            let order = seq![0int, 1, 2, 3];
            assert(side_by_side(m[order[1]], m[order[0]]));
            assert(side_by_side(m[order[2]], m[order[1]]));
            assert(side_by_side(m[order[3]], m[order[2]]));
            assert(grown_in_order(m, order));
            assert(m[0] != m[1] && m[0] != m[2] && m[0] != m[3] && m[1] != m[2] && m[1] != m[3] && m[2] != m[3]);
            assert(m2[2].0 == m[0].1 && m2[2].1 == max_x(m) - m[0].0);
            assert(holds_cell(m2, m[0].1 as int, max_x(m) - m[0].0));
            assert(m2[3].0 == m[1].1 && m2[3].1 == max_x(m) - m[1].0);
            assert(holds_cell(m2, m[1].1 as int, max_x(m) - m[1].0));
            assert(m2[0].0 == m[2].1 && m2[0].1 == max_x(m) - m[2].0);
            assert(holds_cell(m2, m[2].1 as int, max_x(m) - m[2].0));
            assert(m2[1].0 == m[3].1 && m2[1].1 == max_x(m) - m[3].0);
            assert(holds_cell(m2, m[3].1 as int, max_x(m) - m[3].0));
        },
        (Tetromino::T, Orientation::N) => {
            let order = seq![0int, 1, 2, 3];
            assert(side_by_side(m[order[1]], m[order[0]]));
            assert(side_by_side(m[order[2]], m[order[1]]));
            assert(side_by_side(m[order[3]], m[order[1]]));
            assert(grown_in_order(m, order));
            assert(m[0] != m[1] && m[0] != m[2] && m[0] != m[3] && m[1] != m[2] && m[1] != m[3] && m[2] != m[3]);
            assert(m2[3].0 == m[0].1 && m2[3].1 == max_x(m) - m[0].0);
            assert(holds_cell(m2, m[0].1 as int, max_x(m) - m[0].0));
            assert(m2[1].0 == m[1].1 && m2[1].1 == max_x(m) - m[1].0);
            assert(holds_cell(m2, m[1].1 as int, max_x(m) - m[1].0));
            assert(m2[0].0 == m[2].1 && m2[0].1 == max_x(m) - m[2].0);
            assert(holds_cell(m2, m[2].1 as int, max_x(m) - m[2].0));
            assert(m2[2].0 == m[3].1 && m2[2].1 == max_x(m) - m[3].0);
            assert(holds_cell(m2, m[3].1 as int, max_x(m) - m[3].0));
        },
        (Tetromino::T, Orientation::E) => {
            let order = seq![0int, 1, 2, 3];
            assert(side_by_side(m[order[1]], m[order[0]]));
            assert(side_by_side(m[order[2]], m[order[1]]));
            assert(side_by_side(m[order[3]], m[order[1]]));
            assert(grown_in_order(m, order));
            assert(m[0] != m[1] && m[0] != m[2] && m[0] != m[3] && m[1] != m[2] && m[1] != m[3] && m[2] != m[3]);
            assert(m2[1].0 == m[0].1 && m2[1].1 == max_x(m) - m[0].0);
            assert(holds_cell(m2, m[0].1 as int, max_x(m) - m[0].0));
            assert(m2[2].0 == m[1].1 && m2[2].1 == max_x(m) - m[1].0);
            assert(holds_cell(m2, m[1].1 as int, max_x(m) - m[1].0));
            assert(m2[0].0 == m[2].1 && m2[0].1 == max_x(m) - m[2].0);
            assert(holds_cell(m2, m[2].1 as int, max_x(m) - m[2].0));
            assert(m2[3].0 == m[3].1 && m2[3].1 == max_x(m) - m[3].0);
            assert(holds_cell(m2, m[3].1 as int, max_x(m) - m[3].0));
        },
        (Tetromino::T, Orientation::S) => {
            let order = seq![0int, 2, 1, 3];
            assert(side_by_side(m[order[1]], m[order[0]]));
            assert(side_by_side(m[order[2]], m[order[1]]));
            assert(side_by_side(m[order[3]], m[order[1]]));
            assert(grown_in_order(m, order));
            assert(m[0] != m[1] && m[0] != m[2] && m[0] != m[3] && m[1] != m[2] && m[1] != m[3] && m[2] != m[3]);
            assert(m2[1].0 == m[0].1 && m2[1].1 == max_x(m) - m[0].0);
            assert(holds_cell(m2, m[0].1 as int, max_x(m) - m[0].0));
            assert(m2[3].0 == m[1].1 && m2[3].1 == max_x(m) - m[1].0);
            assert(holds_cell(m2, m[1].1 as int, max_x(m) - m[1].0));
            assert(m2[2].0 == m[2].1 && m2[2].1 == max_x(m) - m[2].0);
            assert(holds_cell(m2, m[2].1 as int, max_x(m) - m[2].0));
            assert(m2[0].0 == m[3].1 && m2[0].1 == max_x(m) - m[3].0);
            assert(holds_cell(m2, m[3].1 as int, max_x(m) - m[3].0));
        },
        (Tetromino::T, Orientation::W) => {
            let order = seq![0int, 2, 1, 3];
            assert(side_by_side(m[order[1]], m[order[0]]));
            assert(side_by_side(m[order[2]], m[order[1]]));
            assert(side_by_side(m[order[3]], m[order[1]]));
            assert(grown_in_order(m, order));
            assert(m[0] != m[1] && m[0] != m[2] && m[0] != m[3] && m[1] != m[2] && m[1] != m[3] && m[2] != m[3]);
            assert(m2[0].0 == m[0].1 && m2[0].1 == max_x(m) - m[0].0);
            assert(holds_cell(m2, m[0].1 as int, max_x(m) - m[0].0));
            assert(m2[3].0 == m[1].1 && m2[3].1 == max_x(m) - m[1].0);
            assert(holds_cell(m2, m[1].1 as int, max_x(m) - m[1].0));
            assert(m2[1].0 == m[2].1 && m2[1].1 == max_x(m) - m[2].0);
            assert(holds_cell(m2, m[2].1 as int, max_x(m) - m[2].0));
            assert(m2[2].0 == m[3].1 && m2[2].1 == max_x(m) - m[3].0);
            assert(holds_cell(m2, m[3].1 as int, max_x(m) - m[3].0));
        },
        (Tetromino::L, Orientation::N) => {
            let order = seq![0int, 1, 2, 3];
            assert(side_by_side(m[order[1]], m[order[0]]));
            assert(side_by_side(m[order[2]], m[order[1]]));
            assert(side_by_side(m[order[3]], m[order[2]]));
            assert(grown_in_order(m, order));
            assert(m[0] != m[1] && m[0] != m[2] && m[0] != m[3] && m[1] != m[2] && m[1] != m[3] && m[2] != m[3]);
            assert(m2[3].0 == m[0].1 && m2[3].1 == max_x(m) - m[0].0);
            assert(holds_cell(m2, m[0].1 as int, max_x(m) - m[0].0));
            assert(m2[2].0 == m[1].1 && m2[2].1 == max_x(m) - m[1].0);
            assert(holds_cell(m2, m[1].1 as int, max_x(m) - m[1].0));
            assert(m2[0].0 == m[2].1 && m2[0].1 == max_x(m) - m[2].0);
            assert(holds_cell(m2, m[2].1 as int, max_x(m) - m[2].0));
            assert(m2[1].0 == m[3].1 && m2[1].1 == max_x(m) - m[3].0);
            assert(holds_cell(m2, m[3].1 as int, max_x(m) - m[3].0));
        },
        (Tetromino::L, Orientation::E) => {
            let order = seq![0int, 1, 2, 3];
            assert(side_by_side(m[order[1]], m[order[0]]));
            assert(side_by_side(m[order[2]], m[order[0]]));
            assert(side_by_side(m[order[3]], m[order[2]]));
            assert(grown_in_order(m, order));
            assert(m[0] != m[1] && m[0] != m[2] && m[0] != m[3] && m[1] != m[2] && m[1] != m[3] && m[2] != m[3]);
            assert(m2[1].0 == m[0].1 && m2[1].1 == max_x(m) - m[0].0);
            assert(holds_cell(m2, m[0].1 as int, max_x(m) - m[0].0));
            assert(m2[0].0 == m[1].1 && m2[0].1 == max_x(m) - m[1].0);
            assert(holds_cell(m2, m[1].1 as int, max_x(m) - m[1].0));
            assert(m2[2].0 == m[2].1 && m2[2].1 == max_x(m) - m[2].0);
            assert(holds_cell(m2, m[2].1 as int, max_x(m) - m[2].0));
            assert(m2[3].0 == m[3].1 && m2[3].1 == max_x(m) - m[3].0);
            assert(holds_cell(m2, m[3].1 as int, max_x(m) - m[3].0));
        },
        (Tetromino::L, Orientation::S) => {
            let order = seq![0int, 1, 2, 3];
            assert(side_by_side(m[order[1]], m[order[0]]));
            assert(side_by_side(m[order[2]], m[order[1]]));
            assert(side_by_side(m[order[3]], m[order[2]]));
            assert(grown_in_order(m, order));
            assert(m[0] != m[1] && m[0] != m[2] && m[0] != m[3] && m[1] != m[2] && m[1] != m[3] && m[2] != m[3]);
            assert(m2[2].0 == m[0].1 && m2[2].1 == max_x(m) - m[0].0);
            assert(holds_cell(m2, m[0].1 as int, max_x(m) - m[0].0));
            assert(m2[3].0 == m[1].1 && m2[3].1 == max_x(m) - m[1].0);
            assert(holds_cell(m2, m[1].1 as int, max_x(m) - m[1].0));
            assert(m2[1].0 == m[2].1 && m2[1].1 == max_x(m) - m[2].0);
            assert(holds_cell(m2, m[2].1 as int, max_x(m) - m[2].0));
            assert(m2[0].0 == m[3].1 && m2[0].1 == max_x(m) - m[3].0);
            assert(holds_cell(m2, m[3].1 as int, max_x(m) - m[3].0));
        },
        (Tetromino::L, Orientation::W) => {
            let order = seq![0int, 1, 3, 2];
            assert(side_by_side(m[order[1]], m[order[0]]));
            assert(side_by_side(m[order[2]], m[order[1]]));
            assert(side_by_side(m[order[3]], m[order[2]]));
            assert(grown_in_order(m, order));
            assert(m[0] != m[1] && m[0] != m[2] && m[0] != m[3] && m[1] != m[2] && m[1] != m[3] && m[2] != m[3]);
            assert(m2[0].0 == m[0].1 && m2[0].1 == max_x(m) - m[0].0);
            assert(holds_cell(m2, m[0].1 as int, max_x(m) - m[0].0));
            assert(m2[1].0 == m[1].1 && m2[1].1 == max_x(m) - m[1].0);
            assert(holds_cell(m2, m[1].1 as int, max_x(m) - m[1].0));
            assert(m2[3].0 == m[2].1 && m2[3].1 == max_x(m) - m[2].0);
            assert(holds_cell(m2, m[2].1 as int, max_x(m) - m[2].0));
            assert(m2[2].0 == m[3].1 && m2[2].1 == max_x(m) - m[3].0);
            assert(holds_cell(m2, m[3].1 as int, max_x(m) - m[3].0));
        },
        (Tetromino::J, Orientation::N) => {
            let order = seq![0int, 1, 2, 3];
            assert(side_by_side(m[order[1]], m[order[0]]));
            assert(side_by_side(m[order[2]], m[order[1]]));
            assert(side_by_side(m[order[3]], m[order[0]]));
            assert(grown_in_order(m, order));
            assert(m[0] != m[1] && m[0] != m[2] && m[0] != m[3] && m[1] != m[2] && m[1] != m[3] && m[2] != m[3]);
            assert(m2[2].0 == m[0].1 && m2[2].1 == max_x(m) - m[0].0);
            assert(holds_cell(m2, m[0].1 as int, max_x(m) - m[0].0));
            assert(m2[1].0 == m[1].1 && m2[1].1 == max_x(m) - m[1].0);
            assert(holds_cell(m2, m[1].1 as int, max_x(m) - m[1].0));
            assert(m2[0].0 == m[2].1 && m2[0].1 == max_x(m) - m[2].0);
            assert(holds_cell(m2, m[2].1 as int, max_x(m) - m[2].0));
            assert(m2[3].0 == m[3].1 && m2[3].1 == max_x(m) - m[3].0);
            assert(holds_cell(m2, m[3].1 as int, max_x(m) - m[3].0));
        },
        (Tetromino::J, Orientation::E) => {
            let order = seq![0int, 1, 2, 3];
            assert(side_by_side(m[order[1]], m[order[0]]));
            assert(side_by_side(m[order[2]], m[order[1]]));
            assert(side_by_side(m[order[3]], m[order[2]]));
            assert(grown_in_order(m, order));
            assert(m[0] != m[1] && m[0] != m[2] && m[0] != m[3] && m[1] != m[2] && m[1] != m[3] && m[2] != m[3]);
            assert(m2[1].0 == m[0].1 && m2[1].1 == max_x(m) - m[0].0);
            assert(holds_cell(m2, m[0].1 as int, max_x(m) - m[0].0));
            assert(m2[2].0 == m[1].1 && m2[2].1 == max_x(m) - m[1].0);
            assert(holds_cell(m2, m[1].1 as int, max_x(m) - m[1].0));
            assert(m2[3].0 == m[2].1 && m2[3].1 == max_x(m) - m[2].0);
            assert(holds_cell(m2, m[2].1 as int, max_x(m) - m[2].0));
            assert(m2[0].0 == m[3].1 && m2[0].1 == max_x(m) - m[3].0);
            assert(holds_cell(m2, m[3].1 as int, max_x(m) - m[3].0));
        },
        (Tetromino::J, Orientation::S) => {
            let order = seq![0int, 3, 2, 1];
            assert(side_by_side(m[order[1]], m[order[0]]));
            assert(side_by_side(m[order[2]], m[order[1]]));
            assert(side_by_side(m[order[3]], m[order[2]]));
            assert(grown_in_order(m, order));
            assert(m[0] != m[1] && m[0] != m[2] && m[0] != m[3] && m[1] != m[2] && m[1] != m[3] && m[2] != m[3]);
            assert(m2[0].0 == m[0].1 && m2[0].1 == max_x(m) - m[0].0);
            assert(holds_cell(m2, m[0].1 as int, max_x(m) - m[0].0));
            assert(m2[3].0 == m[1].1 && m2[3].1 == max_x(m) - m[1].0);
            assert(holds_cell(m2, m[1].1 as int, max_x(m) - m[1].0));
            assert(m2[2].0 == m[2].1 && m2[2].1 == max_x(m) - m[2].0);
            assert(holds_cell(m2, m[2].1 as int, max_x(m) - m[2].0));
            assert(m2[1].0 == m[3].1 && m2[1].1 == max_x(m) - m[3].0);
            assert(holds_cell(m2, m[3].1 as int, max_x(m) - m[3].0));
        },
        (Tetromino::J, Orientation::W) => {
            let order = seq![0int, 1, 2, 3];
            assert(side_by_side(m[order[1]], m[order[0]]));
            assert(side_by_side(m[order[2]], m[order[1]]));
            assert(side_by_side(m[order[3]], m[order[2]]));
            assert(grown_in_order(m, order));
            assert(m[0] != m[1] && m[0] != m[2] && m[0] != m[3] && m[1] != m[2] && m[1] != m[3] && m[2] != m[3]);
            assert(m2[3].0 == m[0].1 && m2[3].1 == max_x(m) - m[0].0);
            assert(holds_cell(m2, m[0].1 as int, max_x(m) - m[0].0));
            assert(m2[0].0 == m[1].1 && m2[0].1 == max_x(m) - m[1].0);
            assert(holds_cell(m2, m[1].1 as int, max_x(m) - m[1].0));
            assert(m2[1].0 == m[2].1 && m2[1].1 == max_x(m) - m[2].0);
            assert(holds_cell(m2, m[2].1 as int, max_x(m) - m[2].0));
            assert(m2[2].0 == m[3].1 && m2[2].1 == max_x(m) - m[3].0);
            assert(holds_cell(m2, m[3].1 as int, max_x(m) - m[3].0));
        },
    }
    assert forall|i: int| 0 <= i < 4 implies #[trigger] holds_cell(m2, m[i].1 as int, max_x(m) - m[i].0) by {
        assert(i == 0 || i == 1 || i == 2 || i == 3);
    }
    assert forall|i: int, j: int| 0 <= i < j < 4 implies m[i] != m[j] by {
        assert(i == 0 || i == 1 || i == 2);
        assert(j == 1 || j == 2 || j == 3);
    }
}

/// A piece on the ground is locked once its ground time runs out: the remaining ground time
/// of a grounded piece never exceeds the configured maximum (2250 ms by default), and a lock
/// timer that is scheduled anew for it fires no later than its last touchdown plus its
/// remaining ground time (or at once, if that has passed); an existing timer is kept.
pub proof fn law_ground_time_bounds_lock(
    ev: Map<crate::events::InternalEvent, crate::modes::GameTime>,
    event: crate::events::InternalEvent,
    prev: Option<(ActivePiece, LockingData)>,
    next: ActivePiece,
    t: crate::modes::GameTime,
    ground_time_max: crate::modes::GameTime,
    level: u32,
)
    requires
        prev matches Some((_, pl)) ==> pl.ground_time_left <= ground_time_max,
        prev matches Some((_, pl)) ==> (pl.last_touchdown matches Some(td) ==> td <= t),
        prev matches Some((_, pl)) ==> crate::game::locking_data_ok(pl),
    ensures
        ({
            let nld = locking_data_spec(prev, next, true, t, ground_time_max, level);
            let ev2 = locking_events(ev, event, prev, next, true, t, nld, level);
            let lock = crate::events::InternalEvent::LockTimer;
            &&& nld.touches_ground
            &&& nld.ground_time_left <= ground_time_max
            &&& nld.last_touchdown matches Some(td) && td <= t && {
                ||| ev.contains_key(lock) && ev2[lock] == ev[lock]
                ||| ev2[lock] <= if td + nld.ground_time_left > t { td + nld.ground_time_left } else { t as int }
            }
            &&& ev2.contains_key(lock)
        }),
{
    let nld = locking_data_spec(prev, next, true, t, ground_time_max, level);
    let td = nld.last_touchdown.unwrap();
    let remaining = crate::game::since(nld.ground_time_left, crate::game::since(t, td));
    assert(td <= t);
    assert(t + remaining <= if td + nld.ground_time_left > t { td + nld.ground_time_left } else { t as int });
}

/// Whether mino `i` of the four lies beside each of the other three: the middle cell of a T.
pub open spec fn middle_mino(m: Seq<Coord>, i: int) -> bool {
    &&& 0 <= i < 4
    &&& forall|j: int| 0 <= j < 4 && j != i ==> #[trigger] side_by_side(m[i], m[j])
}

/// Whether every cell of the playing area of the board is free.
pub open spec fn board_clear(board: Seq<Line>) -> bool {
    &&& board.len() == crate::pieces::HEIGHT
    &&& forall|y: int, x: int| 0 <= y < crate::pieces::HEIGHT && 0 <= x < crate::pieces::WIDTH ==> #[trigger] board[y][x] is None
}

/// A T piece has exactly one middle cell in each orientation.
proof fn lemma_t_middle(o: Orientation, i: int)
    requires
        middle_mino(shape_minos(Tetromino::T, o), i),
    ensures
        i == (match o {
            Orientation::N | Orientation::E => 1int,
            Orientation::S | Orientation::W => 2int,
        }),
{
    let m = shape_minos(Tetromino::T, o);
    match o {
        Orientation::N => {
            if i == 0 { assert(!side_by_side(m[0], m[2])); }
            if i == 2 { assert(!side_by_side(m[2], m[0])); }
            if i == 3 { assert(!side_by_side(m[3], m[0])); }
        },
        Orientation::E => {
            if i == 0 { assert(!side_by_side(m[0], m[3])); }
            if i == 2 { assert(!side_by_side(m[2], m[0])); }
            if i == 3 { assert(!side_by_side(m[3], m[0])); }
        },
        Orientation::S => {
            if i == 0 { assert(!side_by_side(m[0], m[1])); }
            if i == 1 { assert(!side_by_side(m[1], m[3])); }
            if i == 3 { assert(!side_by_side(m[3], m[1])); }
        },
        Orientation::W => {
            if i == 0 { assert(!side_by_side(m[0], m[3])); }
            if i == 1 { assert(!side_by_side(m[1], m[0])); }
            if i == 3 { assert(!side_by_side(m[3], m[0])); }
        },
    }
}

/// The index of the middle cell of a T piece in the given orientation.
spec fn t_middle_index(o: Orientation) -> int {
    match o {
        Orientation::N | Orientation::E => 1,
        Orientation::S | Orientation::W => 2,
    }
}

/// The first Ocular kick of a T piece turning from `o` moves it by at most one cell each way
/// and puts the middle cell of the turned piece onto the middle cell of the piece before.
proof fn lemma_ocular_t_first_kick(o: Orientation, left: bool)
    ensures
        ({
            let k0 = crate::rotation::ocular_quarter_kicks(Tetromino::T, o, left)[0];
            let o2 = orientation_from_turns(orientation_index(o) + if left { 3int } else { 1int });
            let m = shape_minos(Tetromino::T, o);
            let m2 = shape_minos(Tetromino::T, o2);
            &&& crate::rotation::ocular_quarter_kicks(Tetromino::T, o, left).len() > 0
            &&& -1 <= k0.0 <= 1 && -1 <= k0.1 <= 1
            &&& m[t_middle_index(o)].0 == k0.0 + m2[t_middle_index(o2)].0
            &&& m[t_middle_index(o)].1 == k0.1 + m2[t_middle_index(o2)].1
            &&& (o == Orientation::N ==> k0.1 == -1)
        }),
{
    let kicks = crate::rotation::ocular_quarter_kicks(Tetromino::T, o, left);
    if !left {
        let base = crate::rotation::ocular_t_left(crate::rotation::dual(o));
        assert(kicks[0] == ((crate::rotation::ocular_axis(Tetromino::T, o) - base[0].0) as isize, base[0].1));
    }
}

/// The cells of a T piece lie within two cells of its position each way.
proof fn lemma_t_minos_small(o: Orientation)
    ensures
        shape_minos(Tetromino::T, o).len() == 4,
        forall|n: int|
            #![trigger shape_minos(Tetromino::T, o)[n]]
            0 <= n < 4 ==> shape_minos(Tetromino::T, o)[n].0 <= 2 && shape_minos(Tetromino::T, o)[n].1 <= 2
                && shape_minos(Tetromino::T, o)[n].0 >= 0 && shape_minos(Tetromino::T, o)[n].1 >= 0,
{
}

/// On a clear board, a piece whose four cells lie inside the playing area fits.
proof fn lemma_fits_on_clear_board(board: Seq<Line>, q: ActivePiece)
    requires
        board_clear(board),
        forall|n: int| 0 <= n < 4 ==> {
            &&& 0 <= q.position.0 + (#[trigger] shape_minos(q.shape, q.orientation)[n]).0 < crate::pieces::WIDTH
            &&& 0 <= q.position.1 + shape_minos(q.shape, q.orientation)[n].1 < crate::pieces::HEIGHT
        },
    ensures
        piece_fits(board, q),
{
    let m = shape_minos(q.shape, q.orientation);
    assert forall|n: int| 0 <= n < 4 implies crate::pieces::cell_free(
        board,
        q.position.0 + (#[trigger] shape_minos(q.shape, q.orientation)[n]).0,
        q.position.1 + shape_minos(q.shape, q.orientation)[n].1,
    ) by {
        let x = q.position.0 + m[n].0;
        let y = q.position.1 + m[n].1;
        assert(board[y][x] is None);
    }
}

/// On an empty board, with room around the piece, an Ocular quarter turn of a T piece (either
/// way, any orientation) turns it about its middle cell: the turn succeeds, and the middle
/// cell of the turned piece is where the middle cell was. (So a T facing north comes down one
/// row as it turns.)
#[verifier::rlimit(40)]
pub proof fn law_ocular_t_turns_about_its_middle(p: ActivePiece, board: Seq<Line>, t: int, i: int, j: int)
    requires
        p.shape == Tetromino::T,
        board_clear(board),
        1 <= p.position.0,
        p.position.0 + 3 < crate::pieces::WIDTH,
        1 <= p.position.1,
        p.position.1 + 3 < crate::pieces::HEIGHT,
        t % 4 == 1 || t % 4 == 3,
    ensures
        exists|k: int| middle_mino(shape_minos(p.shape, p.orientation), k),
        rotate_spec(RotationSystem::Ocular, p, board, t) matches Some(q) && {
            &&& q.shape == Tetromino::T
            &&& q.orientation == orientation_from_turns(orientation_index(p.orientation) + t)
            &&& (middle_mino(shape_minos(p.shape, p.orientation), i) && middle_mino(shape_minos(q.shape, q.orientation), j)
                ==> p.position.0 + shape_minos(p.shape, p.orientation)[i].0 == q.position.0 + shape_minos(q.shape, q.orientation)[j].0
                    && p.position.1 + shape_minos(p.shape, p.orientation)[i].1 == q.position.1 + shape_minos(q.shape, q.orientation)[j].1)
            &&& (p.orientation == Orientation::N ==> q.position.1 == p.position.1 - 1)
        },
{
    let r = t % 4;
    let o = orientation_index(p.orientation);
    let k = t / 4;
    let left = r == 3;
    assert(orientation_from_turns(o + t) == orientation_from_turns(o + r)) by {
        vstd::arithmetic::div_mod::lemma_mod_multiples_vanish(k, o + r, 4);
        assert(o + t == 4 * k + (o + r));
    }
    let m = shape_minos(Tetromino::T, p.orientation);
    let c = t_middle_index(p.orientation);
    assert(middle_mino(m, c)) by {
        match p.orientation {
            Orientation::N => {},
            Orientation::E => {},
            Orientation::S => {},
            Orientation::W => {},
        }
    }
    lemma_ocular_t_first_kick(p.orientation, left);
    let tp = turned(p, t);
    let kicks = crate::rotation::ocular_quarter_kicks(p.shape, p.orientation, left);
    let k0 = kicks[0];
    let q0 = ActivePiece { position: ((p.position.0 + k0.0) as usize, (p.position.1 + k0.1) as usize), ..tp };
    let mq = shape_minos(Tetromino::T, tp.orientation);
    lemma_t_minos_small(tp.orientation);
    lemma_fits_on_clear_board(board, q0);
    assert(crate::pieces::fits_at_spec(board, tp, k0) == Some(q0));
    assert(rotate_spec(RotationSystem::Ocular, p, board, t) == Some(q0));
    let cq = t_middle_index(tp.orientation);
    if middle_mino(m, i) && middle_mino(mq, j) {
        lemma_t_middle(p.orientation, i);
        lemma_t_middle(tp.orientation, j);
    }
}

/// The outcome of a limit: completed if it is a winning limit, lost otherwise.
pub open spec fn limit_result(win: bool) -> Option<Result<(), crate::game::GameOver>> {
    Some(if win { Ok(()) } else { Err(crate::game::GameOver::ModeLimit) })
}

/// A round ends at a limit of its mode as soon as its statistic reaches the limit's bound: the
/// time played reaches the time limit, the pieces played the piece limit, the lines cleared
/// the line limit, the level passes the level limit, or the score reaches the score limit;
/// the limits are looked at in that order, and the first one reached decides the outcome.
/// While no statistic has reached its bound, the round goes on.
pub proof fn law_limits_end_the_round(mode: crate::modes::GameMode, s: GameState)
    requires
        s.end is None,
    ensures
        ({
            let l = mode.limits;
            let end = crate::game::end_checked(mode, s).end;
            let time_hit = l.time matches Some((_, d)) && s.time >= d;
            let pieces_hit = l.pieces matches Some((_, n)) && crate::game::pieces_total(s.pieces_played@) >= n;
            let lines_hit = l.lines matches Some((_, n)) && s.lines_cleared >= n;
            let level_hit = l.level matches Some((_, n)) && s.level > n;
            let score_hit = l.score matches Some((_, n)) && s.score >= n;
            &&& (l.time matches Some((win, d)) ==> (s.time >= d ==> end == limit_result(win)))
            &&& (!time_hit ==> (l.pieces matches Some((win, n)) ==> (
                crate::game::pieces_total(s.pieces_played@) >= n ==> end == limit_result(win))))
            &&& (!time_hit && !pieces_hit ==> (l.lines matches Some((win, n)) ==> (
                s.lines_cleared >= n ==> end == limit_result(win))))
            &&& (!time_hit && !pieces_hit && !lines_hit ==> (l.level matches Some((win, n)) ==> (
                s.level > n ==> end == limit_result(win))))
            &&& (!time_hit && !pieces_hit && !lines_hit && !level_hit ==> (l.score matches Some((win, n)) ==> (
                s.score >= n ==> end == limit_result(win))))
            &&& (!time_hit && !pieces_hit && !lines_hit && !level_hit && !score_hit ==> end is None)
        }),
{
}

/// Locking a piece ends the round by lock out exactly when the whole piece lies at or above
/// the skyline: a piece with a cell below the skyline is fixed onto the board and the round
/// goes on; a piece wholly at or above it ends the round, with the board left as it was.
/// Either way the lock is reported first.
pub proof fn law_lock_out_only_above_skyline(
    mode: crate::modes::GameMode,
    c0: GameConfig,
    s0: GameState,
    t: crate::modes::GameTime,
    c1: GameConfig,
    s1: GameState,
    r: Seq<(crate::modes::GameTime, crate::game::Feedback)>,
    p: ActivePiece,
    ld: LockingData,
    x: int,
    y: int,
)
    requires
        crate::game::event_handled(mode, c0, s0, crate::events::InternalEvent::Lock, t, c1, s1, r),
        s0.active_piece_data == Some((p, ld)),
    ensures
        crate::game::covers(p, x, y) && y < crate::pieces::SKYLINE ==> {
            &&& s1.end == s0.end
            &&& s1.active_piece_data is None
            &&& crate::game::with_piece_locked(s0.board@, s1.board@, p)
            &&& r[0] == (t, crate::game::Feedback::PieceLocked(p))
        },
        (forall|x2: int, y2: int| crate::game::covers(p, x2, y2) ==> y2 >= crate::pieces::SKYLINE) ==> {
            &&& s1.end == Some(Err::<(), crate::game::GameOver>(crate::game::GameOver::LockOut))
            &&& s1.board == s0.board
            &&& r == seq![(t, crate::game::Feedback::PieceLocked(p))]
        },
{
    let m = shape_minos(p.shape, p.orientation);
    if crate::game::covers(p, x, y) && y < crate::pieces::SKYLINE {
        let i = choose|i: int|
            0 <= i < 4 && p.position.0 + (#[trigger] shape_minos(p.shape, p.orientation)[i]).0 == x
                && p.position.1 + shape_minos(p.shape, p.orientation)[i].1 == y;
        assert(!crate::game::above_skyline(p)) by {
            assert(!(p.position.1 + m[i].1 >= crate::pieces::SKYLINE));
        }
    }
    if forall|x2: int, y2: int| crate::game::covers(p, x2, y2) ==> y2 >= crate::pieces::SKYLINE {
        assert forall|i: int| 0 <= i < 4 implies p.position.1 + (#[trigger] shape_minos(p.shape, p.orientation)[i]).1
            >= crate::pieces::SKYLINE by {
            assert(crate::game::covers(p, p.position.0 + m[i].0, p.position.1 + m[i].1));
        }
        assert(crate::game::above_skyline(p));
    }
}

/// Four right turns, or any multiple of four, lead back to the same orientation.
pub proof fn law_full_turns(o: Orientation, k: int)
    ensures
        orientation_from_turns(orientation_index(o) + 4 * k) == o,
{
    let i = orientation_index(o);
    vstd::arithmetic::div_mod::lemma_mod_multiples_vanish(k, i, 4);
    assert((i + 4 * k) % 4 == i % 4);
}

/// The conventional index of a tetromino identifies it, and every index `0..7` names one.
pub proof fn law_tetromino_index_roundtrip(t: Tetromino, i: int)
    ensures
        tetromino_of_index(tetromino_index(t)) == t,
        0 <= tetromino_index(t) < 7,
        0 <= i < 7 ==> tetromino_index(tetromino_of_index(i)) == i,
{
}

/// Adding an offset and then its opposite gives back the coordinate.
pub proof fn law_add_inverse(c: Coord, o: Offset)
    requires
        o.0 > isize::MIN,
        o.1 > isize::MIN,
    ensures
        add_spec(c, o) matches Some(d) ==> add_spec(d, ((-o.0) as isize, (-o.1) as isize)) == Some(c),
{
}

/// The kept lines of a board whose lines are all full or empty are empty.
proof fn lemma_kept_empty(b: Seq<Line>)
    requires
        clears_perfectly(b),
    ensures
        forall|i: int| 0 <= i < kept_lines(b).len() ==> line_empty(#[trigger] kept_lines(b)[i]),
    decreases b.len(),
{
    if b.len() > 0 {
        let rest = b.drop_first();
        assert forall|y: int| 0 <= y < rest.len() implies line_full(#[trigger] rest[y]) || line_empty(rest[y]) by {
            assert(rest[y] == b[y + 1]);
        }
        lemma_kept_empty(rest);
        let k = kept_lines(b);
        let kr = kept_lines(rest);
        if line_full(b[0]) {
            assert(k == kr);
        } else {
            assert(line_full(b[0]) || line_empty(b[0]));
            assert(k == seq![b[0]] + kr);
            assert forall|i: int| 0 <= i < k.len() implies line_empty(#[trigger] k[i]) by {
                if i > 0 {
                    assert(k[i] == kr[i - 1]);
                } else {
                    assert(k[0] == b[0]);
                }
            }
        }
    }
}

/// A board whose kept lines are all empty has only full or empty lines.
proof fn lemma_kept_empty_back(b: Seq<Line>)
    requires
        forall|i: int| 0 <= i < kept_lines(b).len() ==> line_empty(#[trigger] kept_lines(b)[i]),
    ensures
        clears_perfectly(b),
    decreases b.len(),
{
    if b.len() > 0 {
        let rest = b.drop_first();
        let k = kept_lines(b);
        let kr = kept_lines(rest);
        if line_full(b[0]) {
            assert(k == kr);
        } else {
            assert forall|i: int| 0 <= i < kr.len() implies line_empty(#[trigger] kr[i]) by {
                assert(kr[i] == k[i + 1]);
            }
            assert(line_empty(k[0]));
        }
        lemma_kept_empty_back(rest);
        assert forall|y: int| 0 <= y < b.len() implies line_full(#[trigger] b[y]) || line_empty(b[y]) by {
            if y > 0 {
                assert(b[y] == rest[y - 1]);
            } else if !line_full(b[0]) {
                assert(k[0] == b[0]);
            }
        }
    }
}

/// A perfect clear is exactly a line clear after which the whole board is empty.
pub proof fn law_perfect_clear_empties_board(b: Seq<Line>)
    ensures
        clears_perfectly(b) <==> forall|y: int|
            0 <= y < cleared_board(b).len() ==> line_empty(#[trigger] cleared_board(b)[y]),
{
    crate::game::lemma_kept_len(b);
    let k = kept_lines(b);
    let c = cleared_board(b);
    assert(line_empty(empty_line())) by {
        assert forall|x: int| 0 <= x < 10 implies (#[trigger] empty_line()@[x]) is None by {}
    }
    if clears_perfectly(b) {
        lemma_kept_empty(b);
        assert forall|y: int| 0 <= y < c.len() implies line_empty(#[trigger] c[y]) by {
            if y < k.len() {
                assert(c[y] == k[y]);
            } else {
                assert(c[y] == empty_lines(b.len() - k.len())[y - k.len()]);
            }
        }
    }
    if forall|y: int| 0 <= y < c.len() ==> line_empty(#[trigger] c[y]) {
        assert forall|i: int| 0 <= i < k.len() implies line_empty(#[trigger] k[i]) by {
            assert(c[i] == k[i]);
        }
        lemma_kept_empty_back(b);
    }
}

/// Clearing lines keeps the height of the board and leaves no full line.
pub proof fn law_cleared_board_shape(b: Seq<Line>)
    ensures
        cleared_board(b).len() == b.len(),
        forall|y: int| 0 <= y < b.len() ==> !line_full(#[trigger] cleared_board(b)[y]),
{
    crate::game::lemma_kept_len(b);
    lemma_kept_not_full(b);
    let k = kept_lines(b);
    let c = cleared_board(b);
    assert forall|y: int| 0 <= y < b.len() implies !line_full(#[trigger] c[y]) by {
        if y < k.len() {
            assert(c[y] == k[y]);
        } else {
            assert(c[y] == empty_line());
            assert(empty_line()@[0] is None);
        }
    }
}

/// No kept line is full.
proof fn lemma_kept_not_full(b: Seq<Line>)
    ensures
        forall|i: int| 0 <= i < kept_lines(b).len() ==> !line_full(#[trigger] kept_lines(b)[i]),
    decreases b.len(),
{
    if b.len() > 0 {
        let rest = b.drop_first();
        lemma_kept_not_full(rest);
        let k = kept_lines(b);
        let kr = kept_lines(rest);
        if line_full(b[0]) {
            assert(k == kr);
        } else {
            assert(k == seq![b[0]] + kr);
            assert forall|i: int| 0 <= i < k.len() implies !line_full(#[trigger] k[i]) by {
                if i > 0 {
                    assert(k[i] == kr[i - 1]);
                } else {
                    assert(k[0] == b[0]);
                }
            }
        }
    }
}

/// How often `i` occurs in the sequence.
pub open spec fn occurrences(s: Seq<int>, i: int) -> nat
    decreases s.len(),
{
    if s.len() == 0 {
        0
    } else {
        occurrences(s.drop_last(), i) + if s.last() == i { 1nat } else { 0nat }
    }
}

/// Whether `states` are the generator states passed through while drawing `draws` from `g`:
/// each draw is admitted by the state before it and leads to the state after it.
#[verifier::opaque]
pub open spec fn draw_trace(g: TetrominoGenerator, draws: Seq<int>, states: Seq<TetrominoGenerator>) -> bool {
    &&& states.len() == draws.len() + 1
    &&& states[0] == g
    &&& forall|k: int| 0 <= k < draws.len() ==> {
        &&& (#[trigger] states[k]).admits_spec(draws[k])
        &&& states[k].after_draw(draws[k], states[k + 1])
    }
}

/// One step of a trace of draws: the `k`-th draw was admitted by the state before it and led
/// to the state after it.
proof fn lemma_trace_step(g: TetrominoGenerator, draws: Seq<int>, states: Seq<TetrominoGenerator>, k: int)
    requires
        draw_trace(g, draws, states),
        0 <= k < draws.len(),
    ensures
        states.len() == draws.len() + 1,
        states[0] == g,
        states[k].admits_spec(draws[k]),
        states[k].after_draw(draws[k], states[k + 1]),
{
    reveal(draw_trace);
    assert(states[k].admits_spec(draws[k]));
}

/// The sum of the seven counts.
pub open spec fn bag_count(s: Seq<u32>) -> int {
    s[0] + s[1] + s[2] + s[3] + s[4] + s[5] + s[6]
}

/// What is left in a bag generator (nothing for the other methods).
pub open spec fn bag_left(g: TetrominoGenerator) -> Seq<u32> {
    match g {
        TetrominoGenerator::Bag { pieces_left, .. } => pieces_left@,
        _ => Seq::empty(),
    }
}

/// Whether the generator is a bag of the given multiplicity.
pub open spec fn is_bag_of(g: TetrominoGenerator, m: u32) -> bool {
    g matches TetrominoGenerator::Bag { multiplicity, .. } && multiplicity == m
}

/// One draw from a bag: the drawn kind was in the bag, and is taken out of it; an emptied
/// bag is refilled.
proof fn lemma_bag_step(g: TetrominoGenerator, d: int, next: TetrominoGenerator, m: u32)
    requires
        is_bag_of(g, m),
        g.admits_spec(d),
        g.after_draw(d, next),
    ensures
        0 <= d < 7,
        bag_left(g)[d] > 0,
        is_bag_of(next, m),
        bag_left(next) == {
            let left = bag_left(g).update(d, (bag_left(g)[d] - 1) as u32);
            if all_zero(left) { seven(m) } else { left }
        },
{
}

/// One step of a trace of draws from a bag, as [`lemma_bag_step`] gives it.
proof fn lemma_bag_trace_step(g: TetrominoGenerator, draws: Seq<int>, states: Seq<TetrominoGenerator>, k: int, m: u32)
    requires
        draw_trace(g, draws, states),
        0 <= k < draws.len(),
        is_bag_of(states[k], m),
    ensures
        states.len() == draws.len() + 1,
        0 <= draws[k] < 7,
        bag_left(states[k])[draws[k]] > 0,
        is_bag_of(states[k + 1], m),
        bag_left(states[k + 1]) == {
            let left = bag_left(states[k]).update(draws[k], (bag_left(states[k])[draws[k]] - 1) as u32);
            if all_zero(left) { seven(m) } else { left }
        },
{
    lemma_trace_step(g, draws, states, k);
    lemma_bag_step(states[k], draws[k], states[k + 1], m);
}

/// Before the bag empties, the bag holds `7 * m - k` pieces after `k` draws, and each kind left
/// in it is the multiplicity less the draws of it.
#[verifier::spinoff_prover]
#[verifier::rlimit(80)]
proof fn lemma_bag_prefix(g: TetrominoGenerator, m: u32, draws: Seq<int>, states: Seq<TetrominoGenerator>, k: int)
    requires
        m >= 1,
        is_bag_of(g, m),
        bag_left(g) == seven(m),
        draw_trace(g, draws, states),
        draws.len() == 7 * m,
        0 <= k < 7 * m,
    ensures
        is_bag_of(states[k], m),
        bag_left(states[k]).len() == 7,
        bag_count(bag_left(states[k])) == 7 * m - k,
        forall|i: int| 0 <= i < 7 ==> #[trigger] bag_left(states[k])[i] + occurrences(draws.take(k), i) == m,
    decreases k,
{
    if k == 0 {
        reveal(draw_trace);
        assert(draws.take(0) =~= Seq::<int>::empty());
        assert(bag_left(states[0]) =~= seven(m));
    } else {
        lemma_bag_prefix(g, m, draws, states, k - 1);
        let d = draws[k - 1];
        lemma_bag_trace_step(g, draws, states, k - 1, m);
        let before = bag_left(states[k - 1]);
        let left = before.update(d, (before[d] - 1) as u32);
        assert(bag_count(left) == 7 * m - k);
        if all_zero(left) {
            assert(bag_count(left) == 0);
        }
        assert(bag_left(states[k]) == left);
        assert(draws.take(k).drop_last() =~= draws.take(k - 1));
        assert(draws.take(k).last() == d);
        assert forall|i: int| 0 <= i < 7 implies #[trigger] bag_left(states[k])[i] + occurrences(draws.take(k), i) == m by {
            assert(occurrences(draws.take(k), i) == occurrences(draws.take(k - 1), i) + if d == i { 1nat } else { 0nat });
            assert(before[i] + occurrences(draws.take(k - 1), i) == m);
        }
    }
}

/// A full bag of multiplicity `m`, drawn from `7 * m` times, hands out every tetromino
/// exactly `m` times and is full again afterwards.
#[verifier::spinoff_prover]
#[verifier::rlimit(80)]
pub proof fn law_bag_cycle(g: TetrominoGenerator, m: u32, draws: Seq<int>, states: Seq<TetrominoGenerator>)
    requires
        m >= 1,
        is_bag_of(g, m),
        bag_left(g) == seven(m),
        draw_trace(g, draws, states),
        draws.len() == 7 * m,
    ensures
        forall|i: int| 0 <= i < 7 ==> occurrences(draws, i) == m,
        is_bag_of(states.last(), m),
        bag_left(states.last()) == seven(m),
{
    let k = 7 * m - 1;
    lemma_bag_prefix(g, m, draws, states, k);
    let d = draws[k];
    lemma_bag_trace_step(g, draws, states, k, m);
    let before = bag_left(states[k]);
    let left = before.update(d, (before[d] - 1) as u32);
    assert(bag_count(left) == 0);
    assert(all_zero(left));
    assert forall|i: int| 0 <= i < 7 && i != d implies before[i] == 0 by {
        assert(left[i] == before[i]);
    }
    assert(before[d] == 1);
    assert(draws.take(7 * m) =~= draws);
    assert(draws.take(7 * m).drop_last() =~= draws.take(k));
    assert forall|i: int| 0 <= i < 7 implies occurrences(draws, i) == m by {
        assert(occurrences(draws, i) == occurrences(draws.take(k), i) + if d == i { 1nat } else { 0nat });
        assert(before[i] + occurrences(draws.take(k), i) == m);
    }
}

/// Drawing from a bag keeps it a consistent bag of the same multiplicity that holds each
/// kind at most that many times: at every state of a trace of draws.
pub proof fn law_bag_trace_within(
    g: TetrominoGenerator,
    m: u32,
    draws: Seq<int>,
    states: Seq<TetrominoGenerator>,
    k: int,
)
    requires
        is_bag_of(g, m),
        g.wf(),
        g.within_multiplicity(),
        draw_trace(g, draws, states),
        0 <= k <= draws.len(),
    ensures
        is_bag_of(states[k], m),
        states[k].wf(),
        states[k].within_multiplicity(),
    decreases k,
{
    if k == 0 {
        reveal(draw_trace);
    } else {
        law_bag_trace_within(g, m, draws, states, k - 1);
        lemma_trace_step(g, draws, states, k - 1);
        crate::generation::lemma_draw_keeps_within(states[k - 1], draws[k - 1], states[k]);
    }
}

/// A stretch of a trace of draws is itself a trace, from the state it starts in.
proof fn lemma_trace_stretch(g: TetrominoGenerator, draws: Seq<int>, states: Seq<TetrominoGenerator>, a: int, b: int)
    requires
        draw_trace(g, draws, states),
        0 <= a <= b <= draws.len(),
    ensures
        draw_trace(states[a], draws.subrange(a, b), states.subrange(a, b + 1)),
{
    reveal(draw_trace);
    assert forall|k: int| 0 <= k < b - a implies {
        &&& (#[trigger] states.subrange(a, b + 1)[k]).admits_spec(draws.subrange(a, b)[k])
        &&& states.subrange(a, b + 1)[k].after_draw(draws.subrange(a, b)[k], states.subrange(a, b + 1)[k + 1])
    } by {
        lemma_trace_step(g, draws, states, a + k);
    }
}

/// Drawing from a full bag of multiplicity `m`, every block of `7 * m` consecutive draws
/// that starts at a multiple of `7 * m` hands out every tetromino exactly `m` times.
pub proof fn law_bag_blocks(g: TetrominoGenerator, m: u32, draws: Seq<int>, states: Seq<TetrominoGenerator>, j: nat)
    requires
        m >= 1,
        is_bag_of(g, m),
        bag_left(g) == seven(m),
        draw_trace(g, draws, states),
        7 * m * (j + 1) <= draws.len(),
    ensures
        forall|i: int| 0 <= i < 7 ==> #[trigger] occurrences(draws.subrange(7 * m * j, 7 * m * (j + 1)), i) == m,
        is_bag_of(states[7 * m * (j + 1)], m),
        bag_left(states[7 * m * (j + 1)]) == seven(m),
    decreases j,
{
    let n = 7 * m;
    let a = n * j;
    let b = n * (j + 1);
    assert(b == a + n) by (nonlinear_arith)
        requires
            a == n * j,
            b == n * (j + 1),
    ;
    assert(0 <= a) by (nonlinear_arith)
        requires
            a == n * j,
            n >= 0,
            j >= 0,
    ;
    lemma_trace_step(g, draws, states, 0);
    let start = states[a];
    if j == 0 {
        assert(a == 0) by (nonlinear_arith)
            requires
                a == n * j,
                j == 0,
        ;
    } else {
        let jj = (j - 1) as nat;
        assert(n * (jj + 1) == a);
        law_bag_blocks(g, m, draws, states, jj);
    }
    lemma_trace_stretch(g, draws, states, a, b);
    law_bag_cycle(start, m, draws.subrange(a, b), states.subrange(a, b + 1));
    assert(states.subrange(a, b + 1).last() == states[b]);
}

/// After any draw, the least relative count of the total-relative generator is zero.
pub proof fn law_total_relative_rebalanced(g: TetrominoGenerator, idx: int, next: TetrominoGenerator)
    requires
        g is TotalRelative,
        g.admits_spec(idx),
        g.after_draw(idx, next),
    ensures
        next matches TetrominoGenerator::TotalRelative { relative_counts } && min7(relative_counts@) == 0,
{
    if let TetrominoGenerator::TotalRelative { relative_counts } = g {
        let c = relative_counts@.update(idx, crate::generation::sat_inc(relative_counts@[idx]));
        let m = min7(c);
        assert(m == c[0] || m == c[1] || m == c[2] || m == c[3] || m == c[4] || m == c[5] || m == c[6]);
        assert(forall|j: int| 0 <= j < 7 ==> m <= c[j]);
    }
}

/// In a round that started at level `start` with no lines cleared, the level is always the
/// start level plus one for every ten lines cleared (if the mode increments the level), as
/// long as the tallies progressed as the game's updates guarantee.
pub proof fn law_level_follows_lines(start: GameState, now: GameState, increment: bool)
    requires
        start.lines_cleared == 0,
        stats_progress(start, now, increment),
    ensures
        now.level == level_after(start.level, increment, 0, now.lines_cleared),
        increment && start.level + now.lines_cleared / 10 <= u32::MAX ==> now.level == start.level + now.lines_cleared / 10,
        !increment ==> now.level == start.level,
{
}

/// Until a round has ended there is always a pending event: a consistent game state that has
/// not ended has some event scheduled.
pub proof fn law_pending_until_end(config: GameConfig, s: GameState)
    requires
        state_wf(config, s),
        pending_ok(s),
        s.end is None,
    ensures
        exists|e: crate::events::InternalEvent| s.events@.contains_key(e),
{
    match s.active_piece_data {
        Some((p, ld)) => {
            if s.events@.contains_key(crate::events::InternalEvent::Lock) {
                assert(s.events@.contains_key(crate::events::InternalEvent::Lock));
            } else if ld.touches_ground {
                assert(s.events@.contains_key(crate::events::InternalEvent::LockTimer));
            } else {
                assert(s.events@.contains_key(crate::events::InternalEvent::Fall));
            }
        },
        None => {
            if s.events@.contains_key(crate::events::InternalEvent::LineClear) {
                assert(s.events@.contains_key(crate::events::InternalEvent::LineClear));
            } else {
                assert(s.events@.contains_key(crate::events::InternalEvent::Spawn));
            }
        },
    }
}

/// Every pending event of a consistent game state lies at or after the game's time.
pub proof fn law_events_not_in_past(config: GameConfig, s: GameState, e: crate::events::InternalEvent)
    requires
        state_wf(config, s),
        s.events@.contains_key(e),
    ensures
        s.time <= s.events@[e],
{
}

} // verus!
