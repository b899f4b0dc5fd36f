//! Rotation systems: how a piece turns on the board and which alternative positions ("kicks")
//! it tries when the plain rotation does not fit.

use vstd::prelude::*;
use crate::pieces::{
    ActivePiece, Board, Line, Offset, Orientation, Tetromino, first_fit_spec, fits_at_spec,
    orientation_from_turns, orientation_index,
};

verus! {

/// The methods of tetromino rotation the engine offers.
#[derive(Clone, Copy, PartialEq, Eq, Structural, Debug, Hash, PartialOrd, Ord)]
pub enum RotationSystem {
    /// The Ocular Rotation System.
    Ocular,
    /// The Classic Rotation System.
    Classic,
    /// The Super Rotation System.
    Super,
}

/// The piece turned by `right_turns`, at the same position.
pub open spec fn turned(p: ActivePiece, right_turns: int) -> ActivePiece {
    ActivePiece {
        orientation: orientation_from_turns(orientation_index(p.orientation) + right_turns),
        ..p
    }
}

/// Whether orientations north and south, as opposed to east and west.
pub open spec fn is_ns(o: Orientation) -> bool {
    o == Orientation::N || o == Orientation::S
}

/// East and west swapped, north and south kept.
pub open spec fn dual(o: Orientation) -> Orientation {
    match o {
        Orientation::N => Orientation::N,
        Orientation::E => Orientation::W,
        Orientation::S => Orientation::S,
        Orientation::W => Orientation::E,
    }
}

/// Offsets reflected horizontally about `mx / 2`: each `(x, y)` becomes `(mx - x, y)`.
pub open spec fn mirrored(kicks: Seq<Offset>, mx: isize) -> Seq<Offset> {
    kicks.map_values(|k: Offset| ((mx - k.0) as isize, k.1))
}

/// Kicks tried by the Ocular and Super systems for a half turn.
pub open spec fn half_turn_kicks(shape: Tetromino, o: Orientation) -> Seq<Offset> {
    match shape {
        Tetromino::O | Tetromino::I | Tetromino::S | Tetromino::Z => seq![(0, 0)],
        Tetromino::T | Tetromino::L | Tetromino::J => match o {
            Orientation::N => seq![(0, -1isize), (0, 0)],
            Orientation::E => seq![(-1isize, 0), (0, 0)],
            Orientation::S => seq![(0, 1), (0, 0)],
            Orientation::W => seq![(1, 0), (0, 0)],
        },
    }
}

/// Ocular kicks of the I piece turning left.
pub open spec fn ocular_i_left(o: Orientation) -> Seq<Offset> {
    if is_ns(o) {
        seq![(1, -1isize), (1, -2isize), (1, -3isize), (0, -1isize), (0, -2isize), (2, -1isize), (2, -2isize), (1, 0), (0, 0)]
    } else {
        seq![(-2isize, 1), (-3isize, 1), (-1isize, 1), (0, 1), (-2isize, 0), (-3isize, 0)]
    }
}

/// Ocular kicks of the S piece.
pub open spec fn ocular_s(o: Orientation, left: bool) -> Seq<Offset> {
    if is_ns(o) {
        if left {
            seq![(0, 0), (0, -1isize), (1, 0), (-1isize, -1isize)]
        } else {
            seq![(1, 0), (1, -1isize), (0, 0), (0, -1isize)]
        }
    } else {
        if left {
            seq![(-1isize, 0), (0, 0), (-1isize, 1), (0, 1)]
        } else {
            seq![(0, 0), (-1isize, 0), (0, -1isize), (1, 0), (0, 1), (-1isize, 1)]
        }
    }
}

/// Ocular kicks of the T piece turning left.
pub open spec fn ocular_t_left(o: Orientation) -> Seq<Offset> {
    match o {
        Orientation::N => seq![(0, -1isize), (0, 0), (1, -1isize), (1, 0)],
        Orientation::E => seq![(-1isize, 1), (-1isize, 0), (0, 1), (0, 0), (-1isize, -1isize)],
        Orientation::S => seq![(1, 0), (0, 0), (0, -1isize), (1, -1isize), (1, -2isize)],
        Orientation::W => seq![(0, 0), (-1isize, 0), (-1isize, -1isize), (0, -1isize), (1, -1isize)],
    }
}

/// Ocular kicks of the L piece.
pub open spec fn ocular_l(o: Orientation, left: bool) -> Seq<Offset> {
    match o {
        Orientation::N => if left {
            seq![(0, -1isize), (1, -1isize), (0, 0), (0, -2isize), (1, 0)]
        } else {
            seq![(1, -1isize), (1, 0), (2, 0), (0, 0), (2, -1isize)]
        },
        Orientation::E => if left {
            seq![(-1isize, 1), (-1isize, 0), (0, 1), (0, 0), (-2isize, 0)]
        } else {
            seq![(-1isize, 0), (0, 0), (0, -1isize), (0, 1)]
        },
        Orientation::S => if left {
            seq![(1, 0), (0, 0), (1, -1isize), (0, -1isize)]
        } else {
            seq![(0, 0), (0, -1isize), (1, 0), (1, -1isize), (-1isize, -1isize)]
        },
        Orientation::W => if left {
            seq![(0, 0), (-1isize, 0), (0, 1), (1, 0), (-1isize, 1)]
        } else {
            seq![(0, 1), (0, 0), (-1isize, 1), (-1isize, 0), (1, 1)]
        },
    }
}

/// The horizontal mirror axis used by the Ocular system for the mirrored pieces.
pub open spec fn ocular_axis(shape: Tetromino, o: Orientation) -> isize {
    if shape == Tetromino::I {
        if is_ns(o) { 3 } else { -3isize }
    } else {
        if is_ns(o) { 1 } else { -1isize }
    }
}

/// Ocular kicks for a quarter turn (left or right), mirrored pieces reduced to their partners:
/// the I and T pieces turning right mirror their left turns, Z mirrors S and J mirrors L.
pub open spec fn ocular_quarter_kicks(shape: Tetromino, o: Orientation, left: bool) -> Seq<Offset> {
    match shape {
        Tetromino::O => seq![(0, 0)],
        Tetromino::I => if left {
            ocular_i_left(o)
        } else {
            mirrored(ocular_i_left(o), ocular_axis(shape, o))
        },
        Tetromino::S => ocular_s(o, left),
        Tetromino::Z => mirrored(ocular_s(o, !left), ocular_axis(shape, o)),
        Tetromino::T => if left {
            ocular_t_left(o)
        } else {
            mirrored(ocular_t_left(dual(o)), ocular_axis(shape, o))
        },
        Tetromino::L => ocular_l(o, left),
        Tetromino::J => mirrored(ocular_l(dual(o), !left), ocular_axis(shape, o)),
    }
}

/// Super kicks for a quarter turn.
pub open spec fn super_quarter_kicks(shape: Tetromino, o: Orientation, left: bool) -> Seq<Offset> {
    match shape {
        Tetromino::O => seq![(0, 0)],
        Tetromino::I => match o {
            Orientation::N => if left {
                seq![(1, -2isize), (0, -2isize), (3, -2isize), (0, 0), (3, -3isize)]
            } else {
                seq![(2, -2isize), (0, -2isize), (3, -2isize), (0, -3isize), (3, 0)]
            },
            Orientation::E => if left {
                seq![(-2isize, 2), (0, 2), (-3isize, 2), (0, 3), (-3isize, 0)]
            } else {
                seq![(2, -1isize), (-3isize, 1), (0, 1), (-3isize, 3), (0, 0)]
            },
            Orientation::S => if left {
                seq![(2, -1isize), (3, -1isize), (0, -1isize), (3, -3isize), (0, 0)]
            } else {
                seq![(1, -1isize), (3, -1isize), (0, -1isize), (3, 0), (0, -3isize)]
            },
            Orientation::W => if left {
                seq![(-1isize, 1), (-3isize, 1), (0, 1), (-3isize, 0), (0, 3)]
            } else {
                seq![(-1isize, 2), (0, 2), (-3isize, 2), (0, 0), (-3isize, 3)]
            },
        },
        _ => match o {
            Orientation::N => if left {
                seq![(0, -1isize), (1, -1isize), (1, 0), (0, -3isize), (1, -3isize)]
            } else {
                seq![(1, -1isize), (0, -1isize), (0, 0), (1, -3isize), (0, -3isize)]
            },
            Orientation::E => if left {
                seq![(-1isize, 1), (0, 1), (0, 0), (-1isize, 3), (0, 3)]
            } else {
                seq![(-1isize, 0), (0, 0), (0, -1isize), (-1isize, 2), (0, 2)]
            },
            Orientation::S => if left {
                seq![(1, 0), (0, 0), (-1isize, 1), (1, -2isize), (0, -2isize)]
            } else {
                seq![(0, 0), (1, 0), (1, 1), (0, -2isize), (1, -2isize)]
            },
            Orientation::W => if left {
                seq![(0, 0), (-1isize, 0), (-1isize, -1isize), (0, 2), (-1isize, 2)]
            } else {
                seq![(0, 1), (-1isize, 1), (-1isize, 0), (0, 3), (-1isize, 3)]
            },
        },
    }
}

/// The single kick of the Classic system for a quarter turn.
pub open spec fn classic_kick(shape: Tetromino, o: Orientation, left: bool) -> Offset {
    match shape {
        Tetromino::O => (0, 0),
        Tetromino::I => if is_ns(o) { (2, -1isize) } else { (-2isize, 1) },
        Tetromino::S | Tetromino::Z => if is_ns(o) { (1, 0) } else { (-1isize, 0) },
        _ => match o {
            Orientation::N => if left { (0, -1isize) } else { (1, -1isize) },
            Orientation::E => if left { (-1isize, 1) } else { (-1isize, 0) },
            Orientation::S => if left { (1, 0) } else { (0, 0) },
            Orientation::W => if left { (0, 0) } else { (0, 1) },
        },
    }
}

/// The outcome of rotating `p` by `right_turns` under a rotation system.
pub open spec fn rotate_spec(sys: RotationSystem, p: ActivePiece, board: Seq<Line>, right_turns: int) -> Option<ActivePiece> {
    let r = right_turns % 4;
    if r == 0 {
        Some(p)
    } else {
        match sys {
            RotationSystem::Classic => if r == 2 {
                fits_at_spec(board, turned(p, 2), (0, 0))
            } else {
                fits_at_spec(board, turned(p, right_turns), classic_kick(p.shape, p.orientation, r == 3))
            },
            RotationSystem::Super => if r == 2 {
                first_fit_spec(board, turned(p, 2), half_turn_kicks(p.shape, p.orientation))
            } else {
                first_fit_spec(board, turned(p, right_turns), super_quarter_kicks(p.shape, p.orientation, r == 3))
            },
            RotationSystem::Ocular => if r == 2 {
                first_fit_spec(board, turned(p, 2), half_turn_kicks(p.shape, p.orientation))
            } else {
                first_fit_spec(board, turned(p, right_turns), ocular_quarter_kicks(p.shape, p.orientation, r == 3))
            },
        }
    }
}


/// Whether orientations north and south, as opposed to east and west.
fn o_is_ns(o: Orientation) -> (r: bool)
    ensures
        r == is_ns(o),
{
    match o {
        Orientation::N | Orientation::S => true,
        _ => false,
    }
}

fn half_turn_kicks_vec(shape: Tetromino, o: Orientation) -> (r: Vec<Offset>)
    ensures
        r@ == half_turn_kicks(shape, o),
{
    let r: Vec<Offset> = match shape {
        Tetromino::O | Tetromino::I | Tetromino::S | Tetromino::Z => vec![(0, 0)],
        Tetromino::T | Tetromino::L | Tetromino::J => match o {
            Orientation::N => vec![(0, -1isize), (0, 0)],
            Orientation::E => vec![(-1isize, 0), (0, 0)],
            Orientation::S => vec![(0, 1), (0, 0)],
            Orientation::W => vec![(1, 0), (0, 0)],
        },
    };
    proof {
        assert(r@ =~= half_turn_kicks(shape, o));
    }
    r
}

fn ocular_i_left_vec(o: Orientation) -> (r: Vec<Offset>)
    ensures
        r@ == ocular_i_left(o),
{
    let r: Vec<Offset> = if o_is_ns(o) {
        vec![(1, -1isize), (1, -2isize), (1, -3isize), (0, -1isize), (0, -2isize), (2, -1isize), (2, -2isize), (1, 0), (0, 0)]
    } else {
        vec![(-2isize, 1), (-3isize, 1), (-1isize, 1), (0, 1), (-2isize, 0), (-3isize, 0)]
    };
    proof {
        assert(r@ =~= ocular_i_left(o));
    }
    r
}

fn ocular_s_vec(o: Orientation, left: bool) -> (r: Vec<Offset>)
    ensures
        r@ == ocular_s(o, left),
{
    let r: Vec<Offset> = if o_is_ns(o) {
        if left {
            vec![(0, 0), (0, -1isize), (1, 0), (-1isize, -1isize)]
        } else {
            vec![(1, 0), (1, -1isize), (0, 0), (0, -1isize)]
        }
    } else {
        if left {
            vec![(-1isize, 0), (0, 0), (-1isize, 1), (0, 1)]
        } else {
            vec![(0, 0), (-1isize, 0), (0, -1isize), (1, 0), (0, 1), (-1isize, 1)]
        }
    };
    proof {
        assert(r@ =~= ocular_s(o, left));
    }
    r
}

fn ocular_t_left_vec(o: Orientation) -> (r: Vec<Offset>)
    ensures
        r@ == ocular_t_left(o),
{
    let r: Vec<Offset> = match o {
        Orientation::N => vec![(0, -1isize), (0, 0), (1, -1isize), (1, 0)],
        Orientation::E => vec![(-1isize, 1), (-1isize, 0), (0, 1), (0, 0), (-1isize, -1isize)],
        Orientation::S => vec![(1, 0), (0, 0), (0, -1isize), (1, -1isize), (1, -2isize)],
        Orientation::W => vec![(0, 0), (-1isize, 0), (-1isize, -1isize), (0, -1isize), (1, -1isize)],
    };
    proof {
        assert(r@ =~= ocular_t_left(o));
    }
    r
}

fn ocular_l_vec(o: Orientation, left: bool) -> (r: Vec<Offset>)
    ensures
        r@ == ocular_l(o, left),
{
    let r: Vec<Offset> = match o {
        Orientation::N => if left {
            vec![(0, -1isize), (1, -1isize), (0, 0), (0, -2isize), (1, 0)]
        } else {
            vec![(1, -1isize), (1, 0), (2, 0), (0, 0), (2, -1isize)]
        },
        Orientation::E => if left {
            vec![(-1isize, 1), (-1isize, 0), (0, 1), (0, 0), (-2isize, 0)]
        } else {
            vec![(-1isize, 0), (0, 0), (0, -1isize), (0, 1)]
        },
        Orientation::S => if left {
            vec![(1, 0), (0, 0), (1, -1isize), (0, -1isize)]
        } else {
            vec![(0, 0), (0, -1isize), (1, 0), (1, -1isize), (-1isize, -1isize)]
        },
        Orientation::W => if left {
            vec![(0, 0), (-1isize, 0), (0, 1), (1, 0), (-1isize, 1)]
        } else {
            vec![(0, 1), (0, 0), (-1isize, 1), (-1isize, 0), (1, 1)]
        },
    };
    proof {
        assert(r@ =~= ocular_l(o, left));
    }
    r
}

fn super_quarter_kicks_vec(shape: Tetromino, o: Orientation, left: bool) -> (r: Vec<Offset>)
    ensures
        r@ == super_quarter_kicks(shape, o, left),
{
    let r: Vec<Offset> = match shape {
        Tetromino::O => vec![(0, 0)],
        Tetromino::I => match o {
            Orientation::N => if left {
                vec![(1, -2isize), (0, -2isize), (3, -2isize), (0, 0), (3, -3isize)]
            } else {
                vec![(2, -2isize), (0, -2isize), (3, -2isize), (0, -3isize), (3, 0)]
            },
            Orientation::E => if left {
                vec![(-2isize, 2), (0, 2), (-3isize, 2), (0, 3), (-3isize, 0)]
            } else {
                vec![(2, -1isize), (-3isize, 1), (0, 1), (-3isize, 3), (0, 0)]
            },
            Orientation::S => if left {
                vec![(2, -1isize), (3, -1isize), (0, -1isize), (3, -3isize), (0, 0)]
            } else {
                vec![(1, -1isize), (3, -1isize), (0, -1isize), (3, 0), (0, -3isize)]
            },
            Orientation::W => if left {
                vec![(-1isize, 1), (-3isize, 1), (0, 1), (-3isize, 0), (0, 3)]
            } else {
                vec![(-1isize, 2), (0, 2), (-3isize, 2), (0, 0), (-3isize, 3)]
            },
        },
        _ => match o {
            Orientation::N => if left {
                vec![(0, -1isize), (1, -1isize), (1, 0), (0, -3isize), (1, -3isize)]
            } else {
                vec![(1, -1isize), (0, -1isize), (0, 0), (1, -3isize), (0, -3isize)]
            },
            Orientation::E => if left {
                vec![(-1isize, 1), (0, 1), (0, 0), (-1isize, 3), (0, 3)]
            } else {
                vec![(-1isize, 0), (0, 0), (0, -1isize), (-1isize, 2), (0, 2)]
            },
            Orientation::S => if left {
                vec![(1, 0), (0, 0), (-1isize, 1), (1, -2isize), (0, -2isize)]
            } else {
                vec![(0, 0), (1, 0), (1, 1), (0, -2isize), (1, -2isize)]
            },
            Orientation::W => if left {
                vec![(0, 0), (-1isize, 0), (-1isize, -1isize), (0, 2), (-1isize, 2)]
            } else {
                vec![(0, 1), (-1isize, 1), (-1isize, 0), (0, 3), (-1isize, 3)]
            },
        },
    };
    proof {
        assert(r@ =~= super_quarter_kicks(shape, o, left));
    }
    r
}


/// Reflects offsets horizontally: each `(x, y)` becomes `(mx - x, y)`.
fn mirror_vec(kicks: Vec<Offset>, mx: isize) -> (r: Vec<Offset>)
    requires
        -8 <= mx <= 8,
        forall|i: int| 0 <= i < kicks@.len() ==> -8 <= #[trigger] kicks@[i].0 <= 8,
    ensures
        r@ == mirrored(kicks@, mx),
{
    let mut r: Vec<Offset> = Vec::new();
    let mut i: usize = 0;
    while i < kicks.len()
        invariant
            i <= kicks@.len(),
            -8 <= mx <= 8,
            forall|j: int| 0 <= j < kicks@.len() ==> -8 <= #[trigger] kicks@[j].0 <= 8,
            r@ =~= mirrored(kicks@.take(i as int), mx),
        decreases kicks@.len() - i,
    {
        let (x, y) = kicks[i];
        r.push((mx - x, y));
        assert(kicks@.take(i + 1) =~= kicks@.take(i as int).push(kicks@[i as int]));
        i += 1;
    }
    assert(kicks@.take(kicks@.len() as int) =~= kicks@);
    r
}

/// East and west swapped, north and south kept.
fn dual_exec(o: Orientation) -> (r: Orientation)
    ensures
        r == dual(o),
{
    match o {
        Orientation::N => Orientation::N,
        Orientation::E => Orientation::W,
        Orientation::S => Orientation::S,
        Orientation::W => Orientation::E,
    }
}

/// Every Ocular base kick moves at most 3 cells horizontally.
proof fn lemma_ocular_small(o: Orientation, left: bool)
    ensures
        forall|i: int| 0 <= i < ocular_i_left(o).len() ==> -3 <= #[trigger] ocular_i_left(o)[i].0 <= 3,
        forall|i: int| 0 <= i < ocular_s(o, left).len() ==> -3 <= #[trigger] ocular_s(o, left)[i].0 <= 3,
        forall|i: int| 0 <= i < ocular_t_left(o).len() ==> -3 <= #[trigger] ocular_t_left(o)[i].0 <= 3,
        forall|i: int| 0 <= i < ocular_l(o, left).len() ==> -3 <= #[trigger] ocular_l(o, left)[i].0 <= 3,
{
}

/// The Ocular kicks for a quarter turn.
fn ocular_quarter_kicks_vec(shape: Tetromino, o: Orientation, left: bool) -> (r: Vec<Offset>)
    ensures
        r@ == ocular_quarter_kicks(shape, o, left),
{
    proof {
        lemma_ocular_small(o, left);
        lemma_ocular_small(o, !left);
        lemma_ocular_small(dual(o), left);
        lemma_ocular_small(dual(o), !left);
    }
    let ns = o_is_ns(o);
    match shape {
        Tetromino::O => {
            let r: Vec<Offset> = vec![(0, 0)];
            assert(r@ =~= ocular_quarter_kicks(shape, o, left));
            r
        },
        Tetromino::I => if left {
            ocular_i_left_vec(o)
        } else {
            mirror_vec(ocular_i_left_vec(o), if ns { 3 } else { -3 })
        },
        Tetromino::S => ocular_s_vec(o, left),
        Tetromino::Z => mirror_vec(ocular_s_vec(o, !left), if ns { 1 } else { -1 }),
        Tetromino::T => if left {
            ocular_t_left_vec(o)
        } else {
            mirror_vec(ocular_t_left_vec(dual_exec(o)), if ns { 1 } else { -1 })
        },
        Tetromino::L => ocular_l_vec(o, left),
        Tetromino::J => mirror_vec(ocular_l_vec(dual_exec(o), !left), if ns { 1 } else { -1 }),
    }
}

/// The single kick of the Classic system for a quarter turn.
fn classic_kick_exec(shape: Tetromino, o: Orientation, left: bool) -> (r: Offset)
    ensures
        r == classic_kick(shape, o, left),
{
    let ns = o_is_ns(o);
    match shape {
        Tetromino::O => (0, 0),
        Tetromino::I => if ns { (2, -1) } else { (-2, 1) },
        Tetromino::S | Tetromino::Z => if ns { (1, 0) } else { (-1, 0) },
        _ => match o {
            Orientation::N => if left { (0, -1) } else { (1, -1) },
            Orientation::E => if left { (-1, 1) } else { (-1, 0) },
            Orientation::S => if left { (1, 0) } else { (0, 0) },
            Orientation::W => if left { (0, 0) } else { (0, 1) },
        },
    }
}

/// Euclidean remainder of the number of right turns modulo 4.
fn turns_mod_4(right_turns: i32) -> (r: i32)
    ensures
        r == right_turns % 4,
        0 <= r < 4,
{
    let m: i32 = right_turns % 4;
    if m < 0 { m + 4 } else { m }
}

/// Rotation under the Ocular Rotation System.
fn rotate_ocular(piece: &ActivePiece, board: &Board, right_turns: i32) -> (r: Option<ActivePiece>)
    requires
        (right_turns % 4 == 1 || right_turns % 4 == 3) ==> orientation_index(piece.orientation) + right_turns <= i32::MAX,
    ensures
        r == rotate_spec(RotationSystem::Ocular, *piece, board@, right_turns as int),
{
    let m = turns_mod_4(right_turns);
    if m == 0 {
        Some(*piece)
    } else if m == 2 {
        let kicks = half_turn_kicks_vec(piece.shape, piece.orientation);
        piece.first_fit(board, kicks.as_slice(), 2)
    } else {
        let kicks = ocular_quarter_kicks_vec(piece.shape, piece.orientation, m == 3);
        piece.first_fit(board, kicks.as_slice(), right_turns)
    }
}

/// Rotation under the Super Rotation System.
fn rotate_super(piece: &ActivePiece, board: &Board, right_turns: i32) -> (r: Option<ActivePiece>)
    requires
        (right_turns % 4 == 1 || right_turns % 4 == 3) ==> orientation_index(piece.orientation) + right_turns <= i32::MAX,
    ensures
        r == rotate_spec(RotationSystem::Super, *piece, board@, right_turns as int),
{
    let m = turns_mod_4(right_turns);
    if m == 0 {
        Some(*piece)
    } else if m == 2 {
        let kicks = half_turn_kicks_vec(piece.shape, piece.orientation);
        piece.first_fit(board, kicks.as_slice(), 2)
    } else {
        let kicks = super_quarter_kicks_vec(piece.shape, piece.orientation, m == 3);
        piece.first_fit(board, kicks.as_slice(), right_turns)
    }
}

/// Rotation under the Classic Rotation System.
fn rotate_classic(piece: &ActivePiece, board: &Board, right_turns: i32) -> (r: Option<ActivePiece>)
    requires
        (right_turns % 4 == 1 || right_turns % 4 == 3) ==> orientation_index(piece.orientation) + right_turns <= i32::MAX,
    ensures
        r == rotate_spec(RotationSystem::Classic, *piece, board@, right_turns as int),
{
    let m = turns_mod_4(right_turns);
    if m == 0 {
        Some(*piece)
    } else if m == 2 {
        piece.fits_at_rotated(board, (0, 0), 2)
    } else {
        let kick = classic_kick_exec(piece.shape, piece.orientation, m == 3);
        piece.fits_at_rotated(board, kick, right_turns)
    }
}

/// The spawn state of a newly generated piece: facing north, with the O piece one cell further right.
pub open spec fn initial_piece(shape: Tetromino) -> ActivePiece {
    ActivePiece {
        shape,
        orientation: Orientation::N,
        position: if shape == Tetromino::O { (4, 20) } else { (3, 20) },
    }
}

/// A rotated piece lies on free cells, keeps its shape, and has turned by the requested amount.
pub proof fn lemma_rotation_fits(sys: RotationSystem, p: ActivePiece, board: Seq<Line>, right_turns: int)
    ensures
        rotate_spec(sys, p, board, right_turns) matches Some(q) ==> {
            &&& (right_turns % 4 != 0 ==> crate::pieces::piece_fits(board, q))
            &&& q.shape == p.shape
            &&& q.orientation == orientation_from_turns(orientation_index(p.orientation) + right_turns)
        },
{
    let r = right_turns % 4;
    if r != 0 {
        let t = if r == 2 { turned(p, 2) } else { turned(p, right_turns) };
        crate::pieces::lemma_first_fit_fits(board, t, half_turn_kicks(p.shape, p.orientation));
        crate::pieces::lemma_first_fit_fits(board, t, super_quarter_kicks(p.shape, p.orientation, r == 3));
        crate::pieces::lemma_first_fit_fits(board, t, ocular_quarter_kicks(p.shape, p.orientation, r == 3));
        lemma_first_fit_keeps(board, t, half_turn_kicks(p.shape, p.orientation));
        lemma_first_fit_keeps(board, t, super_quarter_kicks(p.shape, p.orientation, r == 3));
        lemma_first_fit_keeps(board, t, ocular_quarter_kicks(p.shape, p.orientation, r == 3));
        if r == 2 {
            let o = orientation_index(p.orientation);
            let k = right_turns / 4;
            assert(right_turns == 4 * k + 2);
            assert((o + right_turns) % 4 == (o + 2) % 4) by {
                assert(o + right_turns == (o + 2) + 4 * k);
                vstd::arithmetic::div_mod::lemma_mod_multiples_vanish(k, o + 2, 4);
            }
        }
    } else {
        assert(orientation_from_turns(orientation_index(p.orientation) + right_turns) == p.orientation);
    }
}

/// A fit search moves the piece without turning it or changing its shape.
pub proof fn lemma_first_fit_keeps(board: Seq<Line>, p: ActivePiece, offsets: Seq<Offset>)
    ensures
        first_fit_spec(board, p, offsets) matches Some(q) ==> q.shape == p.shape && q.orientation
            == p.orientation,
    decreases offsets.len(),
{
    if offsets.len() > 0 {
        lemma_first_fit_keeps(board, p, offsets.drop_first());
    }
}

impl RotationSystem {
    /// Rotates a piece by some number of right turns (negative turns rotate left), trying the
    /// system's kicks in order; `None` if no kick fits.
    pub fn rotate(&self, piece: &ActivePiece, board: &Board, right_turns: i32) -> (r: Option<ActivePiece>)
        requires
            (right_turns % 4 == 1 || right_turns % 4 == 3) ==> orientation_index(piece.orientation) + right_turns <= i32::MAX,
        ensures
            r == rotate_spec(*self, *piece, board@, right_turns as int),
    {
        match self {
            RotationSystem::Classic => rotate_classic(piece, board, right_turns),
            RotationSystem::Super => rotate_super(piece, board, right_turns),
            RotationSystem::Ocular => rotate_ocular(piece, board, right_turns),
        }
    }

    /// The initial state of a newly spawned piece of the given shape.
    pub fn place_initial(&mut self, shape: Tetromino) -> (r: ActivePiece)
        ensures
            r == initial_piece(shape),
            *final(self) == *old(self),
    {
        let position = match shape {
            Tetromino::O => (4, 20),
            _ => (3, 20),
        };
        ActivePiece { shape, orientation: Orientation::N, position }
    }
}

/// Kicks of the I piece turning left, under the Okay system.
pub open spec fn okay_i_left(o: Orientation) -> Seq<Offset> {
    if is_ns(o) {
        seq![(1, -1isize), (1, -2isize), (1, -3isize), (0, -1isize), (2, -1isize), (1, 1)]
    } else {
        seq![(-2isize, 1), (-3isize, 1), (-1isize, 1), (0, 1), (-2isize, 0), (-3isize, 0)]
    }
}

/// Kicks of the S piece under the Okay system.
pub open spec fn okay_s(o: Orientation, left: bool) -> Seq<Offset> {
    if is_ns(o) {
        if left {
            seq![(0, 0), (0, -1isize), (1, 0), (-1isize, -1isize)]
        } else {
            seq![(1, 0), (1, -1isize), (0, 0), (0, -1isize)]
        }
    } else {
        if left {
            seq![(-1isize, 0), (0, 0), (-1isize, 1), (0, 1)]
        } else {
            seq![(0, 0), (0, -1isize), (-1isize, 0), (0, 1), (-1isize, 1)]
        }
    }
}

/// Kicks of the T piece turning left, under the Okay system.
pub open spec fn okay_t_left(o: Orientation) -> Seq<Offset> {
    match o {
        Orientation::N => seq![(0, -1isize), (0, 0), (1, -1isize), (1, 0)],
        Orientation::E => seq![(-1isize, 0), (-1isize, -1isize), (0, 0), (0, -1isize)],
        Orientation::S => seq![(1, 0), (0, 0), (0, -1isize), (1, -1isize)],
        Orientation::W => seq![(0, 0), (-1isize, 0), (-1isize, -1isize), (0, -1isize)],
    }
}

/// Kicks of the L piece under the Okay system.
pub open spec fn okay_l(o: Orientation, left: bool) -> Seq<Offset> {
    match o {
        Orientation::N => if left {
            seq![(0, -1isize), (1, -1isize), (0, 0), (1, 0)]
        } else {
            seq![(1, -1isize), (1, 0), (2, 0), (0, 0)]
        },
        Orientation::E => if left {
            seq![(-1isize, 1), (-1isize, 0), (0, 1), (0, 0)]
        } else {
            seq![(-1isize, 0), (0, 0), (0, -1isize), (0, 1)]
        },
        Orientation::S => if left {
            seq![(1, 0), (0, 0), (1, -1isize), (0, -1isize)]
        } else {
            seq![(0, 0), (1, 0), (0, -1isize), (1, -1isize)]
        },
        Orientation::W => if left {
            seq![(0, 0), (-1isize, 0), (0, 1), (-1isize, 1)]
        } else {
            seq![(0, 1), (0, 0), (-1isize, 1), (-1isize, 0)]
        },
    }
}

/// Okay kicks for a quarter turn: like the Ocular system, the I and T pieces turning right
/// mirror their left turns, Z mirrors S and J mirrors L.
pub open spec fn okay_quarter_kicks(shape: Tetromino, o: Orientation, left: bool) -> Seq<Offset> {
    match shape {
        Tetromino::O => seq![(0, 0)],
        Tetromino::I => if left {
            okay_i_left(o)
        } else {
            mirrored(okay_i_left(o), ocular_axis(shape, o))
        },
        Tetromino::S => okay_s(o, left),
        Tetromino::Z => mirrored(okay_s(o, !left), ocular_axis(shape, o)),
        Tetromino::T => if left {
            okay_t_left(o)
        } else {
            mirrored(okay_t_left(dual(o)), ocular_axis(shape, o))
        },
        Tetromino::L => okay_l(o, left),
        Tetromino::J => mirrored(okay_l(dual(o), !left), ocular_axis(shape, o)),
    }
}

/// The outcome of a quarter turn (or none) under the Okay system.
pub open spec fn okay_rotate_spec(p: ActivePiece, board: Seq<Line>, right_turns: int) -> Option<ActivePiece> {
    let r = right_turns % 4;
    if r == 0 {
        Some(p)
    } else {
        first_fit_spec(board, turned(p, right_turns), okay_quarter_kicks(p.shape, p.orientation, r == 3))
    }
}

/// The spawn state of a piece under the Okay system: S and L face east, Z and J face west.
pub open spec fn okay_initial_piece(shape: Tetromino) -> ActivePiece {
    match shape {
        Tetromino::O => ActivePiece { shape, orientation: Orientation::N, position: (4, 20) },
        Tetromino::I => ActivePiece { shape, orientation: Orientation::N, position: (3, 20) },
        Tetromino::S => ActivePiece { shape, orientation: Orientation::E, position: (4, 20) },
        Tetromino::Z => ActivePiece { shape, orientation: Orientation::W, position: (4, 20) },
        Tetromino::T => ActivePiece { shape, orientation: Orientation::N, position: (3, 20) },
        Tetromino::L => ActivePiece { shape, orientation: Orientation::E, position: (4, 20) },
        Tetromino::J => ActivePiece { shape, orientation: Orientation::W, position: (4, 20) },
    }
}

fn okay_i_left_vec(o: Orientation) -> (r: Vec<Offset>)
    ensures
        r@ == okay_i_left(o),
{
    let r: Vec<Offset> = if o_is_ns(o) {
        vec![(1, -1isize), (1, -2isize), (1, -3isize), (0, -1isize), (2, -1isize), (1, 1)]
    } else {
        vec![(-2isize, 1), (-3isize, 1), (-1isize, 1), (0, 1), (-2isize, 0), (-3isize, 0)]
    };
    proof {
        assert(r@ =~= okay_i_left(o));
    }
    r
}

fn okay_s_vec(o: Orientation, left: bool) -> (r: Vec<Offset>)
    ensures
        r@ == okay_s(o, left),
{
    let r: Vec<Offset> = if o_is_ns(o) {
        if left {
            vec![(0, 0), (0, -1isize), (1, 0), (-1isize, -1isize)]
        } else {
            vec![(1, 0), (1, -1isize), (0, 0), (0, -1isize)]
        }
    } else {
        if left {
            vec![(-1isize, 0), (0, 0), (-1isize, 1), (0, 1)]
        } else {
            vec![(0, 0), (0, -1isize), (-1isize, 0), (0, 1), (-1isize, 1)]
        }
    };
    proof {
        assert(r@ =~= okay_s(o, left));
    }
    r
}

fn okay_t_left_vec(o: Orientation) -> (r: Vec<Offset>)
    ensures
        r@ == okay_t_left(o),
{
    let r: Vec<Offset> = match o {
        Orientation::N => vec![(0, -1isize), (0, 0), (1, -1isize), (1, 0)],
        Orientation::E => vec![(-1isize, 0), (-1isize, -1isize), (0, 0), (0, -1isize)],
        Orientation::S => vec![(1, 0), (0, 0), (0, -1isize), (1, -1isize)],
        Orientation::W => vec![(0, 0), (-1isize, 0), (-1isize, -1isize), (0, -1isize)],
    };
    proof {
        assert(r@ =~= okay_t_left(o));
    }
    r
}

fn okay_l_vec(o: Orientation, left: bool) -> (r: Vec<Offset>)
    ensures
        r@ == okay_l(o, left),
{
    let r: Vec<Offset> = match o {
        Orientation::N => if left {
            vec![(0, -1isize), (1, -1isize), (0, 0), (1, 0)]
        } else {
            vec![(1, -1isize), (1, 0), (2, 0), (0, 0)]
        },
        Orientation::E => if left {
            vec![(-1isize, 1), (-1isize, 0), (0, 1), (0, 0)]
        } else {
            vec![(-1isize, 0), (0, 0), (0, -1isize), (0, 1)]
        },
        Orientation::S => if left {
            vec![(1, 0), (0, 0), (1, -1isize), (0, -1isize)]
        } else {
            vec![(0, 0), (1, 0), (0, -1isize), (1, -1isize)]
        },
        Orientation::W => if left {
            vec![(0, 0), (-1isize, 0), (0, 1), (-1isize, 1)]
        } else {
            vec![(0, 1), (0, 0), (-1isize, 1), (-1isize, 0)]
        },
    };
    proof {
        assert(r@ =~= okay_l(o, left));
    }
    r
}

/// Every Okay base kick moves at most 3 cells horizontally.
proof fn lemma_okay_small(o: Orientation, left: bool)
    ensures
        forall|i: int| 0 <= i < okay_i_left(o).len() ==> -3 <= #[trigger] okay_i_left(o)[i].0 <= 3,
        forall|i: int| 0 <= i < okay_s(o, left).len() ==> -3 <= #[trigger] okay_s(o, left)[i].0 <= 3,
        forall|i: int| 0 <= i < okay_t_left(o).len() ==> -3 <= #[trigger] okay_t_left(o)[i].0 <= 3,
        forall|i: int| 0 <= i < okay_l(o, left).len() ==> -3 <= #[trigger] okay_l(o, left)[i].0 <= 3,
{
}

/// The Okay kicks for a quarter turn.
fn okay_quarter_kicks_vec(shape: Tetromino, o: Orientation, left: bool) -> (r: Vec<Offset>)
    ensures
        r@ == okay_quarter_kicks(shape, o, left),
{
    proof {
        lemma_okay_small(o, left);
        lemma_okay_small(o, !left);
        lemma_okay_small(dual(o), left);
        lemma_okay_small(dual(o), !left);
    }
    let ns = o_is_ns(o);
    match shape {
        Tetromino::O => {
            let r: Vec<Offset> = vec![(0, 0)];
            assert(r@ =~= okay_quarter_kicks(shape, o, left));
            r
        },
        Tetromino::I => if left {
            okay_i_left_vec(o)
        } else {
            mirror_vec(okay_i_left_vec(o), if ns { 3 } else { -3 })
        },
        Tetromino::S => okay_s_vec(o, left),
        Tetromino::Z => mirror_vec(okay_s_vec(o, !left), if ns { 1 } else { -1 }),
        Tetromino::T => if left {
            okay_t_left_vec(o)
        } else {
            mirror_vec(okay_t_left_vec(dual_exec(o)), if ns { 1 } else { -1 })
        },
        Tetromino::L => okay_l_vec(o, left),
        Tetromino::J => mirror_vec(okay_l_vec(dual_exec(o), !left), if ns { 1 } else { -1 }),
    }
}

/// The Classic Rotation System, as a rotation system of its own.
#[derive(Clone, Copy, PartialEq, Eq, Structural, Hash, Default, Debug)]
pub struct Classic;

impl Classic {
    /// Rotates a piece by some number of right turns under the Classic system: a quarter turn
    /// tries a single kick, a half turn only the plain rotation.
    pub fn rotate(&mut self, prev_piece: &ActivePiece, board: &Board, right_turns: i32) -> (r: Option<ActivePiece>)
        requires
            (right_turns % 4 == 1 || right_turns % 4 == 3) ==> orientation_index(prev_piece.orientation) + right_turns <= i32::MAX,
        ensures
            r == rotate_spec(RotationSystem::Classic, *prev_piece, board@, right_turns as int),
    {
        rotate_classic(prev_piece, board, right_turns)
    }

    /// The spawn state of a piece: facing north, with the O piece one cell further right.
    pub fn place_initial(&mut self, shape: Tetromino) -> (r: ActivePiece)
        ensures
            r == initial_piece(shape),
    {
        let position = match shape {
            Tetromino::O => (4, 20),
            _ => (3, 20),
        };
        ActivePiece { shape, orientation: Orientation::N, position }
    }
}

/// The Okay Rotation System: a forerunner of the Ocular system, whose half turn is not defined.
#[derive(Clone, Copy, PartialEq, Eq, Structural, Hash, Default, Debug)]
pub struct Okay;

impl Okay {
    /// Rotates a piece by a quarter turn (or a whole number of full turns) under the Okay
    /// system, trying its kicks in order; `None` if no kick fits. Half turns are not defined.
    pub fn rotate(&mut self, prev_piece: &ActivePiece, board: &Board, right_turns: i32) -> (r: Option<ActivePiece>)
        requires
            (right_turns % 4 == 1 || right_turns % 4 == 3) ==> orientation_index(prev_piece.orientation) + right_turns <= i32::MAX,
            right_turns % 4 != 2,
        ensures
            r == okay_rotate_spec(*prev_piece, board@, right_turns as int),
    {
        let m = turns_mod_4(right_turns);
        if m == 0 {
            Some(*prev_piece)
        } else {
            let kicks = okay_quarter_kicks_vec(prev_piece.shape, prev_piece.orientation, m == 3);
            prev_piece.first_fit(board, kicks.as_slice(), right_turns)
        }
    }

    /// The spawn state of a piece under the Okay system.
    pub fn place_initial(&mut self, shape: Tetromino) -> (r: ActivePiece)
        ensures
            r == okay_initial_piece(shape),
    {
        let (orientation, position) = match shape {
            Tetromino::O => (Orientation::N, (4, 20)),
            Tetromino::I => (Orientation::N, (3, 20)),
            Tetromino::S => (Orientation::E, (4, 20)),
            Tetromino::Z => (Orientation::W, (4, 20)),
            Tetromino::T => (Orientation::N, (3, 20)),
            Tetromino::L => (Orientation::E, (4, 20)),
            Tetromino::J => (Orientation::W, (4, 20)),
        };
        ActivePiece { shape, orientation, position }
    }
}

/// A piece rotated under the Okay system lies on free cells (when it turned), keeps its
/// shape, and has turned by the requested amount.
pub proof fn lemma_okay_rotation_fits(p: ActivePiece, board: Seq<Line>, right_turns: int)
    ensures
        okay_rotate_spec(p, board, right_turns) matches Some(q) ==> {
            &&& (right_turns % 4 != 0 ==> crate::pieces::piece_fits(board, q))
            &&& q.shape == p.shape
            &&& q.orientation == orientation_from_turns(orientation_index(p.orientation) + right_turns)
        },
{
    let r = right_turns % 4;
    if r != 0 {
        let t = turned(p, right_turns);
        crate::pieces::lemma_first_fit_fits(board, t, okay_quarter_kicks(p.shape, p.orientation, r == 3));
        lemma_first_fit_keeps(board, t, okay_quarter_kicks(p.shape, p.orientation, r == 3));
    } else {
        assert(orientation_from_turns(orientation_index(p.orientation) + right_turns) == p.orientation);
    }
}

} // verus!
