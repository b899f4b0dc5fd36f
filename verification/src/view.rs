//! What a player sees of a game: the visible part of the board with the piece in play and
//! where it would land, and the goal that remains under the mode's limits.

use vstd::prelude::*;
use crate::game::{GameState, covers, pieces_total};
use crate::modes::{GameTime, Limits};
use crate::pieces::{
    ActivePiece, Board, HEIGHT, Line, SKYLINE, TileTypeID, WIDTH, piece_fits, shape_minos,
    tile_type_of, well_spec,
};

verus! {

/// How a cell of the board is shown.
#[derive(Clone, Copy, PartialEq, Eq, Structural, Debug, Hash)]
pub enum CellView {
    /// Nothing.
    Empty,
    /// A tile fixed on the board.
    Fixed(TileTypeID),
    /// A tile of the landing ("ghost") piece: where the piece in play would land if dropped.
    Landing(TileTypeID),
    /// A tile of the piece in play.
    Active(TileTypeID),
}

/// The cell as fixed on the board.
pub open spec fn fixed_view(board: Seq<Line>, x: int, y: int) -> CellView {
    match board[y]@[x] {
        Some(t) => CellView::Fixed(t),
        None => CellView::Empty,
    }
}

/// How the cell `(x, y)` is shown: the piece in play covers its landing piece, which covers
/// the board.
pub open spec fn cell_view(board: Seq<Line>, active: Option<ActivePiece>, x: int, y: int) -> CellView {
    match active {
        Some(p) => if covers(p, x, y) {
            CellView::Active(tile_type_of(p.shape))
        } else if covers(well_spec(board, p), x, y) {
            CellView::Landing(tile_type_of(p.shape))
        } else {
            fixed_view(board, x, y)
        },
        None => fixed_view(board, x, y),
    }
}

/// A piece that fits lies with its position inside the board.
proof fn lemma_fitting_position(board: Seq<Line>, p: ActivePiece)
    requires
        piece_fits(board, p),
    ensures
        p.position.0 < WIDTH,
        p.position.1 < HEIGHT,
{
    crate::pieces::lemma_minos_small(p.shape, p.orientation);
    let m = shape_minos(p.shape, p.orientation)[0];
    assert(crate::pieces::cell_free(board, p.position.0 + m.0, p.position.1 + m.1));
    assert(m.0 >= 0 && m.1 >= 0) by {
        crate::pieces::lemma_minos_nonneg(p.shape, p.orientation);
    }
}

/// Whether one of the four tiles lies at `(x, y)`.
fn tiles_cover(tiles: &[((usize, usize), TileTypeID); 4], x: usize, y: usize) -> (r: bool)
    ensures
        r == exists|i: int| 0 <= i < 4 && (#[trigger] tiles@[i]).0 == (x, y),
{
    let mut i: usize = 0;
    while i < 4
        invariant
            i <= 4,
            forall|j: int| 0 <= j < i ==> (#[trigger] tiles@[j]).0 != (x, y),
        decreases 4 - i,
    {
        if tiles[i].0.0 == x && tiles[i].0.1 == y {
            assert(tiles@[i as int].0 == (x, y));
            return true;
        }
        i += 1;
    }
    false
}

/// Whether the four tiles are those of the piece.
pub open spec fn tiles_of(tiles: [((usize, usize), TileTypeID); 4], p: ActivePiece) -> bool {
    forall|i: int|
        #![trigger tiles@[i]]
        0 <= i < 4 ==> tiles@[i] == ((
            (p.position.0 + shape_minos(p.shape, p.orientation)[i].0) as usize,
            (p.position.1 + shape_minos(p.shape, p.orientation)[i].1) as usize,
        ), tile_type_of(p.shape))
}

/// The tiles of a piece inside the board lie exactly on the cells it covers.
proof fn lemma_tiles_cover(tiles: [((usize, usize), TileTypeID); 4], p: ActivePiece, x: int, y: int)
    requires
        tiles_of(tiles, p),
        p.position.0 < WIDTH,
        p.position.1 < HEIGHT,
        0 <= x < WIDTH,
        0 <= y < HEIGHT,
    ensures
        (exists|i: int| 0 <= i < 4 && (#[trigger] tiles@[i]).0 == (x as usize, y as usize)) == covers(p, x, y),
{
    crate::pieces::lemma_minos_small(p.shape, p.orientation);
    crate::pieces::lemma_minos_nonneg(p.shape, p.orientation);
    let m = shape_minos(p.shape, p.orientation);
    if covers(p, x, y) {
        let i = choose|i: int|
            0 <= i < 4 && p.position.0 + (#[trigger] m[i]).0 == x && p.position.1 + m[i].1 == y;
        assert(tiles@[i].0 == (x as usize, y as usize));
    }
    if exists|i: int| 0 <= i < 4 && (#[trigger] tiles@[i]).0 == (x as usize, y as usize) {
        let i = choose|i: int| 0 <= i < 4 && (#[trigger] tiles@[i]).0 == (x as usize, y as usize);
        assert(tiles@[i] == ((
            (p.position.0 + m[i].0) as usize,
            (p.position.1 + m[i].1) as usize,
        ), tile_type_of(p.shape)));
        assert(0 <= p.position.0 + m[i].0 <= usize::MAX);
        assert(0 <= p.position.1 + m[i].1 <= usize::MAX);
        assert(p.position.0 + m[i].0 == x && p.position.1 + m[i].1 == y);
    }
}

/// The rows `0..=SKYLINE` of the board as shown: with the piece in play (if any) and where it
/// would land.
pub fn board_view(board: &Board, active: Option<ActivePiece>) -> (r: Vec<[CellView; 10]>)
    requires
        board@.len() == HEIGHT,
        active matches Some(p) ==> piece_fits(board@, p),
    ensures
        r@.len() == SKYLINE + 1,
        forall|y: int, x: int|
            #![trigger r@[y]@[x]]
            0 <= y <= SKYLINE && 0 <= x < WIDTH ==> r@[y]@[x] == cell_view(board@, active, x, y),
{
    let mut piece_tiles = [((0, 0), 0); 4];
    let mut landing_tiles = [((0, 0), 0); 4];
    if let Some(p) = active {
        let landing = p.well_piece(board);
        proof {
            crate::pieces::lemma_well_fits(board@, p);
            lemma_fitting_position(board@, p);
            lemma_fitting_position(board@, landing);
        }
        piece_tiles = p.tiles();
        landing_tiles = landing.tiles();
    }
    let mut rows: Vec<[CellView; 10]> = Vec::new();
    let mut y: usize = 0;
    while y <= SKYLINE
        invariant
            y <= SKYLINE + 1,
            rows@.len() == y,
            board@.len() == HEIGHT,
            active matches Some(p) ==> {
                &&& tiles_of(piece_tiles, p)
                &&& tiles_of(landing_tiles, well_spec(board@, p))
                &&& p.position.0 < WIDTH && p.position.1 < HEIGHT
                &&& well_spec(board@, p).position.0 < WIDTH && well_spec(board@, p).position.1 < HEIGHT
            },
            forall|yy: int, x: int|
                #![trigger rows@[yy]@[x]]
                0 <= yy < y && 0 <= x < WIDTH ==> rows@[yy]@[x] == cell_view(board@, active, x, yy),
        decreases SKYLINE + 1 - y,
    {
        let mut row: [CellView; 10] = [CellView::Empty; 10];
        let mut x: usize = 0;
        while x < WIDTH
            invariant
                x <= WIDTH,
                y <= SKYLINE,
                board@.len() == HEIGHT,
                active matches Some(p) ==> {
                    &&& tiles_of(piece_tiles, p)
                    &&& tiles_of(landing_tiles, well_spec(board@, p))
                    &&& p.position.0 < WIDTH && p.position.1 < HEIGHT
                    &&& well_spec(board@, p).position.0 < WIDTH && well_spec(board@, p).position.1 < HEIGHT
                },
                forall|xx: int| 0 <= xx < x ==> #[trigger] row@[xx] == cell_view(board@, active, xx, y as int),
            decreases WIDTH - x,
        {
            let fixed = match board[y][x] {
                Some(t) => CellView::Fixed(t),
                None => CellView::Empty,
            };
            let cell = match active {
                Some(p) => {
                    proof {
                        lemma_tiles_cover(piece_tiles, p, x as int, y as int);
                        lemma_tiles_cover(landing_tiles, well_spec(board@, p), x as int, y as int);
                    }
                    if tiles_cover(&piece_tiles, x, y) {
                        CellView::Active(p.shape.tiletypeid())
                    } else if tiles_cover(&landing_tiles, x, y) {
                        CellView::Landing(p.shape.tiletypeid())
                    } else {
                        fixed
                    }
                },
                None => fixed,
            };
            row[x] = cell;
            x += 1;
        }
        rows.push(row);
        y += 1;
    }
    rows
}

/// What remains to reach the first limit of a mode (in the order time, pieces, lines, level,
/// score).
#[derive(Clone, Copy, PartialEq, Eq, Structural, Debug, Hash)]
pub enum Goal {
    /// Time left.
    TimeLeft(GameTime),
    /// Pieces remaining to be played.
    PiecesRemaining(u32),
    /// Lines left to clear.
    LinesLeft(usize),
    /// Levels remaining.
    LevelsRemaining(u32),
    /// Points to score.
    PointsToScore(u32),
}

/// `a - b`, or zero if `b` is larger.
pub open spec fn sat_sub(a: int, b: int) -> int {
    if a >= b { a - b } else { 0 }
}

/// What remains of the first limit of the mode, if it has any.
pub open spec fn goal_spec(limits: Limits, s: GameState) -> Option<Goal> {
    if let Some((_, d)) = limits.time {
        Some(Goal::TimeLeft(sat_sub(d as int, s.time as int) as GameTime))
    } else if let Some((_, n)) = limits.pieces {
        Some(Goal::PiecesRemaining(sat_sub(n as int, pieces_total(s.pieces_played@)) as u32))
    } else if let Some((_, n)) = limits.lines {
        Some(Goal::LinesLeft(sat_sub(n as int, s.lines_cleared as int) as usize))
    } else if let Some((_, l)) = limits.level {
        Some(Goal::LevelsRemaining(sat_sub(l as int, s.level as int) as u32))
    } else if let Some((_, n)) = limits.score {
        Some(Goal::PointsToScore(sat_sub(n as int, s.score as int) as u32))
    } else {
        None
    }
}

/// What remains of the first limit of the mode, if it has any. (More than `u32::MAX` pieces
/// played in all cannot be counted.)
pub fn goal(limits: &Limits, state: &GameState) -> (r: Option<Goal>)
    requires
        pieces_total(state.pieces_played@) <= u32::MAX,
    ensures
        r == goal_spec(*limits, *state),
{
    if let Some((_, d)) = limits.time {
        Some(Goal::TimeLeft(d.saturating_sub(state.time)))
    } else if let Some((_, n)) = limits.pieces {
        let p = &state.pieces_played;
        let total: u32 = p[0] + p[1] + p[2] + p[3] + p[4] + p[5] + p[6];
        Some(Goal::PiecesRemaining(n.saturating_sub(total)))
    } else if let Some((_, n)) = limits.lines {
        Some(Goal::LinesLeft(n.saturating_sub(state.lines_cleared)))
    } else if let Some((_, l)) = limits.level {
        Some(Goal::LevelsRemaining(l.saturating_sub(state.level)))
    } else if let Some((_, n)) = limits.score {
        Some(Goal::PointsToScore(n.saturating_sub(state.score)))
    } else {
        None
    }
}

/// The frame (`0..6`) of the flash of a locked piece, `elapsed` nanoseconds after it
/// locked: the frames end at 50, 75, 100, 125, 150 and 175 ms; `None` once the flash is over.
pub open spec fn lock_frame_spec(elapsed: GameTime) -> Option<usize> {
    let ms = elapsed / 1_000_000;
    if ms < 50 {
        Some(0)
    } else if ms < 75 {
        Some(1)
    } else if ms < 100 {
        Some(2)
    } else if ms < 125 {
        Some(3)
    } else if ms < 150 {
        Some(4)
    } else if ms < 175 {
        Some(5)
    } else {
        None
    }
}

/// The frame of the flash of a locked piece, as [`lock_frame_spec`] gives it.
pub fn lock_frame(elapsed: GameTime) -> (r: Option<usize>)
    ensures
        r == lock_frame_spec(elapsed),
{
    let ms = elapsed / 1_000_000;
    if ms < 50 {
        Some(0)
    } else if ms < 75 {
        Some(1)
    } else if ms < 100 {
        Some(2)
    } else if ms < 125 {
        Some(3)
    } else if ms < 150 {
        Some(4)
    } else if ms < 175 {
        Some(5)
    } else {
        None
    }
}

/// The frame (`0..10`) of the animation of cleared lines, `elapsed` nanoseconds into a line
/// clear delay of `delay` nanoseconds: each frame lasts a tenth of the delay; `None` when
/// there is no delay or it is over.
pub open spec fn line_clear_frame_spec(elapsed: GameTime, delay: GameTime) -> Option<usize> {
    if delay == 0 || elapsed >= delay { None } else { Some((10 * elapsed / (delay as int)) as usize) }
}

/// The frame of the animation of cleared lines, as [`line_clear_frame_spec`] gives it.
pub fn line_clear_frame(elapsed: GameTime, delay: GameTime) -> (r: Option<usize>)
    ensures
        r == line_clear_frame_spec(elapsed, delay),
        r matches Some(f) ==> f < 10,
{
    if delay == 0 || elapsed >= delay {
        return None;
    }
    let e10: u128 = (elapsed as u128) * 10;
    let f: u128 = e10 / (delay as u128);
    assert(f < 10) by (nonlinear_arith)
        requires
            f == (e10 as int) / (delay as int),
            e10 == elapsed * 10,
            elapsed < delay,
            delay > 0,
    ;
    Some(f as usize)
}

/// The shade (`0..8`, brightest first) of a cell of the trail a hard drop leaves, `h` rows
/// above where the piece landed and `elapsed` nanoseconds after the drop: the drop's time step
/// (the steps end at 50, 70, 90, 110, 130, 150, 180 and 240 ms) plus half the height; `None`
/// once past the last step or the darkest shade.
pub open spec fn trail_shade_spec(elapsed: GameTime, h: usize) -> Option<usize> {
    let ms = elapsed / 1_000_000;
    let step: int = if ms < 50 {
        0
    } else if ms < 70 {
        1
    } else if ms < 90 {
        2
    } else if ms < 110 {
        3
    } else if ms < 130 {
        4
    } else if ms < 150 {
        5
    } else if ms < 180 {
        6
    } else if ms < 240 {
        7
    } else {
        8
    };
    if step < 8 && h / 2 + step < 8 { Some((h / 2 + step) as usize) } else { None }
}

/// The shade of a cell of a hard drop's trail, as [`trail_shade_spec`] gives it.
pub fn trail_shade(elapsed: GameTime, h: usize) -> (r: Option<usize>)
    ensures
        r == trail_shade_spec(elapsed, h),
        r matches Some(s) ==> s < 8,
{
    let ms = elapsed / 1_000_000;
    let step: usize = if ms < 50 {
        0
    } else if ms < 70 {
        1
    } else if ms < 90 {
        2
    } else if ms < 110 {
        3
    } else if ms < 130 {
        4
    } else if ms < 150 {
        5
    } else if ms < 180 {
        6
    } else if ms < 240 {
        7
    } else {
        8
    };
    if step < 8 && h / 2 < 8 - step { Some(h / 2 + step) } else { None }
}

} // verus!
