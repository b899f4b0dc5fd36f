//! Tetromino shapes, orientations, active pieces and the playing grid they are placed on.

use vstd::prelude::*;

verus! {

/// The game field width.
pub const WIDTH: usize = 10;

/// The maximal height of the (conventionally visible) playing grid that can be played in.
pub const SKYLINE: usize = 20;

/// The maximum height *any* piece tile could reach before a lock out occurs.
pub const HEIGHT: usize = 27;

/// Abstract identifier for which type of tile occupies a cell in the grid (never zero).
pub type TileTypeID = u32;

/// The type of horizontal lines of the playing grid.
pub type Line = [Option<TileTypeID>; 10];

/// The type of the entire two-dimensional playing grid (row 0 is the bottom row).
pub type Board = Vec<Line>;

/// Coordinates used to index into the [`Board`], starting in the bottom left.
pub type Coord = (usize, usize);

/// Coordinate offsets that can be [`add`]ed to [`Coord`]inates.
pub type Offset = (isize, isize);

/// Represents the orientation an active piece can be in.
#[derive(Clone, Copy, PartialEq, Eq, Structural, Debug, Hash, PartialOrd, Ord)]
pub enum Orientation {
    /// North.
    N,
    /// East.
    E,
    /// South.
    S,
    /// West.
    W,
}

/// Represents one of the seven playable piece shapes.
#[derive(Clone, Copy, PartialEq, Eq, Structural, Debug, Hash, PartialOrd, Ord)]
pub enum Tetromino {
    /// Four tiles arranged in one big square.
    O,
    /// Four tiles arranged in one straight line.
    I,
    /// Four tiles arranged in a left-snaking manner.
    S,
    /// Four tiles arranged in a right-snaking manner.
    Z,
    /// Four tiles arranged in a 'T'-shape.
    T,
    /// Four tiles arranged in an 'L'-shape.
    L,
    /// Four tiles arranged in a 'J'-shape.
    J,
}

/// An active tetromino in play.
#[derive(Clone, Copy, PartialEq, Eq, Debug, Hash, PartialOrd, Ord)]
pub struct ActivePiece {
    /// Type of tetromino the active piece is.
    pub shape: Tetromino,
    /// In which way the tetromino is re-oriented.
    pub orientation: Orientation,
    /// The position of the active piece on a playing grid.
    pub position: Coord,
}

/// Number of right turns from north to the given orientation.
pub open spec fn orientation_index(o: Orientation) -> int {
    match o {
        Orientation::N => 0,
        Orientation::E => 1,
        Orientation::S => 2,
        Orientation::W => 3,
    }
}

/// The orientation reached by `k` right turns from north (any integer `k`).
pub open spec fn orientation_from_turns(k: int) -> Orientation {
    let r = k % 4;
    if r == 0 {
        Orientation::N
    } else if r == 1 {
        Orientation::E
    } else if r == 2 {
        Orientation::S
    } else {
        Orientation::W
    }
}

/// The conventional index of a tetromino (`O I S Z T L J` are `0..7`).
pub open spec fn tetromino_index(t: Tetromino) -> int {
    match t {
        Tetromino::O => 0,
        Tetromino::I => 1,
        Tetromino::S => 2,
        Tetromino::Z => 3,
        Tetromino::T => 4,
        Tetromino::L => 5,
        Tetromino::J => 6,
    }
}

/// The tetromino with the given conventional index.
pub open spec fn tetromino_of_index(i: int) -> Tetromino
    recommends
        0 <= i < 7,
{
    if i == 0 {
        Tetromino::O
    } else if i == 1 {
        Tetromino::I
    } else if i == 2 {
        Tetromino::S
    } else if i == 3 {
        Tetromino::Z
    } else if i == 4 {
        Tetromino::T
    } else if i == 5 {
        Tetromino::L
    } else {
        Tetromino::J
    }
}

/// The tile offsets (relative to the piece position) of a shape in an orientation.
pub open spec fn shape_minos(t: Tetromino, o: Orientation) -> Seq<Coord> {
    match t {
        Tetromino::O => seq![(0, 0), (1, 0), (0, 1), (1, 1)],
        Tetromino::I => match o {
            Orientation::N | Orientation::S => seq![(0, 0), (1, 0), (2, 0), (3, 0)],
            Orientation::E | Orientation::W => seq![(0, 0), (0, 1), (0, 2), (0, 3)],
        },
        Tetromino::S => match o {
            Orientation::N | Orientation::S => seq![(0, 0), (1, 0), (1, 1), (2, 1)],
            Orientation::E | Orientation::W => seq![(1, 0), (0, 1), (1, 1), (0, 2)],
        },
        Tetromino::Z => match o {
            Orientation::N | Orientation::S => seq![(1, 0), (2, 0), (0, 1), (1, 1)],
            Orientation::E | Orientation::W => seq![(0, 0), (0, 1), (1, 1), (1, 2)],
        },
        Tetromino::T => match o {
            Orientation::N => seq![(0, 0), (1, 0), (2, 0), (1, 1)],
            Orientation::E => seq![(0, 0), (0, 1), (1, 1), (0, 2)],
            Orientation::S => seq![(1, 0), (0, 1), (1, 1), (2, 1)],
            Orientation::W => seq![(1, 0), (0, 1), (1, 1), (1, 2)],
        },
        Tetromino::L => match o {
            Orientation::N => seq![(0, 0), (1, 0), (2, 0), (2, 1)],
            Orientation::E => seq![(0, 0), (1, 0), (0, 1), (0, 2)],
            Orientation::S => seq![(0, 0), (0, 1), (1, 1), (2, 1)],
            Orientation::W => seq![(1, 0), (1, 1), (0, 2), (1, 2)],
        },
        Tetromino::J => match o {
            Orientation::N => seq![(0, 0), (1, 0), (2, 0), (0, 1)],
            Orientation::E => seq![(0, 0), (0, 1), (0, 2), (1, 2)],
            Orientation::S => seq![(2, 0), (0, 1), (1, 1), (2, 1)],
            Orientation::W => seq![(0, 0), (1, 0), (1, 1), (1, 2)],
        },
    }
}

/// The standard tile id of a tetromino: its conventional index plus one.
pub open spec fn tile_type_of(t: Tetromino) -> TileTypeID {
    (tetromino_index(t) + 1) as TileTypeID
}

/// Whether the cell `(x, y)` lies within the grid and holds no tile.
pub open spec fn cell_free(board: Seq<Line>, x: int, y: int) -> bool {
    &&& 0 <= x < WIDTH
    &&& 0 <= y < HEIGHT
    &&& y < board.len()
    &&& board[y][x] is None
}

/// Whether a piece of the given shape and orientation at `pos` lies on free cells only.
pub open spec fn fits_spec(board: Seq<Line>, shape: Tetromino, o: Orientation, pos: (int, int)) -> bool {
    forall|i: int|
        #![trigger shape_minos(shape, o)[i]]
        0 <= i < 4 ==> cell_free(
            board,
            pos.0 + shape_minos(shape, o)[i].0,
            pos.1 + shape_minos(shape, o)[i].1,
        )
}

/// Whether the piece lies on free cells of the board.
pub open spec fn piece_fits(board: Seq<Line>, p: ActivePiece) -> bool {
    fits_spec(board, p.shape, p.orientation, (p.position.0 as int, p.position.1 as int))
}

/// The coordinate reached by adding an offset, if it does not leave the range of `usize`.
pub open spec fn add_spec(c: Coord, o: Offset) -> Option<Coord> {
    if 0 <= c.0 + o.0 <= usize::MAX && 0 <= c.1 + o.1 <= usize::MAX {
        Some(((c.0 + o.0) as usize, (c.1 + o.1) as usize))
    } else {
        None
    }
}

/// The piece moved by an offset, if the new position stays within the range of `usize`.
pub open spec fn shifted(p: ActivePiece, o: Offset) -> Option<ActivePiece> {
    match add_spec(p.position, o) {
        Some(c) => Some(ActivePiece { position: c, ..p }),
        None => None,
    }
}

/// The piece moved by an offset, if it lands on free cells of the board.
pub open spec fn fits_at_spec(board: Seq<Line>, p: ActivePiece, o: Offset) -> Option<ActivePiece> {
    match shifted(p, o) {
        Some(q) => if piece_fits(board, q) {
            Some(q)
        } else {
            None
        },
        None => None,
    }
}

impl Orientation {
    /// Find a new direction by turning right some number of times (negative turns turn left).
    pub fn rotate_r(&self, right_turns: i32) -> (r: Self)
        requires
            orientation_index(*self) + right_turns <= i32::MAX,
        ensures
            r == orientation_from_turns(orientation_index(*self) + right_turns),
    {
        let base: i32 = match self {
            Orientation::N => 0,
            Orientation::E => 1,
            Orientation::S => 2,
            Orientation::W => 3,
        };
        let sum: i32 = base + right_turns;
        let m: i32 = sum % 4;
        let r: i32 = if m < 0 { m + 4 } else { m };
        assert(r == (orientation_index(*self) + right_turns) % 4);
        if r == 0 {
            Orientation::N
        } else if r == 1 {
            Orientation::E
        } else if r == 2 {
            Orientation::S
        } else {
            Orientation::W
        }
    }
}


impl Tetromino {
    /// All seven tetrominos in their conventional order.
    pub fn all() -> (r: [Tetromino; 7])
        ensures
            forall|i: int| 0 <= i < 7 ==> #[trigger] r@[i] == tetromino_of_index(i),
    {
        [Tetromino::O, Tetromino::I, Tetromino::S, Tetromino::Z, Tetromino::T, Tetromino::L, Tetromino::J]
    }

    /// The conventional index of the tetromino (`O I S Z T L J` are `0..7`).
    pub fn index(&self) -> (r: usize)
        ensures
            r == tetromino_index(*self),
            r < 7,
            tetromino_of_index(r as int) == *self,
    {
        match self {
            Tetromino::O => 0,
            Tetromino::I => 1,
            Tetromino::S => 2,
            Tetromino::Z => 3,
            Tetromino::T => 4,
            Tetromino::L => 5,
            Tetromino::J => 6,
        }
    }

    /// The tetromino with the given conventional index, or `Err(())` if the index is not below 7.
    pub fn try_from_index(value: usize) -> (r: Result<Tetromino, ()>)
        ensures
            value < 7 ==> r == Ok::<Tetromino, ()>(tetromino_of_index(value as int)),
            value >= 7 ==> r is Err,
    {
        match value {
            0 => Ok(Tetromino::O),
            1 => Ok(Tetromino::I),
            2 => Ok(Tetromino::S),
            3 => Ok(Tetromino::Z),
            4 => Ok(Tetromino::T),
            5 => Ok(Tetromino::L),
            6 => Ok(Tetromino::J),
            _ => Err(()),
        }
    }

    /// Returns the mino offsets of a tetromino shape, given an orientation.
    pub fn minos(&self, oriented: Orientation) -> (r: [Coord; 4])
        ensures
            r@ == shape_minos(*self, oriented),
    {
        let r: [Coord; 4] = match self {
            Tetromino::O => [(0, 0), (1, 0), (0, 1), (1, 1)],
            Tetromino::I => match oriented {
                Orientation::N | Orientation::S => [(0, 0), (1, 0), (2, 0), (3, 0)],
                Orientation::E | Orientation::W => [(0, 0), (0, 1), (0, 2), (0, 3)],
            },
            Tetromino::S => match oriented {
                Orientation::N | Orientation::S => [(0, 0), (1, 0), (1, 1), (2, 1)],
                Orientation::E | Orientation::W => [(1, 0), (0, 1), (1, 1), (0, 2)],
            },
            Tetromino::Z => match oriented {
                Orientation::N | Orientation::S => [(1, 0), (2, 0), (0, 1), (1, 1)],
                Orientation::E | Orientation::W => [(0, 0), (0, 1), (1, 1), (1, 2)],
            },
            Tetromino::T => match oriented {
                Orientation::N => [(0, 0), (1, 0), (2, 0), (1, 1)],
                Orientation::E => [(0, 0), (0, 1), (1, 1), (0, 2)],
                Orientation::S => [(1, 0), (0, 1), (1, 1), (2, 1)],
                Orientation::W => [(1, 0), (0, 1), (1, 1), (1, 2)],
            },
            Tetromino::L => match oriented {
                Orientation::N => [(0, 0), (1, 0), (2, 0), (2, 1)],
                Orientation::E => [(0, 0), (1, 0), (0, 1), (0, 2)],
                Orientation::S => [(0, 0), (0, 1), (1, 1), (2, 1)],
                Orientation::W => [(1, 0), (1, 1), (0, 2), (1, 2)],
            },
            Tetromino::J => match oriented {
                Orientation::N => [(0, 0), (1, 0), (2, 0), (0, 1)],
                Orientation::E => [(0, 0), (0, 1), (0, 2), (1, 2)],
                Orientation::S => [(2, 0), (0, 1), (1, 1), (2, 1)],
                Orientation::W => [(0, 0), (1, 0), (1, 1), (1, 2)],
            },
        };
        assert(r@ =~= shape_minos(*self, oriented));
        r
    }

    /// Returns the convened-on standard tile id corresponding to the given tetromino.
    pub fn tiletypeid(&self) -> (r: TileTypeID)
        ensures
            r == tile_type_of(*self),
            1 <= r <= 7,
    {
        match self {
            Tetromino::O => 1,
            Tetromino::I => 2,
            Tetromino::S => 3,
            Tetromino::Z => 4,
            Tetromino::T => 5,
            Tetromino::L => 6,
            Tetromino::J => 7,
        }
    }
}

/// Every mino offset of every shape lies within `0..4` in both directions.
pub proof fn lemma_minos_small(t: Tetromino, o: Orientation)
    ensures
        shape_minos(t, o).len() == 4,
        forall|i: int|
            #![trigger shape_minos(t, o)[i]]
            0 <= i < 4 ==> shape_minos(t, o)[i].0 <= 3 && shape_minos(t, o)[i].1 <= 3,
{
}

/// Every tile offset of a shape is non-negative.
pub proof fn lemma_minos_nonneg(t: Tetromino, o: Orientation)
    ensures
        forall|i: int|
            #![trigger shape_minos(t, o)[i]]
            0 <= i < 4 ==> shape_minos(t, o)[i].0 >= 0 && shape_minos(t, o)[i].1 >= 0,
{
}

/// Adds an offset to a board coordinate, failing if the result is out of bounds
/// (negative or positive overflow in either direction).
pub fn add(c: Coord, o: Offset) -> (r: Option<Coord>)
    ensures
        r == add_spec(c, o),
{
    let x = c.0.checked_add_signed(o.0);
    let y = c.1.checked_add_signed(o.1);
    match (x, y) {
        (Some(x), Some(y)) => Some((x, y)),
        _ => None,
    }
}

/// Whether a single grid cell is within bounds and empty.
fn cell_is_free(board: &Board, x: usize, y: usize) -> (r: bool)
    ensures
        r == cell_free(board@, x as int, y as int),
{
    if x < WIDTH && y < HEIGHT && y < board.len() {
        board[y][x].is_none()
    } else {
        false
    }
}

/// Whether two pieces are the same shape, orientation and position.
pub fn same_piece(a: &ActivePiece, b: &ActivePiece) -> (r: bool)
    ensures
        r == (*a == *b),
{
    a.shape == b.shape && a.orientation == b.orientation && a.position.0 == b.position.0
        && a.position.1 == b.position.1
}

impl ActivePiece {
    /// Returns the coordinates and tile types for the piece on the board.
    pub fn tiles(&self) -> (r: [(Coord, TileTypeID); 4])
        requires
            self.position.0 + 3 <= usize::MAX,
            self.position.1 + 3 <= usize::MAX,
        ensures
            forall|i: int|
                #![trigger r@[i]]
                0 <= i < 4 ==> r@[i] == ((
                    (self.position.0 + shape_minos(self.shape, self.orientation)[i].0) as usize,
                    (self.position.1 + shape_minos(self.shape, self.orientation)[i].1) as usize,
                ), tile_type_of(self.shape)),
    {
        let (x, y) = self.position;
        let id = self.shape.tiletypeid();
        let m = self.shape.minos(self.orientation);
        proof {
            lemma_minos_small(self.shape, self.orientation);
        }
        let r = [
            ((x + m[0].0, y + m[0].1), id),
            ((x + m[1].0, y + m[1].1), id),
            ((x + m[2].0, y + m[2].1), id),
            ((x + m[3].0, y + m[3].1), id),
        ];
        assert forall|i: int| #![trigger r@[i]] 0 <= i < 4 implies r@[i] == ((
            (self.position.0 + shape_minos(self.shape, self.orientation)[i].0) as usize,
            (self.position.1 + shape_minos(self.shape, self.orientation)[i].1) as usize,
        ), tile_type_of(self.shape)) by {
            if i == 0 {
            } else if i == 1 {
            } else if i == 2 {
            } else {
            }
        }
        r
    }

    /// Checks whether the piece fits at its current location onto the board.
    pub fn fits(&self, board: &Board) -> (r: bool)
        ensures
            r == piece_fits(board@, *self),
    {
        let (x, y) = self.position;
        let m = self.shape.minos(self.orientation);
        proof {
            lemma_minos_small(self.shape, self.orientation);
        }
        if x >= WIDTH || y >= HEIGHT {
            assert(!cell_free(board@, x + shape_minos(self.shape, self.orientation)[0].0,
                y + shape_minos(self.shape, self.orientation)[0].1));
            return false;
        }
        let r = cell_is_free(board, x + m[0].0, y + m[0].1) && cell_is_free(
            board,
            x + m[1].0,
            y + m[1].1,
        ) && cell_is_free(board, x + m[2].0, y + m[2].1) && cell_is_free(
            board,
            x + m[3].0,
            y + m[3].1,
        );
        proof {
            let ms = shape_minos(self.shape, self.orientation);
            if r {
                assert forall|i: int| #![trigger ms[i]] 0 <= i < 4 implies cell_free(
                    board@,
                    x + ms[i].0,
                    y + ms[i].1,
                ) by {
                    if i == 0 {
                    } else if i == 1 {
                    } else if i == 2 {
                    } else {
                    }
                }
            } else {
                assert(!cell_free(board@, x + ms[0].0, y + ms[0].1) || !cell_free(
                    board@,
                    x + ms[1].0,
                    y + ms[1].1,
                ) || !cell_free(board@, x + ms[2].0, y + ms[2].1) || !cell_free(
                    board@,
                    x + ms[3].0,
                    y + ms[3].1,
                ));
            }
        }
        r
    }

    /// Checks whether the piece fits a given offset from its current location onto the board.
    pub fn fits_at(&self, board: &Board, offset: Offset) -> (r: Option<ActivePiece>)
        ensures
            r == fits_at_spec(board@, *self, offset),
    {
        match self::add(self.position, offset) {
            Some(pos) => {
                let new_piece = ActivePiece { position: pos, ..*self };
                if new_piece.fits(board) {
                    Some(new_piece)
                } else {
                    None
                }
            },
            None => None,
        }
    }

    /// Checks whether the piece fits a given offset from its current location onto the board,
    /// with its rotation changed by some number of right turns.
    pub fn fits_at_rotated(&self, board: &Board, offset: Offset, right_turns: i32) -> (r: Option<
        ActivePiece,
    >)
        requires
            orientation_index(self.orientation) + right_turns <= i32::MAX,
        ensures
            r == fits_at_spec(
                board@,
                ActivePiece {
                    orientation: orientation_from_turns(
                        orientation_index(self.orientation) + right_turns,
                    ),
                    ..*self
                },
                offset,
            ),
    {
        let rotated = ActivePiece { orientation: self.orientation.rotate_r(right_turns), ..*self };
        rotated.fits_at(board, offset)
    }

    /// Given some offsets, returns the rotated piece moved by the first offset at which it fits
    /// onto the board.
    pub fn first_fit(&self, board: &Board, offsets: &[Offset], right_turns: i32) -> (r: Option<
        ActivePiece,
    >)
        requires
            orientation_index(self.orientation) + right_turns <= i32::MAX,
        ensures
            r == first_fit_spec(
                board@,
                ActivePiece {
                    orientation: orientation_from_turns(
                        orientation_index(self.orientation) + right_turns,
                    ),
                    ..*self
                },
                offsets@,
            ),
    {
        let rotated = ActivePiece { orientation: self.orientation.rotate_r(right_turns), ..*self };
        let ghost target = first_fit_spec(board@, rotated, offsets@);
        assert(offsets@.skip(0) =~= offsets@);
        let mut i: usize = 0;
        while i < offsets.len()
            invariant
                0 <= i <= offsets@.len(),
                target == first_fit_spec(board@, rotated, offsets@.skip(i as int)),
                target == first_fit_spec(board@, rotated, offsets@),
                rotated == (ActivePiece {
                    orientation: orientation_from_turns(
                        orientation_index(self.orientation) + right_turns,
                    ),
                    ..*self
                }),
            decreases offsets@.len() - i,
        {
            assert(offsets@.skip(i as int).first() == offsets@[i as int]);
            assert(offsets@.skip(i as int).drop_first() =~= offsets@.skip(i + 1));
            let fit = rotated.fits_at(board, offsets[i]);
            assert(first_fit_spec(board@, rotated, offsets@.skip(i as int)) == match fit {
                Some(q) => Some(q),
                None => first_fit_spec(board@, rotated, offsets@.skip(i + 1)),
            });
            if let Some(p) = fit {
                return Some(p);
            }
            i += 1;
        }
        None
    }

    /// Returns the lowest position the piece can reach if dropped straight down.
    pub fn well_piece(&self, board: &Board) -> (r: ActivePiece)
        ensures
            r == well_spec(board@, *self),
        decreases self.position.1,
    {
        match self.fits_at(board, (0, -1)) {
            Some(below) => below.well_piece(board),
            None => *self,
        }
    }
}

/// The rotated piece moved by the first offset of `offsets` at which it fits onto the board.
pub open spec fn first_fit_spec(board: Seq<Line>, p: ActivePiece, offsets: Seq<Offset>) -> Option<
    ActivePiece,
>
    decreases offsets.len(),
{
    if offsets.len() == 0 {
        None
    } else {
        match fits_at_spec(board, p, offsets.first()) {
            Some(q) => Some(q),
            None => first_fit_spec(board, p, offsets.drop_first()),
        }
    }
}

/// The piece dropped straight down until the cell below one of its tiles is taken.
pub open spec fn well_spec(board: Seq<Line>, p: ActivePiece) -> ActivePiece
    decreases p.position.1,
{
    match fits_at_spec(board, p, (0isize, -1isize)) {
        Some(q) => if q.position.1 < p.position.1 {
            well_spec(board, q)
        } else {
            p
        },
        None => p,
    }
}


/// A piece returned by a fit search lies on free cells.
pub proof fn lemma_first_fit_fits(board: Seq<Line>, p: ActivePiece, offsets: Seq<Offset>)
    ensures
        first_fit_spec(board, p, offsets) matches Some(q) ==> piece_fits(board, q),
    decreases offsets.len(),
{
    if offsets.len() > 0 {
        lemma_first_fit_fits(board, p, offsets.drop_first());
    }
}

/// Dropping a piece that fits straight down gives a piece that fits and lies on the ground.
pub proof fn lemma_well_fits(board: Seq<Line>, p: ActivePiece)
    requires
        piece_fits(board, p),
    ensures
        piece_fits(board, well_spec(board, p)),
        fits_at_spec(board, well_spec(board, p), (0isize, -1isize)) is None,
        well_spec(board, p).shape == p.shape,
        well_spec(board, p).orientation == p.orientation,
        well_spec(board, p).position.0 == p.position.0,
        well_spec(board, p).position.1 <= p.position.1,
    decreases p.position.1,
{
    match fits_at_spec(board, p, (0isize, -1isize)) {
        Some(q) => {
            lemma_well_fits(board, q);
        },
        None => {},
    }
}

} // verus!
