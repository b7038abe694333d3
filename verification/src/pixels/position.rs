//! Positions of pixels: free positions anywhere on the plane, and strict
//! positions proven to lie inside an `H` by `W` canvas.

use vstd::prelude::*;

verus! {

/// What any free position offers: a row and a column.
pub trait PixelPositionInterface: Sized {
    /// The row, as a mathematical value.
    spec fn spec_row(&self) -> int;

    /// The column, as a mathematical value.
    spec fn spec_column(&self) -> int;

    /// Row number of the position, starting from 0.
    fn row(&self) -> (r: usize)
        ensures
            r as int == self.spec_row(),
    ;

    /// Column number of the position, starting from 0.
    fn column(&self) -> (r: usize)
        ensures
            r as int == self.spec_column(),
    ;

    /// Both coordinates as a `(row, column)` pair.
    fn expand(&self) -> (r: (usize, usize))
        ensures
            r.0 as int == self.spec_row(),
            r.1 as int == self.spec_column(),
    {
        (self.row(), self.column())
    }
}

/// An unconstrained position: any row and column.
#[derive(Clone, Copy, PartialEq, Eq, Structural, Debug)]
pub struct PixelPosition {
    pub row: usize,
    pub column: usize,
}

impl PixelPosition {
    /// A position from its coordinates.
    pub fn new(row: usize, column: usize) -> (p: Self)
        ensures
            p == (PixelPosition { row, column }),
    {
        PixelPosition { row, column }
    }

    /// The position `amount` rows above, stopping at row 0.
    pub fn up(&self, amount: usize) -> (p: PixelPosition)
        ensures
            p.column == self.column,
            p.row == if amount <= self.row {
                (self.row - amount) as usize
            } else {
                0usize
            },
    {
        PixelPosition {
            row: if amount <= self.row {
                self.row - amount
            } else {
                0
            },
            column: self.column,
        }
    }

    /// The position `amount` columns to the left, stopping at column 0.
    pub fn left(&self, amount: usize) -> (p: PixelPosition)
        ensures
            p.row == self.row,
            p.column == if amount <= self.column {
                (self.column - amount) as usize
            } else {
                0usize
            },
    {
        PixelPosition {
            row: self.row,
            column: if amount <= self.column {
                self.column - amount
            } else {
                0
            },
        }
    }

    /// The position `amount` rows below, stopping at the largest row.
    pub fn down(&self, amount: usize) -> (p: PixelPosition)
        ensures
            p.column == self.column,
            p.row == if self.row + amount <= usize::MAX {
                (self.row + amount) as usize
            } else {
                usize::MAX
            },
    {
        PixelPosition { row: self.row.saturating_add(amount), column: self.column }
    }

    /// The position `amount` columns to the right, stopping at the largest
    /// column.
    pub fn right(&self, amount: usize) -> (p: PixelPosition)
        ensures
            p.row == self.row,
            p.column == if self.column + amount <= usize::MAX {
                (self.column + amount) as usize
            } else {
                usize::MAX
            },
    {
        PixelPosition { row: self.row, column: self.column.saturating_add(amount) }
    }

    /// The position `amount` steps towards `dir`, stopping at the borders of
    /// the index space; a diagonal direction moves on both axes.
    pub fn direction(&self, dir: Direction, amount: usize) -> (p: PixelPosition)
        ensures
            p == self.spec_direction(dir, amount),
    {
        match dir {
            Direction::Up => self.up(amount),
            Direction::Right => self.right(amount),
            Direction::Down => self.down(amount),
            Direction::Left => self.left(amount),
            Direction::UpRight => self.up(amount).right(amount),
            Direction::DownRight => self.down(amount).right(amount),
            Direction::DownLeft => self.down(amount).left(amount),
            Direction::UpLeft => self.up(amount).left(amount),
        }
    }

    /// The row `amount` steps towards `dir` leads to.
    pub open spec fn spec_direction(&self, dir: Direction, amount: usize) -> PixelPosition {
        let up_row: usize = if amount <= self.row {
            (self.row - amount) as usize
        } else {
            0usize
        };
        let down_row: usize = if self.row + amount <= usize::MAX {
            (self.row + amount) as usize
        } else {
            usize::MAX
        };
        let left_col: usize = if amount <= self.column {
            (self.column - amount) as usize
        } else {
            0usize
        };
        let right_col: usize = if self.column + amount <= usize::MAX {
            (self.column + amount) as usize
        } else {
            usize::MAX
        };
        match dir {
            Direction::Up => PixelPosition { row: up_row, column: self.column },
            Direction::Right => PixelPosition { row: self.row, column: right_col },
            Direction::Down => PixelPosition { row: down_row, column: self.column },
            Direction::Left => PixelPosition { row: self.row, column: left_col },
            Direction::UpRight => PixelPosition { row: up_row, column: right_col },
            Direction::DownRight => PixelPosition { row: down_row, column: right_col },
            Direction::DownLeft => PixelPosition { row: down_row, column: left_col },
            Direction::UpLeft => PixelPosition { row: up_row, column: left_col },
        }
    }

}

impl PixelPositionInterface for PixelPosition {
    open spec fn spec_row(&self) -> int {
        self.row as int
    }

    open spec fn spec_column(&self) -> int {
        self.column as int
    }

    fn row(&self) -> (r: usize) {
        self.row
    }

    fn column(&self) -> (r: usize) {
        self.column
    }
}

/// Why a pair of coordinates is not a valid strict position: which of the
/// two coordinates (or both) reaches its bound.
#[derive(Clone, Copy, PartialEq, Eq, Debug)]
pub enum PixelPositionOutOfBoundError<const H: usize, const W: usize> {
    /// The row is at least `H` while the column is in bounds.
    InvalidRow(PixelPosition),
    /// The column is at least `W` while the row is in bounds.
    InvalidColumn(PixelPosition),
    /// Both coordinates are out of bounds.
    InvalidBoth(PixelPosition),
}

impl<const H: usize, const W: usize> PixelPositionOutOfBoundError<H, W> {
    /// The exact verdict `validate_position` returns for given coordinates.
    pub open spec fn spec_validate(row: usize, column: usize) -> Result<PixelStrictPosition<H, W>, PixelPositionOutOfBoundError<H, W>> {
        if row < H && column < W {
            Ok(PixelStrictPosition { raw: PixelPosition { row, column } })
        } else if row >= H && column < W {
            Err(PixelPositionOutOfBoundError::InvalidRow(PixelPosition { row, column }))
        } else if row < H && column >= W {
            Err(PixelPositionOutOfBoundError::InvalidColumn(PixelPosition { row, column }))
        } else {
            Err(PixelPositionOutOfBoundError::InvalidBoth(PixelPosition { row, column }))
        }
    }

    /// Checks a pair of coordinates against the bounds: `Ok` exactly when
    /// both are strictly inside, and otherwise the error naming the
    /// offending coordinate(s).
    pub fn validate_position(row: usize, column: usize) -> (r: Result<PixelStrictPosition<H, W>, PixelPositionOutOfBoundError<H, W>>)
        ensures
            r == Self::spec_validate(row, column),
            (r is Ok) == (row < H && column < W),
    {
        let raw_position = PixelPosition { row, column };
        if row < H && column < W {
            Ok(PixelStrictPosition { raw: raw_position })
        } else if row >= H && column < W {
            Err(PixelPositionOutOfBoundError::InvalidRow(raw_position))
        } else if row < H && column >= W {
            Err(PixelPositionOutOfBoundError::InvalidColumn(raw_position))
        } else {
            Err(PixelPositionOutOfBoundError::InvalidBoth(raw_position))
        }
    }

    /// The coordinates carried by this error.
    pub open spec fn spec_position(&self) -> PixelPosition {
        match *self {
            PixelPositionOutOfBoundError::InvalidRow(p) => p,
            PixelPositionOutOfBoundError::InvalidColumn(p) => p,
            PixelPositionOutOfBoundError::InvalidBoth(p) => p,
        }
    }

    /// Adjusts the invalid position to a valid one by reducing the offending
    /// coordinate(s) to the largest allowed value.
    pub fn adjust(&self) -> (r: PixelStrictPosition<H, W>)
        requires
            H >= 1,
            W >= 1,
            match *self {
                PixelPositionOutOfBoundError::InvalidRow(p) => p.column < W,
                PixelPositionOutOfBoundError::InvalidColumn(p) => p.row < H,
                PixelPositionOutOfBoundError::InvalidBoth(_) => true,
            },
        ensures
            r.wf(),
            r.raw == match *self {
                PixelPositionOutOfBoundError::InvalidRow(p) => PixelPosition {
                    row: (H - 1) as usize,
                    column: p.column,
                },
                PixelPositionOutOfBoundError::InvalidColumn(p) => PixelPosition {
                    row: p.row,
                    column: (W - 1) as usize,
                },
                PixelPositionOutOfBoundError::InvalidBoth(_) => PixelPosition {
                    row: (H - 1) as usize,
                    column: (W - 1) as usize,
                },
            },
    {
        match self {
            PixelPositionOutOfBoundError::InvalidRow(position) => PixelStrictPosition {
                raw: PixelPosition { row: H - 1, column: position.column },
            },
            PixelPositionOutOfBoundError::InvalidColumn(position) => PixelStrictPosition {
                raw: PixelPosition { row: position.row, column: W - 1 },
            },
            PixelPositionOutOfBoundError::InvalidBoth(_) => PixelStrictPosition {
                raw: PixelPosition { row: H - 1, column: W - 1 },
            },
        }
    }
}

/// A position proven to lie strictly inside an `H` by `W` canvas.
#[derive(Clone, Copy, PartialEq, Eq, Debug)]
pub struct PixelStrictPosition<const H: usize, const W: usize> {
    pub raw: PixelPosition,
}

impl<const H: usize, const W: usize> PixelStrictPosition<H, W> {
    /// Both coordinates are inside the bounds.
    pub open spec fn wf(&self) -> bool {
        self.raw.row < H && self.raw.column < W
    }

    /// A strict position from coordinates; an error exactly when either is
    /// out of bounds.
    pub fn new(row: usize, column: usize) -> (r: Result<Self, PixelPositionOutOfBoundError<H, W>>)
        ensures
            r == PixelPositionOutOfBoundError::<H, W>::spec_validate(row, column),
            (r is Ok) == (row < H && column < W),
            r matches Ok(p) ==> p.wf() && p.raw == (PixelPosition { row, column }),
    {
        PixelPositionOutOfBoundError::validate_position(row, column)
    }

    /// This position without its bounds.
    pub fn unbound(&self) -> (p: PixelPosition)
        ensures
            p == self.raw,
    {
        self.raw
    }

    /// The strict position `amount` steps towards `dir`, if it stays inside
    /// the bounds.
    pub fn checked_direction(&self, dir: Direction, amount: usize) -> (r: Result<
        PixelStrictPosition<H, W>,
        PixelPositionOutOfBoundError<H, W>,
    >)
        ensures
            ({
                let moved = self.raw.spec_direction(dir, amount);
                r == PixelPositionOutOfBoundError::<H, W>::spec_validate(moved.row, moved.column)
            }),
    {
        let moved = self.raw.direction(dir, amount);
        PixelPositionOutOfBoundError::<H, W>::validate_position(moved.row, moved.column)
    }

    /// The strict position `amount` steps up, if possible.
    pub fn checked_up(&self, amount: usize) -> (r: Result<PixelStrictPosition<H, W>, PixelPositionOutOfBoundError<H, W>>)
        ensures
            ({
                let moved = self.raw.spec_direction(Direction::Up, amount);
                r == PixelPositionOutOfBoundError::<H, W>::spec_validate(moved.row, moved.column)
            }),
    {
        self.checked_direction(Direction::Up, amount)
    }

    /// The strict position `amount` steps left, if possible.
    pub fn checked_left(&self, amount: usize) -> (r: Result<PixelStrictPosition<H, W>, PixelPositionOutOfBoundError<H, W>>)
        ensures
            ({
                let moved = self.raw.spec_direction(Direction::Left, amount);
                r == PixelPositionOutOfBoundError::<H, W>::spec_validate(moved.row, moved.column)
            }),
    {
        self.checked_direction(Direction::Left, amount)
    }

    /// The strict position `amount` steps down, if possible.
    pub fn checked_down(&self, amount: usize) -> (r: Result<PixelStrictPosition<H, W>, PixelPositionOutOfBoundError<H, W>>)
        ensures
            ({
                let moved = self.raw.spec_direction(Direction::Down, amount);
                r == PixelPositionOutOfBoundError::<H, W>::spec_validate(moved.row, moved.column)
            }),
    {
        self.checked_direction(Direction::Down, amount)
    }

    /// The strict position `amount` steps right, if possible.
    pub fn checked_right(&self, amount: usize) -> (r: Result<PixelStrictPosition<H, W>, PixelPositionOutOfBoundError<H, W>>)
        ensures
            ({
                let moved = self.raw.spec_direction(Direction::Right, amount);
                r == PixelPositionOutOfBoundError::<H, W>::spec_validate(moved.row, moved.column)
            }),
    {
        self.checked_direction(Direction::Right, amount)
    }

    /// The strict position `amount` steps towards `dir`, clamped to the last
    /// valid row and column.
    pub fn bounding_direction(&self, dir: Direction, amount: usize) -> (r: PixelStrictPosition<
        H,
        W,
    >)
        requires
            self.wf(),
        ensures
            r.wf(),
            ({
                let moved = self.raw.spec_direction(dir, amount);
                r.raw == (PixelPosition {
                    row: if moved.row < H {
                        moved.row
                    } else {
                        (H - 1) as usize
                    },
                    column: if moved.column < W {
                        moved.column
                    } else {
                        (W - 1) as usize
                    },
                })
            }),
    {
        let moved = self.raw.direction(dir, amount);
        let row = if moved.row < H {
            moved.row
        } else {
            H - 1
        };
        let column = if moved.column < W {
            moved.column
        } else {
            W - 1
        };
        PixelStrictPosition { raw: PixelPosition { row, column } }
    }

    /// The strict position `amount` steps up, clamped at row 0.
    pub fn bounding_up(&self, amount: usize) -> (r: PixelStrictPosition<H, W>)
        requires
            self.wf(),
        ensures
            r.wf(),
            r.raw == self.raw.spec_direction(Direction::Up, amount),
    {
        self.bounding_direction(Direction::Up, amount)
    }

    /// The strict position `amount` steps left, clamped at column 0.
    pub fn bounding_left(&self, amount: usize) -> (r: PixelStrictPosition<H, W>)
        requires
            self.wf(),
        ensures
            r.wf(),
            r.raw == self.raw.spec_direction(Direction::Left, amount),
    {
        self.bounding_direction(Direction::Left, amount)
    }

    /// The strict position `amount` steps down, clamped at the last row.
    pub fn bounding_down(&self, amount: usize) -> (r: PixelStrictPosition<H, W>)
        requires
            self.wf(),
        ensures
            r.wf(),
            ({
                let moved = self.raw.spec_direction(Direction::Down, amount);
                r.raw == (PixelPosition {
                    row: if moved.row < H {
                        moved.row
                    } else {
                        (H - 1) as usize
                    },
                    column: self.raw.column,
                })
            }),
    {
        self.bounding_direction(Direction::Down, amount)
    }

    /// The strict position `amount` steps right, clamped at the last column.
    pub fn bounding_right(&self, amount: usize) -> (r: PixelStrictPosition<H, W>)
        requires
            self.wf(),
        ensures
            r.wf(),
            ({
                let moved = self.raw.spec_direction(Direction::Right, amount);
                r.raw == (PixelPosition {
                    row: self.raw.row,
                    column: if moved.column < W {
                        moved.column
                    } else {
                        (W - 1) as usize
                    },
                })
            }),
    {
        self.bounding_direction(Direction::Right, amount)
    }

    /// The next strict position in row-major order, or `None` at the bottom
    /// right corner.
    pub fn next(&mut self) -> (r: Option<PixelStrictPosition<H, W>>)
        requires
            old(self).wf(),
        ensures
            final(self).wf(),
            ({
                let row = old(self).raw.row;
                let column = old(self).raw.column;
                if column + 1 < W {
                    r == Some(
                        PixelStrictPosition::<H, W> {
                            raw: PixelPosition { row, column: (column + 1) as usize },
                        },
                    ) && final(self).raw == (PixelPosition { row, column: (column + 1) as usize })
                } else if row + 1 < H {
                    r == Some(
                        PixelStrictPosition::<H, W> {
                            raw: PixelPosition { row: (row + 1) as usize, column: 0usize },
                        },
                    ) && final(self).raw == (PixelPosition { row: (row + 1) as usize, column: 0usize })
                } else {
                    r is None && final(self).raw == old(self).raw
                }
            }),
    {
        let row = self.raw.row;
        let column = self.raw.column;
        if column + 1 < W {
            let p = PixelStrictPosition { raw: PixelPosition { row, column: column + 1 } };
            *self = p;
            Some(p)
        } else if row + 1 < H {
            let p = PixelStrictPosition { raw: PixelPosition { row: row + 1, column: 0 } };
            *self = p;
            Some(p)
        } else {
            None
        }
    }
}

impl<const H: usize, const W: usize> PixelStrictPositionInterface<H, W> for PixelStrictPosition<
    H,
    W,
> {
    open spec fn strict_row(&self) -> int {
        self.raw.row as int
    }

    open spec fn strict_column(&self) -> int {
        self.raw.column as int
    }

    open spec fn strict_wf(&self) -> bool {
        self.wf()
    }

    proof fn in_bounds(&self) {
    }

    fn row(&self) -> (r: usize) {
        self.raw.row
    }

    fn column(&self) -> (r: usize) {
        self.raw.column
    }

    fn expand(&self) -> (r: (usize, usize)) {
        (self.raw.row, self.raw.column)
    }
}

/// What any bounded position offers: in-bounds coordinates.
pub trait PixelStrictPositionInterface<const H: usize, const W: usize>: Sized {
    /// The row, as a mathematical value.
    spec fn strict_row(&self) -> int;

    /// The column, as a mathematical value.
    spec fn strict_column(&self) -> int;

    /// When the coordinates are actually inside the bounds.
    spec fn strict_wf(&self) -> bool;

    /// A well-formed bounded position lies inside the bounds.
    proof fn in_bounds(&self)
        requires
            self.strict_wf(),
        ensures
            0 <= self.strict_row() < H,
            0 <= self.strict_column() < W,
    ;

    /// Row number of the position, starting from 0.
    fn row(&self) -> (r: usize)
        requires
            self.strict_wf(),
        ensures
            r as int == self.strict_row(),
    ;

    /// Column number of the position, starting from 0.
    fn column(&self) -> (r: usize)
        requires
            self.strict_wf(),
        ensures
            r as int == self.strict_column(),
    ;

    /// Both coordinates as a `(row, column)` pair.
    fn expand(&self) -> (r: (usize, usize))
        requires
            self.strict_wf(),
        ensures
            r.0 as int == self.strict_row(),
            r.1 as int == self.strict_column(),
    ;
}

/// Conversion into a strict position inside an `H` by `W` canvas.
pub trait IntoPixelStrictPosition<const H: usize, const W: usize>: Sized {
    /// The row the conversion lands on.
    spec fn into_row(&self) -> int;

    /// The column the conversion lands on.
    spec fn into_column(&self) -> int;

    /// When the conversion is allowed.
    spec fn into_wf(&self) -> bool;

    /// Converts into the strict position.
    fn into_pixel_strict_position(self) -> (p: PixelStrictPosition<H, W>)
        requires
            self.into_wf(),
        ensures
            p.wf(),
            p.raw.row as int == self.into_row(),
            p.raw.column as int == self.into_column(),
    ;
}

impl<const H: usize, const W: usize, T: PixelStrictPositionInterface<H, W>> IntoPixelStrictPosition<
    H,
    W,
> for T {
    open spec fn into_row(&self) -> int {
        self.strict_row()
    }

    open spec fn into_column(&self) -> int {
        self.strict_column()
    }

    open spec fn into_wf(&self) -> bool {
        self.strict_wf()
    }

    fn into_pixel_strict_position(self) -> (p: PixelStrictPosition<H, W>) {
        proof {
            self.in_bounds();
        }
        let (row, column) = self.expand();
        PixelStrictPosition { raw: PixelPosition { row, column } }
    }
}

impl<const H: usize, const W: usize> PixelStrictPositionInterface<H, W> for (usize, usize) {
    open spec fn strict_row(&self) -> int {
        self.0 as int
    }

    open spec fn strict_column(&self) -> int {
        self.1 as int
    }

    open spec fn strict_wf(&self) -> bool {
        self.0 < H && self.1 < W
    }

    proof fn in_bounds(&self) {
    }

    fn row(&self) -> (r: usize) {
        self.0
    }

    fn column(&self) -> (r: usize) {
        self.1
    }

    fn expand(&self) -> (r: (usize, usize)) {
        (self.0, self.1)
    }
}

/// A set of common useful strict positions inside the canvas square, from the
/// top left corner to the bottom right one.
#[derive(Clone, Copy, PartialEq, Eq, Structural, Debug)]
pub enum StrictPositions {
    /// The most top left cell, `(0, 0)`.
    TopLeft,
    /// The most top right cell, `(0, W - 1)`.
    TopRight,
    /// The most bottom right cell, `(H - 1, W - 1)`.
    BottomRight,
    /// The most bottom left cell, `(H - 1, 0)`.
    BottomLeft,
    /// The center of the square, `(H / 2, W / 2)`.
    Center,
    /// The center of the top row, `(0, W / 2)`.
    TopCenter,
    /// The center of the most right column, `(H / 2, W - 1)`.
    RightCenter,
    /// The center of the bottom row, `(H - 1, W / 2)`.
    BottomCenter,
    /// The center of the most left column, `(H / 2, 0)`.
    LeftCenter,
}

impl<const H: usize, const W: usize> PixelStrictPositionInterface<H, W> for StrictPositions {
    open spec fn strict_row(&self) -> int {
        match *self {
            StrictPositions::TopLeft => 0,
            StrictPositions::TopRight => 0,
            StrictPositions::BottomRight => H as int - 1,
            StrictPositions::BottomLeft => H as int - 1,
            StrictPositions::Center => H as int / 2,
            StrictPositions::TopCenter => 0,
            StrictPositions::RightCenter => H as int / 2,
            StrictPositions::BottomCenter => H as int - 1,
            StrictPositions::LeftCenter => H as int / 2,
        }
    }

    open spec fn strict_column(&self) -> int {
        match *self {
            StrictPositions::TopLeft => 0,
            StrictPositions::TopRight => W as int - 1,
            StrictPositions::BottomRight => W as int - 1,
            StrictPositions::BottomLeft => 0,
            StrictPositions::Center => W as int / 2,
            StrictPositions::TopCenter => W as int / 2,
            StrictPositions::RightCenter => W as int - 1,
            StrictPositions::BottomCenter => W as int / 2,
            StrictPositions::LeftCenter => 0,
        }
    }

    open spec fn strict_wf(&self) -> bool {
        H >= 1 && W >= 1
    }

    proof fn in_bounds(&self) {
    }

    fn row(&self) -> (r: usize) {
        match *self {
            StrictPositions::TopLeft => 0,
            StrictPositions::TopRight => 0,
            StrictPositions::BottomRight => H - 1,
            StrictPositions::BottomLeft => H - 1,
            StrictPositions::Center => H / 2,
            StrictPositions::TopCenter => 0,
            StrictPositions::RightCenter => H / 2,
            StrictPositions::BottomCenter => H - 1,
            StrictPositions::LeftCenter => H / 2,
        }
    }

    fn column(&self) -> (r: usize) {
        match *self {
            StrictPositions::TopLeft => 0,
            StrictPositions::TopRight => W - 1,
            StrictPositions::BottomRight => W - 1,
            StrictPositions::BottomLeft => 0,
            StrictPositions::Center => W / 2,
            StrictPositions::TopCenter => W / 2,
            StrictPositions::RightCenter => W - 1,
            StrictPositions::BottomCenter => W / 2,
            StrictPositions::LeftCenter => 0,
        }
    }

    fn expand(&self) -> (r: (usize, usize)) {
        (
            <Self as PixelStrictPositionInterface<H, W>>::row(self),
            <Self as PixelStrictPositionInterface<H, W>>::column(self),
        )
    }
}

/// A movement direction on the canvas; the four main directions cycle among
/// themselves, as do the four diagonals.
#[derive(Clone, Copy, PartialEq, Eq, Structural, Debug)]
pub enum Direction {
    /// Going up.
    Up,
    /// Going right.
    Right,
    /// Going down.
    Down,
    /// Going left.
    Left,
    /// Going up and right.
    UpRight,
    /// Going down and right.
    DownRight,
    /// Going down and left.
    DownLeft,
    /// Going up and left.
    UpLeft,
}

impl Direction {
    /// The direction a quarter turn clockwise from this one, within its own
    /// cycle of four.
    pub open spec fn spec_next(self) -> Direction {
        match self {
            Direction::Up => Direction::Right,
            Direction::Right => Direction::Down,
            Direction::Down => Direction::Left,
            Direction::Left => Direction::Up,
            Direction::UpRight => Direction::DownRight,
            Direction::DownRight => Direction::DownLeft,
            Direction::DownLeft => Direction::UpLeft,
            Direction::UpLeft => Direction::UpRight,
        }
    }

    /// Turns to the next direction of the cycle, returning it.
    pub fn next(&mut self) -> (r: Option<Direction>)
        ensures
            *final(self) == old(self).spec_next(),
            r == Some(old(self).spec_next()),
    {
        let n = match *self {
            Direction::Up => Direction::Right,
            Direction::Right => Direction::Down,
            Direction::Down => Direction::Left,
            Direction::Left => Direction::Up,
            Direction::UpRight => Direction::DownRight,
            Direction::DownRight => Direction::DownLeft,
            Direction::DownLeft => Direction::UpLeft,
            Direction::UpLeft => Direction::UpRight,
        };
        *self = n;
        Some(n)
    }
}

/// One full cycle over the four directions of a class, starting from a chosen
/// one and stopping right before it comes round again.
pub struct SingleCycle {
    pub initial_dir: Direction,
    pub current: Option<Direction>,
}

impl SingleCycle {
    /// A cycle starting at `initial_dir`.
    pub fn new(initial_dir: Direction) -> (r: Self)
        ensures
            r.initial_dir == initial_dir,
            r.current is None,
    {
        SingleCycle { initial_dir, current: None }
    }

    /// The next direction of the cycle, or `None` once it came round.
    pub fn next(&mut self) -> (r: Option<Direction>)
        ensures
            final(self).initial_dir == old(self).initial_dir,
            match old(self).current {
                None => r == Some(old(self).initial_dir) && final(self).current == Some(
                    old(self).initial_dir,
                ),
                Some(current) => {
                    if current.spec_next() == old(self).initial_dir {
                        r is None && final(self).current == old(self).current
                    } else {
                        r == Some(current.spec_next()) && final(self).current == Some(
                            current.spec_next(),
                        )
                    }
                },
            },
    {
        match self.current {
            Some(mut current) => {
                let next = match current.next() {
                    Some(d) => d,
                    None => {
                        proof {
                            assert(false);
                        }
                        unreached()
                    },
                };
                if next == self.initial_dir {
                    return None;
                }
                self.current = Some(next);
                self.current
            },
            None => {
                self.current = Some(self.initial_dir);
                Some(self.initial_dir)
            },
        }
    }
}

} // verus!
