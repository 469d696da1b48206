use vstd::prelude::*;
use std::ops::{Add, AddAssign, Sub, SubAssign};

verus! {

/// A position of a pixel: a row and a column, counted from the top left corner.
#[derive(Clone, Copy, Debug, PartialEq, Eq, Structural)]
pub struct PixelPos {
    pub col: usize,
    pub row: usize,
}

/// The spec-level constructor, row first as in `PixelPos::new`.
pub open spec fn pos(row: int, col: int) -> PixelPos {
    PixelPos { row: row as usize, col: col as usize }
}

impl PixelPos {
    pub fn new(row: usize, col: usize) -> (r: Self)
        ensures
            r.row == row,
            r.col == col,
    {
        PixelPos { row, col }
    }

    pub fn one() -> (r: Self)
        ensures
            r.row == 1,
            r.col == 1,
    {
        PixelPos { col: 1, row: 1 }
    }

    pub fn row_vec(&self) -> (r: Self)
        ensures
            r.row == self.row,
            r.col == 0,
    {
        PixelPos::new(self.row, 0)
    }

    pub fn col_vec(&self) -> (r: Self)
        ensures
            r.row == 0,
            r.col == self.col,
    {
        PixelPos::new(0, self.col)
    }

    pub fn with_row(&self, row: usize) -> (r: Self)
        ensures
            r.row == row,
            r.col == self.col,
    {
        PixelPos::new(row, self.col)
    }

    pub fn with_col(&self, col: usize) -> (r: Self)
        ensures
            r.row == self.row,
            r.col == col,
    {
        PixelPos::new(self.row, col)
    }

    pub fn lefter(&self) -> (r: Self)
        requires
            self.col > 0,
        ensures
            r.row == self.row,
            r.col == self.col - 1,
    {
        PixelPos::new(self.row, self.col - 1)
    }

    pub fn upper_lefter(&self) -> (r: Self)
        requires
            self.col > 0,
            self.row > 0,
        ensures
            r.row == self.row - 1,
            r.col == self.col - 1,
    {
        PixelPos::new(self.row - 1, self.col - 1)
    }

    pub fn upper(&self) -> (r: Self)
        requires
            self.row > 0,
        ensures
            r.row == self.row - 1,
            r.col == self.col,
    {
        PixelPos::new(self.row - 1, self.col)
    }

    pub fn upper_righter(&self) -> (r: Self)
        requires
            self.row > 0,
            self.col < usize::MAX,
        ensures
            r.row == self.row - 1,
            r.col == self.col + 1,
    {
        PixelPos::new(self.row - 1, self.col + 1)
    }

    pub fn righter(&self) -> (r: Self)
        requires
            self.col < usize::MAX,
        ensures
            r.row == self.row,
            r.col == self.col + 1,
    {
        PixelPos::new(self.row, self.col + 1)
    }

    pub fn downer_righter(&self) -> (r: Self)
        requires
            self.row < usize::MAX,
            self.col < usize::MAX,
        ensures
            r.row == self.row + 1,
            r.col == self.col + 1,
    {
        PixelPos::new(self.row + 1, self.col + 1)
    }

    pub fn downer(&self) -> (r: Self)
        requires
            self.row < usize::MAX,
        ensures
            r.row == self.row + 1,
            r.col == self.col,
    {
        PixelPos::new(self.row + 1, self.col)
    }

    pub fn downer_lefter(&self) -> (r: Self)
        requires
            self.row < usize::MAX,
            self.col > 0,
        ensures
            r.row == self.row + 1,
            r.col == self.col - 1,
    {
        PixelPos::new(self.row + 1, self.col - 1)
    }

    /// Whether `self - other` would leave the range of positions.
    /// The row of `self` is compared with the column of `other`.
    pub fn negative_if_substract(&self, other: PixelPos) -> (r: bool)
        ensures
            r == (self.col < other.col || self.row < other.col),
    {
        self.col < other.col || self.row < other.col
    }

    /// Coordinate-wise sum, defined where it stays in range.
    pub open spec fn plus(self, rhs: PixelPos) -> PixelPos {
        pos(self.row + rhs.row, self.col + rhs.col)
    }

    /// Coordinate-wise difference, defined where it stays in range.
    pub open spec fn minus(self, rhs: PixelPos) -> PixelPos {
        pos(self.row - rhs.row, self.col - rhs.col)
    }

    pub open spec fn can_add(self, rhs: PixelPos) -> bool {
        self.row + rhs.row <= usize::MAX && self.col + rhs.col <= usize::MAX
    }

    pub open spec fn can_sub(self, rhs: PixelPos) -> bool {
        rhs.row <= self.row && rhs.col <= self.col
    }
}

impl Default for PixelPos {
    fn default() -> (r: Self)
        ensures
            r.row == 0,
            r.col == 0,
    {
        PixelPos { col: 0, row: 0 }
    }
}

impl Add for PixelPos {
    type Output = PixelPos;

    fn add(self, rhs: Self) -> (r: Self::Output) {
        PixelPos::new(self.row + rhs.row, self.col + rhs.col)
    }
}

impl vstd::std_specs::ops::AddSpecImpl for PixelPos {
    open spec fn obeys_add_spec() -> bool {
        true
    }

    open spec fn add_req(self, rhs: PixelPos) -> bool {
        self.can_add(rhs)
    }

    open spec fn add_spec(self, rhs: PixelPos) -> PixelPos {
        self.plus(rhs)
    }
}

impl Sub for PixelPos {
    type Output = PixelPos;

    fn sub(self, rhs: Self) -> (r: Self::Output) {
        PixelPos::new(self.row - rhs.row, self.col - rhs.col)
    }
}

impl vstd::std_specs::ops::SubSpecImpl for PixelPos {
    open spec fn obeys_sub_spec() -> bool {
        true
    }

    open spec fn sub_req(self, rhs: PixelPos) -> bool {
        self.can_sub(rhs)
    }

    open spec fn sub_spec(self, rhs: PixelPos) -> PixelPos {
        self.minus(rhs)
    }
}

/// In-place sum. A coordinate that would leave the range of `usize` wraps around,
/// as plain `+=` on `usize` does in a build without overflow checks.
impl AddAssign for PixelPos {
    fn add_assign(&mut self, rhs: Self)
        ensures
            old(self).can_add(rhs) ==> *final(self) == old(self).plus(rhs),
            final(self).row == if old(self).row + rhs.row <= usize::MAX {
                old(self).row + rhs.row
            } else {
                old(self).row + rhs.row - usize::MAX - 1
            },
            final(self).col == if old(self).col + rhs.col <= usize::MAX {
                old(self).col + rhs.col
            } else {
                old(self).col + rhs.col - usize::MAX - 1
            },
    {
        self.row = self.row.wrapping_add(rhs.row);
        self.col = self.col.wrapping_add(rhs.col);
    }
}

/// In-place difference. A coordinate that would fall below zero wraps around,
/// as plain `-=` on `usize` does in a build without overflow checks.
impl SubAssign for PixelPos {
    fn sub_assign(&mut self, rhs: Self)
        ensures
            old(self).can_sub(rhs) ==> *final(self) == old(self).minus(rhs),
            final(self).row == if old(self).row >= rhs.row {
                old(self).row - rhs.row
            } else {
                old(self).row - rhs.row + usize::MAX + 1
            },
            final(self).col == if old(self).col >= rhs.col {
                old(self).col - rhs.col
            } else {
                old(self).col - rhs.col + usize::MAX + 1
            },
    {
        self.row = self.row.wrapping_sub(rhs.row);
        self.col = self.col.wrapping_sub(rhs.col);
    }
}

/// Adding a position and then subtracting it gives back the position one started with.
pub proof fn lemma_add_then_sub(p: PixelPos, q: PixelPos)
    requires
        p.can_add(q),
    ensures
        p.plus(q).can_sub(q),
        p.plus(q).minus(q) == p,
{
}

} // verus!
