use vstd::prelude::*;
use crate::pixel_pos::{PixelPos, pos};

verus! {

/// A rectangle of pixels given by its top left and bottom right corners,
/// both included.
#[derive(Clone, Copy, Debug, PartialEq, Eq, Structural)]
pub struct PixelsArea {
    top_left: PixelPos,
    bottom_right: PixelPos,
}

/// How far each side of an area moves inwards.
pub enum Margin {
    Sides { left: usize, top: usize, right: usize, bottom: usize },
    TwoPoints { top_left: PixelPos, bottom_right: PixelPos },
    All(usize),
}

impl Margin {
    /// The margins as `(left, top, right, bottom)`.
    pub open spec fn margins(&self) -> (usize, usize, usize, usize) {
        match self {
            Margin::Sides { left, top, right, bottom } => (*left, *top, *right, *bottom),
            Margin::All(m) => (*m, *m, *m, *m),
            Margin::TwoPoints { top_left, bottom_right } => (
                top_left.col,
                top_left.row,
                bottom_right.col,
                bottom_right.row,
            ),
        }
    }

    fn get_margins(&self) -> (r: (usize, usize, usize, usize))
        ensures
            r == self.margins(),
    {
        match self {
            Margin::Sides { left, top, right, bottom } => (*left, *top, *right, *bottom),
            Margin::All(m) => (*m, *m, *m, *m),
            Margin::TwoPoints { top_left, bottom_right } => (
                top_left.col,
                top_left.row,
                bottom_right.col,
                bottom_right.row,
            ),
        }
    }
}

impl PixelsArea {
    /// The top left corner.
    pub closed spec fn tl(self) -> PixelPos {
        self.top_left
    }

    /// The bottom right corner, included in the area.
    pub closed spec fn br(self) -> PixelPos {
        self.bottom_right
    }

    /// The corners are ordered, so that the area holds at least one pixel.
    pub open spec fn wf(self) -> bool {
        self.tl().row <= self.br().row && self.tl().col <= self.br().col
    }

    /// The width and the height fit in `usize`.
    pub open spec fn sized(self) -> bool {
        self.br().col - self.tl().col < usize::MAX && self.br().row - self.tl().row < usize::MAX
    }

    pub open spec fn width(self) -> int {
        self.br().col - self.tl().col + 1
    }

    pub open spec fn height(self) -> int {
        self.br().row - self.tl().row + 1
    }

    pub open spec fn has(self, p: PixelPos) -> bool {
        self.tl().row <= p.row <= self.br().row && self.tl().col <= p.col <= self.br().col
    }

    /// The area lies within `other`.
    pub open spec fn inside(self, other: PixelsArea) -> bool {
        other.has(self.tl()) && other.has(self.br())
    }

    /// The area with the given corners, which must be ordered.
    pub fn new(top_left: PixelPos, bottom_right: PixelPos) -> (r: Self)
        requires
            top_left.row <= bottom_right.row,
            top_left.col <= bottom_right.col,
        ensures
            r.tl() == top_left,
            r.br() == bottom_right,
            r.wf(),
    {
        PixelsArea { top_left, bottom_right }
    }

    /// The area from the origin to `(bottom, right)`, both included.
    pub fn from_zero_to(bottom: usize, right: usize) -> (r: Self)
        ensures
            r.tl() == pos(0, 0),
            r.br() == pos(bottom as int, right as int),
            r.wf(),
    {
        PixelsArea { top_left: PixelPos::new(0, 0), bottom_right: PixelPos::new(bottom, right) }
    }

    /// The area of `height` rows and `width` columns at the origin.
    pub fn with_size(height: usize, width: usize) -> (r: Self)
        requires
            height >= 1,
            width >= 1,
        ensures
            r.tl() == pos(0, 0),
            r.br() == pos(height - 1, width - 1),
            r.wf(),
            r.height() == height,
            r.width() == width,
    {
        PixelsArea::new(PixelPos::new(0, 0), PixelPos::new(height - 1, width - 1))
    }

    /// The area whose top left corner is `(top_left_row, top_left_col)` and whose
    /// bottom right corner is that corner moved by the bottom right corner of `self`.
    pub fn with_pos(self, top_left_row: usize, top_left_col: usize) -> (r: Self)
        requires
            top_left_row + self.br().row <= usize::MAX,
            top_left_col + self.br().col <= usize::MAX,
        ensures
            r.tl() == pos(top_left_row as int, top_left_col as int),
            r.br() == pos(top_left_row + self.br().row, top_left_col + self.br().col),
            r.wf(),
    {
        let top_left = PixelPos::new(top_left_row, top_left_col);
        PixelsArea::new(top_left, top_left + self.bottom_right)
    }

    /// The area with its sides moved inwards by the margins.
    pub fn apply_margin(self, margin: Margin) -> (r: Self)
        requires
            ({
                let (left, top, right, bottom) = margin.margins();
                &&& self.tl().row + top <= usize::MAX
                &&& self.tl().col + left <= usize::MAX
                &&& bottom <= self.br().row
                &&& right <= self.br().col
                &&& self.tl().row + top <= self.br().row - bottom
                &&& self.tl().col + left <= self.br().col - right
            }),
        ensures
            ({
                let (left, top, right, bottom) = margin.margins();
                &&& r.tl() == pos(self.tl().row + top, self.tl().col + left)
                &&& r.br() == pos(self.br().row - bottom, self.br().col - right)
            }),
            r.wf(),
    {
        let (left, top, right, bottom) = margin.get_margins();
        let top_left_offset = PixelPos::new(top, left);
        let bottom_right_offset = PixelPos::new(bottom, right);
        PixelsArea::new(self.top_left + top_left_offset, self.bottom_right - bottom_right_offset)
    }

    pub fn contains(&self, pos: PixelPos) -> (r: bool)
        ensures
            r == self.has(pos),
    {
        self.top_left.row <= pos.row && pos.row <= self.bottom_right.row && self.top_left.col
            <= pos.col && pos.col <= self.bottom_right.col
    }

    /// Whether the area lies within `other`.
    pub fn is_inside_of(&self, other: &PixelsArea) -> (r: bool)
        ensures
            r == self.inside(*other),
    {
        other.contains(self.top_left) && other.contains(self.bottom_right)
    }

    pub fn top_left(&self) -> (r: PixelPos)
        ensures
            r == self.tl(),
    {
        self.top_left
    }

    pub fn bottom_right(&self) -> (r: PixelPos)
        ensures
            r == self.br(),
    {
        self.bottom_right
    }

    pub fn w(&self) -> (r: usize)
        requires
            self.wf(),
            self.sized(),
        ensures
            r == self.width(),
    {
        self.bottom_right.col - self.top_left.col + 1
    }

    pub fn h(&self) -> (r: usize)
        requires
            self.wf(),
            self.sized(),
        ensures
            r == self.height(),
    {
        self.bottom_right.row - self.top_left.row + 1
    }

    /// The rows of the area, both ends included.
    pub fn get_rows_range(&self) -> (r: std::ops::RangeInclusive<usize>)
        ensures
            r@.start == self.tl().row,
            r@.end == self.br().row,
            !r@.exhausted,
    {
        std::ops::RangeInclusive::new(self.top_left.row, self.bottom_right.row)
    }

    /// The columns of the area, both ends included.
    pub fn get_cols_range(&self) -> (r: std::ops::RangeInclusive<usize>)
        ensures
            r@.start == self.tl().col,
            r@.end == self.br().col,
            !r@.exhausted,
    {
        std::ops::RangeInclusive::new(self.top_left.col, self.bottom_right.col)
    }
}

} // verus!
