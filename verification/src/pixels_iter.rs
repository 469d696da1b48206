use vstd::prelude::*;
use vstd::arithmetic::div_mod::lemma_fundamental_div_mod_converse;
use crate::pixel_pos::{PixelPos, pos};
use crate::pixels_area::PixelsArea;
use crate::matrix2d::Matrix2D;
use crate::img::Img;

verus! {

/// The positions of an area in the order in which it is walked: row by row from the
/// top, and within a row from left to right.
pub open spec fn area_positions(area: PixelsArea) -> Seq<PixelPos> {
    Seq::new(
        (area.width() * area.height()) as nat,
        |i: int| pos(area.tl().row + i / area.width(), area.tl().col + i % area.width()),
    )
}

/// The place of a position in `area_positions`.
pub open spec fn pos_index(area: PixelsArea, p: PixelPos) -> int {
    (p.row - area.tl().row) * area.width() + (p.col - area.tl().col)
}

proof fn lemma_index_bounds(a: int, b: int, w: int, h: int)
    requires
        0 <= a < h,
        0 <= b < w,
    ensures
        0 <= a * w + b < w * h,
{
    assert(0 <= a * w + b < w * h) by (nonlinear_arith)
        requires
            0 <= a < h,
            0 <= b < w,
    ;
}

/// Every position of an area occurs in the walk, at the place `pos_index` gives.
pub proof fn lemma_walk_covers_area(area: PixelsArea, p: PixelPos)
    requires
        area.wf(),
        area.has(p),
    ensures
        0 <= pos_index(area, p) < area_positions(area).len(),
        area_positions(area)[pos_index(area, p)] == p,
{
    let w = area.width();
    let a = p.row - area.tl().row;
    let b = p.col - area.tl().col;
    lemma_index_bounds(a, b, w, area.height());
    lemma_fundamental_div_mod_converse(pos_index(area, p), w, a, b);
}

proof fn lemma_walk_place(area: PixelsArea, i: int)
    requires
        area.wf(),
        0 <= i < area_positions(area).len(),
    ensures
        area.has(area_positions(area)[i]),
        pos_index(area, area_positions(area)[i]) == i,
{
    let w = area.width();
    let h = area.height();
    assert(i / w < h) by (nonlinear_arith)
        requires
            0 <= i < w * h,
            w > 0,
    ;
    assert(0 <= i / w) by (nonlinear_arith)
        requires
            0 <= i,
            w > 0,
    ;
    assert(i == w * (i / w) + i % w) by (nonlinear_arith)
        requires
            w > 0,
    ;
    assert(0 <= i % w < w) by (nonlinear_arith)
        requires
            w > 0,
    ;
    assert(i / w * w == w * (i / w)) by (nonlinear_arith);
}

/// Every position that the walk gives lies in the area, and distinct places hold
/// distinct positions.
pub proof fn lemma_walk_within_area(area: PixelsArea, i: int, j: int)
    requires
        area.wf(),
        0 <= i < area_positions(area).len(),
        0 <= j < area_positions(area).len(),
    ensures
        area.has(area_positions(area)[i]),
        pos_index(area, area_positions(area)[i]) == i,
        i != j ==> area_positions(area)[i] != area_positions(area)[j],
{
    lemma_walk_place(area, i);
    lemma_walk_place(area, j);
}

impl PixelsArea {
    /// A walk over the positions of the area, row by row.
    pub fn get_pixels_iter(&self) -> (r: PixelsIter<'_>)
        requires
            self.wf(),
            self.br().row < usize::MAX,
        ensures
            r.walked() == *self,
            r.index() == 0,
            r.valid(),
    {
        PixelsIter::for_area(self)
    }
}

/// Walks the positions of an area row by row.
pub struct PixelsIter<'area> {
    area: &'area PixelsArea,
    cur_pos: PixelPos,
}

/// An iterator over the positions of an area that can tell which area it walks.
pub trait PixelsAreaIter<'area> {
    fn area(&self) -> &'area PixelsArea;
}

impl<'area> PixelsIter<'area> {
    /// The area that is walked.
    pub closed spec fn walked(self) -> PixelsArea {
        *self.area
    }

    /// How many positions have been given so far.
    pub closed spec fn index(self) -> int {
        pos_index(*self.area, self.cur_pos)
    }

    pub closed spec fn valid(self) -> bool {
        let a = *self.area;
        &&& a.wf()
        &&& a.br().row < usize::MAX
        &&& a.tl().col <= self.cur_pos.col <= a.br().col
        &&& a.tl().row <= self.cur_pos.row <= a.br().row + 1
        &&& self.cur_pos.row == a.br().row + 1 ==> self.cur_pos.col == a.tl().col
    }

    pub fn for_area(area: &'area PixelsArea) -> (r: Self)
        requires
            area.wf(),
            area.br().row < usize::MAX,
        ensures
            r.walked() == *area,
            r.index() == 0,
            r.valid(),
    {
        PixelsIter { area, cur_pos: area.top_left() }
    }

    /// The position that the next call of `next` gives, if it is in the area.
    pub fn cur_pos(&self) -> (r: PixelPos)
        requires
            self.valid(),
        ensures
            0 <= self.index() < area_positions(self.walked()).len() ==> r == area_positions(
                self.walked(),
            )[self.index()],
    {
        proof {
            self.lemma_index_range();
            if self.cur_pos.row <= self.area.br().row {
                lemma_walk_covers_area(*self.area, self.cur_pos);
            }
        }
        self.cur_pos
    }

    proof fn lemma_index_range(self)
        requires
            self.valid(),
        ensures
            0 <= self.index() <= area_positions(self.walked()).len(),
            self.index() < area_positions(self.walked()).len() <==> self.cur_pos.row
                <= self.walked().br().row,
    {
        let a = *self.area;
        let w = a.width();
        let h = a.height();
        let r = self.cur_pos.row - a.tl().row;
        let c = self.cur_pos.col - a.tl().col;
        if self.cur_pos.row <= a.br().row {
            lemma_index_bounds(r, c, w, h);
        } else {
            assert(r * w + c == w * h) by (nonlinear_arith)
                requires
                    r == h,
                    c == 0,
            ;
        }
    }

    /// Gives the next position of the walk, or `None` once every position was given.
    pub fn next(&mut self) -> (r: Option<PixelPos>)
        requires
            old(self).valid(),
        ensures
            final(self).valid(),
            final(self).walked() == old(self).walked(),
            old(self).index() < area_positions(old(self).walked()).len() ==> {
                &&& r == Some(area_positions(old(self).walked())[old(self).index()])
                &&& final(self).index() == old(self).index() + 1
            },
            old(self).index() >= area_positions(old(self).walked()).len() ==> {
                &&& r is None
                &&& final(self).index() == old(self).index()
            },
    {
        proof {
            self.lemma_index_range();
        }
        let curr = self.cur_pos;
        if !self.area.contains(curr) {
            return None;
        }
        proof {
            lemma_walk_covers_area(*self.area, curr);
        }
        let ghost w = self.area.width();
        let ghost r0 = curr.row - self.area.br().row;
        if self.cur_pos.col < self.area.bottom_right().col {
            self.cur_pos.col = self.cur_pos.col + 1;
        } else {
            self.cur_pos.col = self.area.top_left().col;
            self.cur_pos.row = self.cur_pos.row + 1;
            proof {
                let a = curr.row - self.area.tl().row;
                assert((a + 1) * w == a * w + w) by (nonlinear_arith);
            }
        }
        Some(curr)
    }

    /// Walks the same positions, and tells at each new row that a row was completed.
    pub fn track_progress(self) -> (r: PixelsProgressIter<'area>)
        requires
            self.valid(),
        ensures
            r.inner() == self,
            r.last_row() == self.walked().tl().row,
            r.valid(),
    {
        PixelsProgressIter::new(self)
    }
}

impl<'area> PixelsAreaIter<'area> for PixelsIter<'area> {
    fn area(&self) -> (r: &'area PixelsArea)
        ensures
            *r == self.walked(),
    {
        self.area
    }
}

/// One step of a walk that reports progress.
#[derive(Debug, Clone, Copy, PartialEq, Eq, Structural)]
pub enum ProgressStep {
    /// A position of the area; `row_completed` is set when it starts a new row,
    /// that is when a row was completed before it.
    Pixel { pos: PixelPos, row_completed: bool },
    /// The walk is over; the last row was completed.
    Finished,
}

/// Walks the positions of an area and reports each completed row.
pub struct PixelsProgressIter<'area> {
    iter: PixelsIter<'area>,
    cur_row_num: usize,
}

impl<'area> PixelsProgressIter<'area> {
    pub closed spec fn inner(self) -> PixelsIter<'area> {
        self.iter
    }

    /// The row of the last position given, or the top row before the first one.
    pub closed spec fn last_row(self) -> usize {
        self.cur_row_num
    }

    pub open spec fn valid(self) -> bool {
        self.inner().valid()
    }

    fn new(iter: PixelsIter<'area>) -> (r: Self)
        requires
            iter.valid(),
        ensures
            r.inner() == iter,
            r.last_row() == iter.walked().tl().row,
    {
        let cur_row_num = iter.area.top_left().row;
        PixelsProgressIter { iter, cur_row_num }
    }

    /// Gives the next step of the walk: the next position, marked when its row lies
    /// below the row of the position before it, or the end of the walk.
    pub fn next(&mut self) -> (r: ProgressStep)
        requires
            old(self).valid(),
        ensures
            final(self).valid(),
            final(self).inner().walked() == old(self).inner().walked(),
            ({
                let it = old(self).inner();
                let all = area_positions(it.walked());
                if it.index() < all.len() {
                    let p = all[it.index()];
                    &&& r == ProgressStep::Pixel { pos: p, row_completed: p.row > old(self).last_row() }
                    &&& final(self).inner().index() == it.index() + 1
                    &&& final(self).last_row() == (if p.row > old(self).last_row() {
                        p.row
                    } else {
                        old(self).last_row()
                    })
                } else {
                    &&& r is Finished
                    &&& final(self).inner().index() == it.index()
                    &&& final(self).last_row() == old(self).last_row()
                }
            }),
    {
        match self.iter.next() {
            Some(p) => {
                let row_completed = p.row > self.cur_row_num;
                if row_completed {
                    self.cur_row_num = p.row;
                }
                ProgressStep::Pixel { pos: p, row_completed }
            },
            None => ProgressStep::Finished,
        }
    }
}

impl<'area> PixelsAreaIter<'area> for PixelsProgressIter<'area> {
    fn area(&self) -> (r: &'area PixelsArea)
        ensures
            *r == self.inner().walked(),
    {
        self.iter.area
    }
}

/// The positions of the rectangle of `h` rows and `w` columns whose top left corner
/// is `(top, left)`, row by row.
pub open spec fn rect_positions(top: int, left: int, w: int, h: int) -> Seq<PixelPos> {
    Seq::new((w * h) as nat, |i: int| pos(top + i / w, left + i % w))
}

/// The position at place `i` of a rectangle walk lies in the rectangle, and its
/// place is `i`.
pub proof fn lemma_rect_place(top: int, left: int, w: int, h: int, i: int)
    requires
        w >= 0,
        h >= 0,
        0 <= i < w * h,
    ensures
        top <= top + i / w < top + h,
        left <= left + i % w < left + w,
        (i / w) * w + i % w == i,
{
    assert(w > 0) by (nonlinear_arith)
        requires
            0 <= i < w * h,
            w >= 0,
            h >= 0,
    ;
    assert(i / w < h) by (nonlinear_arith)
        requires
            0 <= i < w * h,
            w > 0,
    ;
    assert(0 <= i / w) by (nonlinear_arith)
        requires
            0 <= i,
            w > 0,
    ;
    assert(i == w * (i / w) + i % w) by (nonlinear_arith)
        requires
            w > 0,
    ;
    assert(0 <= i % w < w) by (nonlinear_arith)
        requires
            w > 0,
    ;
    assert(i / w * w == w * (i / w)) by (nonlinear_arith);
}

/// The position `(top + a, left + b)` of a rectangle lies at place `a * w + b` of
/// its walk.
pub proof fn lemma_rect_covers(top: int, left: int, w: int, h: int, a: int, b: int)
    requires
        0 <= a < h,
        0 <= b < w,
        top + a <= usize::MAX,
        left + b <= usize::MAX,
        top >= 0,
        left >= 0,
    ensures
        0 <= a * w + b < w * h,
        rect_positions(top, left, w, h)[a * w + b] == pos(top + a, left + b),
{
    lemma_index_bounds(a, b, w, h);
    lemma_fundamental_div_mod_converse(a * w + b, w, a, b);
}

/// Walks the rectangle from `top_left` to `bottom_right_excluded`, the bottom row and
/// the right column left out, row by row.
pub struct PixelsIterator {
    top_left: PixelPos,
    bottom_right_excluded: PixelPos,
    cur_pos: PixelPos,
}

impl PixelsIterator {
    pub closed spec fn tl(self) -> PixelPos {
        self.top_left
    }

    pub closed spec fn br_excluded(self) -> PixelPos {
        self.bottom_right_excluded
    }

    /// The positions of the walk, in order.
    pub open spec fn positions(self) -> Seq<PixelPos> {
        rect_positions(
            self.tl().row as int,
            self.tl().col as int,
            self.br_excluded().col - self.tl().col,
            self.br_excluded().row - self.tl().row,
        )
    }

    /// How many positions have been given so far.
    pub closed spec fn index(self) -> int {
        (self.cur_pos.row - self.top_left.row) * (self.bottom_right_excluded.col - self.top_left.col)
            + (self.cur_pos.col - self.top_left.col)
    }

    pub closed spec fn valid(self) -> bool {
        &&& self.top_left.row < self.bottom_right_excluded.row
        &&& self.top_left.col < self.bottom_right_excluded.col
        &&& self.top_left.col <= self.cur_pos.col < self.bottom_right_excluded.col
        &&& self.top_left.row <= self.cur_pos.row <= self.bottom_right_excluded.row
        &&& self.cur_pos.row == self.bottom_right_excluded.row ==> self.cur_pos.col
            == self.top_left.col
    }

    /// The walk over the rectangle; it holds at least one position.
    pub fn for_rect_area(top_left: PixelPos, bottom_right_excluded: PixelPos) -> (r: Self)
        requires
            top_left.row < bottom_right_excluded.row,
            top_left.col < bottom_right_excluded.col,
        ensures
            r.tl() == top_left,
            r.br_excluded() == bottom_right_excluded,
            r.index() == 0,
            r.valid(),
    {
        let r = PixelsIterator { top_left, bottom_right_excluded, cur_pos: top_left };
        proof {
            vstd::arithmetic::mul::lemma_mul_basics((bottom_right_excluded.col - top_left.col) as int);
        }
        r
    }

    /// The walk over every position of a matrix that is not empty.
    pub fn for_full_image<T: Copy>(layer: &Matrix2D<T>) -> (r: Self)
        requires
            layer.rows() >= 1,
            layer.cols() >= 1,
        ensures
            r.tl() == pos(0, 0),
            r.br_excluded() == pos(layer.rows() as int, layer.cols() as int),
            r.index() == 0,
            r.valid(),
    {
        PixelsIterator::for_rect_area(PixelPos::new(0, 0), PixelPos::new(layer.h(), layer.w()))
    }

    /// Whether a position lies in the rectangle.
    pub fn fits(&self, pos: PixelPos) -> (r: bool)
        ensures
            r == (self.tl().col <= pos.col < self.br_excluded().col && self.tl().row <= pos.row
                < self.br_excluded().row),
    {
        self.top_left.col <= pos.col && pos.col < self.bottom_right_excluded.col
            && self.top_left.row <= pos.row && pos.row < self.bottom_right_excluded.row
    }

    /// Gives the next position of the walk, or `None` once every position was given.
    pub fn next(&mut self) -> (r: Option<PixelPos>)
        requires
            old(self).valid(),
        ensures
            final(self).valid(),
            final(self).tl() == old(self).tl(),
            final(self).br_excluded() == old(self).br_excluded(),
            old(self).index() < old(self).positions().len() ==> {
                &&& r == Some(old(self).positions()[old(self).index()])
                &&& final(self).index() == old(self).index() + 1
            },
            old(self).index() >= old(self).positions().len() ==> {
                &&& r is None
                &&& final(self).index() == old(self).index()
            },
    {
        let ghost w = self.bottom_right_excluded.col - self.top_left.col;
        let ghost h = self.bottom_right_excluded.row - self.top_left.row;
        let ghost a = self.cur_pos.row - self.top_left.row;
        let ghost b = self.cur_pos.col - self.top_left.col;
        let curr = self.cur_pos;
        if !self.fits(curr) {
            proof {
                assert(a * w + b == w * h) by (nonlinear_arith)
                    requires
                        a == h,
                        b == 0,
                ;
            }
            return None;
        }
        proof {
            lemma_rect_covers(self.top_left.row as int, self.top_left.col as int, w, h, a, b);
        }
        if self.cur_pos.col + 1 < self.bottom_right_excluded.col {
            self.cur_pos.col = self.cur_pos.col + 1;
        } else {
            self.cur_pos.col = self.top_left.col;
            self.cur_pos.row = self.cur_pos.row + 1;
            proof {
                assert((a + 1) * w == a * w + w) by (nonlinear_arith);
            }
        }
        Some(curr)
    }
}

/// Walks a rectangle row by row, the bottom row and the right column left out, as
/// the matrix walk does: every position but the last one is given, then `None`, and
/// after that the walk starts over from the top left.
pub struct Matrix2DIterator {
    top_left: PixelPos,
    bottom_right_excluded: PixelPos,
    cur_pos: PixelPos,
}

impl Matrix2DIterator {
    pub closed spec fn tl(self) -> PixelPos {
        self.top_left
    }

    pub closed spec fn br_excluded(self) -> PixelPos {
        self.bottom_right_excluded
    }

    /// The positions of the rectangle, in the order of the walk.
    pub open spec fn positions(self) -> Seq<PixelPos> {
        rect_positions(
            self.tl().row as int,
            self.tl().col as int,
            self.br_excluded().col - self.tl().col,
            self.br_excluded().row - self.tl().row,
        )
    }

    /// The place of the walk in `positions`.
    pub closed spec fn index(self) -> int {
        (self.cur_pos.row - self.top_left.row) * (self.bottom_right_excluded.col - self.top_left.col)
            + (self.cur_pos.col - self.top_left.col)
    }

    /// The rectangle is not empty and the walk stands in it.
    pub closed spec fn valid(self) -> bool {
        &&& self.top_left.row <= self.cur_pos.row < self.bottom_right_excluded.row
        &&& self.top_left.col <= self.cur_pos.col < self.bottom_right_excluded.col
    }

    /// The walk over a whole matrix; it can go on only where the matrix is not empty.
    pub fn for_full<T: Copy>(mat: &Matrix2D<T>) -> (r: Self)
        ensures
            r.tl() == pos(0, 0),
            r.br_excluded() == pos(mat.rows() as int, mat.cols() as int),
            r.index() == 0,
            mat.rows() > 0 && mat.cols() > 0 ==> r.valid(),
    {
        let r = Matrix2DIterator {
            top_left: PixelPos::new(0, 0),
            bottom_right_excluded: PixelPos::new(mat.h(), mat.w()),
            cur_pos: PixelPos::new(0, 0),
        };
        proof {
            vstd::arithmetic::mul::lemma_mul_basics(mat.cols() as int);
        }
        r
    }

    /// The walk over a rectangle that is not empty.
    pub fn for_rect_area(top_left: PixelPos, bottom_right_excluded: PixelPos) -> (r: Self)
        requires
            top_left.row < bottom_right_excluded.row,
            top_left.col < bottom_right_excluded.col,
        ensures
            r.tl() == top_left,
            r.br_excluded() == bottom_right_excluded,
            r.index() == 0,
            r.valid(),
    {
        let r = Matrix2DIterator { top_left, bottom_right_excluded, cur_pos: top_left };
        proof {
            vstd::arithmetic::mul::lemma_mul_basics((bottom_right_excluded.col - top_left.col) as int);
        }
        r
    }

    /// Whether a position fits the walk: every position does.
    pub fn fits(&self, p: PixelPos) -> (r: bool)
        ensures
            r,
    {
        let mut val = self.top_left.col <= p.col && p.col < self.bottom_right_excluded.col
            && self.top_left.row <= p.row && p.row < self.bottom_right_excluded.row;
        if val == false {
            val = true;
        }
        val
    }

    /// The position the walk stands on, then a step. On the last position the walk
    /// gives `None` and goes back to the top left.
    pub fn next(&mut self) -> (r: Option<PixelPos>)
        requires
            old(self).valid(),
        ensures
            final(self).valid(),
            final(self).tl() == old(self).tl(),
            final(self).br_excluded() == old(self).br_excluded(),
            0 <= old(self).index() < old(self).positions().len(),
            old(self).index() + 1 < old(self).positions().len() ==> {
                &&& r == Some(old(self).positions()[old(self).index()])
                &&& final(self).index() == old(self).index() + 1
            },
            old(self).index() + 1 == old(self).positions().len() ==> {
                &&& r is None
                &&& final(self).index() == 0
            },
    {
        let ghost w = self.bottom_right_excluded.col - self.top_left.col;
        let ghost h = self.bottom_right_excluded.row - self.top_left.row;
        let ghost a = self.cur_pos.row - self.top_left.row;
        let ghost b = self.cur_pos.col - self.top_left.col;
        proof {
            lemma_rect_covers(self.top_left.row as int, self.top_left.col as int, w, h, a, b);
        }
        let curr = self.cur_pos;
        if self.cur_pos.col < self.bottom_right_excluded.col - 1 {
            self.cur_pos.col = self.cur_pos.col + 1;
            proof {
                assert(a * w + b + 1 < w * h) by (nonlinear_arith)
                    requires
                        0 <= a < h,
                        0 <= b,
                        b + 1 < w,
                ;
            }
            Some(curr)
        } else if self.cur_pos.row < self.bottom_right_excluded.row - 1 {
            self.cur_pos.col = self.top_left.col;
            self.cur_pos.row = self.cur_pos.row + 1;
            proof {
                assert((a + 1) * w == a * w + w) by (nonlinear_arith);
                assert(a * w + w < w * h) by (nonlinear_arith)
                    requires
                        a + 1 < h,
                        w > 0,
                ;
            }
            Some(curr)
        } else {
            self.cur_pos = self.top_left;
            proof {
                assert(a * w + b + 1 == w * h) by (nonlinear_arith)
                    requires
                        a == h - 1,
                        b == w - 1,
                ;
                vstd::arithmetic::mul::lemma_mul_basics(w);
            }
            None
        }
    }
}

/// The walk of an image's positions; it goes as `Matrix2DIterator` does.
pub struct ImgIterator {
    walk: Matrix2DIterator,
}

impl ImgIterator {
    pub closed spec fn inner(self) -> Matrix2DIterator {
        self.walk
    }

    /// The walk over the whole image; it can go on only where the image is not empty.
    pub fn for_full_image<T: Copy>(img: &Img<T>) -> (r: Self)
        ensures
            r.inner().tl() == pos(0, 0),
            r.inner().br_excluded() == pos(img.rows() as int, img.cols() as int),
            r.inner().index() == 0,
            img.rows() > 0 && img.cols() > 0 ==> r.inner().valid(),
    {
        let r = ImgIterator {
            walk: Matrix2DIterator {
                top_left: PixelPos::new(0, 0),
                bottom_right_excluded: PixelPos::new(img.h(), img.w()),
                cur_pos: PixelPos::new(0, 0),
            },
        };
        proof {
            vstd::arithmetic::mul::lemma_mul_basics(img.cols() as int);
        }
        r
    }

    /// The walk over a rectangle that is not empty.
    pub fn for_rect_area<T: Copy>(img: &Img<T>, top_left: PixelPos, bottom_right_excluded: PixelPos) -> (r: Self)
        requires
            top_left.row < bottom_right_excluded.row,
            top_left.col < bottom_right_excluded.col,
        ensures
            r.inner().tl() == top_left,
            r.inner().br_excluded() == bottom_right_excluded,
            r.inner().index() == 0,
            r.inner().valid(),
    {
        ImgIterator { walk: Matrix2DIterator::for_rect_area(top_left, bottom_right_excluded) }
    }

    /// Whether a position fits the walk: every position does.
    pub fn fits(&self, p: PixelPos) -> (r: bool)
        ensures
            r,
    {
        self.walk.fits(p)
    }

    /// The next position, as `Matrix2DIterator::next` gives it.
    pub fn next(&mut self) -> (r: Option<PixelPos>)
        requires
            old(self).inner().valid(),
        ensures
            final(self).inner().valid(),
            final(self).inner().tl() == old(self).inner().tl(),
            final(self).inner().br_excluded() == old(self).inner().br_excluded(),
            0 <= old(self).inner().index() < old(self).inner().positions().len(),
            old(self).inner().index() + 1 < old(self).inner().positions().len() ==> {
                &&& r == Some(old(self).inner().positions()[old(self).inner().index()])
                &&& final(self).inner().index() == old(self).inner().index() + 1
            },
            old(self).inner().index() + 1 == old(self).inner().positions().len() ==> {
                &&& r is None
                &&& final(self).inner().index() == 0
            },
    {
        self.walk.next()
    }
}

} // verus!
