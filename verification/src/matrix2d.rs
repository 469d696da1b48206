use vstd::prelude::*;
use crate::pixel_pos::{PixelPos, pos};
use crate::pixels_area::PixelsArea;
use vstd::arithmetic::mul::{
    lemma_mul_inequality,
    lemma_mul_is_commutative,
    lemma_mul_is_distributive_add_other_way,
};

use crate::pixels_iter::Matrix2DIterator;

verus! {

/// The value that fills the border added around a matrix.
#[derive(Clone, Copy, Debug, PartialEq, Eq, Structural)]
pub enum ExtendValue<T> {
    /// The value of the closest pixel of the matrix.
    Closest,
    /// The given value.
    Given(T),
}

/// A rectangular grid of values, stored row by row.
#[derive(Clone)]
pub struct Matrix2D<T> {
    width: usize,
    height: usize,
    pixels: Vec<T>,
}

/// Clamps `v` into `[0, max]`.
pub open spec fn clamp(v: int, max: int) -> int {
    if v < 0 {
        0
    } else if v > max {
        max
    } else {
        v
    }
}

proof fn lemma_row_major_index(rr: int, cc: int, r: int, w: int)
    requires
        0 <= rr < r,
        0 <= cc < w,
    ensures
        0 <= rr * w + cc,
        rr * w + cc < r * w,
        rr * w + w <= r * w,
{
    lemma_mul_inequality(0, rr, w);
    lemma_mul_inequality(rr + 1, r, w);
    lemma_mul_is_distributive_add_other_way(w, rr, 1);
    assert(1 * w == w);
}

/// The place of a position of a grid with `w` columns in its row-by-row values.
pub proof fn lemma_grid_index(row: int, col: int, h: int, w: int)
    requires
        0 <= row < h,
        0 <= col < w,
    ensures
        0 <= row * w + col < h * w,
{
    lemma_row_major_index(row, col, h, w);
}

proof fn lemma_next_row(r: int, w: int)
    ensures
        (r + 1) * w == r * w + w,
{
    lemma_mul_is_distributive_add_other_way(w, r, 1);
    assert(1 * w == w);
}

proof fn lemma_row_major_distinct(r1: int, c1: int, r2: int, c2: int, w: int)
    requires
        0 <= c1 < w,
        0 <= c2 < w,
        0 <= r1,
        0 <= r2,
        r1 * w + c1 == r2 * w + c2,
    ensures
        r1 == r2,
        c1 == c2,
{
    if r1 < r2 {
        lemma_row_major_index(r1, c1, r2, w);
    } else if r2 < r1 {
        lemma_row_major_index(r2, c2, r1, w);
    }
}

impl<T: Copy> Matrix2D<T> {
    pub closed spec fn cols(&self) -> nat {
        self.width as nat
    }

    pub closed spec fn rows(&self) -> nat {
        self.height as nat
    }

    /// The values row by row.
    pub closed spec fn values(&self) -> Seq<T> {
        self.pixels@
    }

    pub open spec fn wf(&self) -> bool {
        &&& self.values().len() == self.cols() * self.rows()
        &&& self.cols() * self.rows() <= usize::MAX
        &&& self.cols() <= usize::MAX
        &&& self.rows() <= usize::MAX
    }

    pub open spec fn fits_spec(&self, p: PixelPos) -> bool {
        p.row < self.rows() && p.col < self.cols()
    }

    /// The value at a position of the matrix.
    pub open spec fn at(&self, p: PixelPos) -> T {
        self.values()[p.row * self.cols() + p.col]
    }

    /// Every position of an area lies in the matrix.
    pub open spec fn holds_area(&self, area: PixelsArea) -> bool {
        area.wf() && self.fits_spec(area.br())
    }

    /// A matrix of the given size filled by `f`, which gives the value at a position.
    pub fn generate<F: Fn(PixelPos) -> T>(width: usize, height: usize, f: F) -> (r: Self)
        requires
            width * height <= usize::MAX,
            forall|p: PixelPos| p.row < height && p.col < width ==> call_requires(f, (p,)),
        ensures
            r.wf(),
            r.cols() == width,
            r.rows() == height,
            forall|p: PixelPos| r.fits_spec(p) ==> call_ensures(f, (p,), #[trigger] r.at(p)),
    {
        let mut pixels: Vec<T> = Vec::new();
        let mut row: usize = 0;
        while row < height
            invariant
                width * height <= usize::MAX,
                row <= height,
                pixels@.len() == row * width,
                forall|p: PixelPos| p.row < height && p.col < width ==> call_requires(f, (p,)),
                forall|p: PixelPos|
                    p.row < row && p.col < width ==> call_ensures(
                        f,
                        (p,),
                        #[trigger] pixels@[p.row * width + p.col],
                    ),
            decreases height - row,
        {
            proof {
                if width > 0 {
                    lemma_row_major_index(row as int, 0, height as int, width as int);
                } else {
                    lemma_mul_is_commutative(row as int, 0);
                    lemma_mul_is_commutative(height as int, 0);
                }
                lemma_mul_is_commutative(height as int, width as int);
            }
            let mut col: usize = 0;
            while col < width
                invariant
                    width * height <= usize::MAX,
                    row < height,
                    col <= width,
                    pixels@.len() == row * width + col,
                    row * width + width <= width * height,
                    forall|p: PixelPos| p.row < height && p.col < width ==> call_requires(f, (p,)),
                    forall|p: PixelPos|
                        (p.row < row && p.col < width) || (p.row == row && p.col < col)
                            ==> call_ensures(f, (p,), #[trigger] pixels@[p.row * width + p.col]),
                decreases width - col,
            {
                let p = PixelPos::new(row, col);
                let v = f(p);
                let ghost before = pixels@;
                pixels.push(v);
                proof {
                    assert forall|q: PixelPos|
                        (q.row < row && q.col < width) || (q.row == row && q.col <= col)
                            implies call_ensures(f, (q,), #[trigger] pixels@[q.row * width + q.col]) by {
                        if q.row < row {
                            lemma_row_major_index(q.row as int, q.col as int, row as int, width as int);
                            assert(pixels@[q.row * width + q.col] == before[q.row * width + q.col]);
                        } else if q.col < col {
                            assert(pixels@[q.row * width + q.col] == before[q.row * width + q.col]);
                        } else {
                            assert(q == p);
                        }
                    }
                }
                col = col + 1;
            }
            proof {
                lemma_next_row(row as int, width as int);
            }
            row = row + 1;
        }
        proof {
            lemma_mul_is_commutative(height as int, width as int);
        }
        Matrix2D { width, height, pixels }
    }
}

impl<T: Copy> Matrix2D<T> {
    /// The value at `p` of the matrix extended by `top` rows above and `left`
    /// columns to the left, filled as `with` says.
    pub open spec fn ext_at(&self, with: ExtendValue<T>, top: int, left: int, p: PixelPos) -> T {
        let r = p.row - top;
        let c = p.col - left;
        match with {
            ExtendValue::Closest => self.at(
                pos(clamp(r, self.rows() - 1), clamp(c, self.cols() - 1)),
            ),
            ExtendValue::Given(v) => if 0 <= r < self.rows() && 0 <= c < self.cols() {
                self.at(pos(r, c))
            } else {
                v
            },
        }
    }

    /// `r` is this matrix with `left` columns added on the left, `top` rows on the
    /// top, `right` columns on the right and `bottom` rows on the bottom, filled as
    /// `with` says.
    pub open spec fn is_extension(
        &self,
        r: Self,
        with: ExtendValue<T>,
        left: int,
        top: int,
        right: int,
        bottom: int,
    ) -> bool {
        &&& r.wf()
        &&& r.cols() == left + self.cols() + right
        &&& r.rows() == top + self.rows() + bottom
        &&& forall|p: PixelPos| r.fits_spec(p) ==> #[trigger] r.at(p) == self.ext_at(with, top, left, p)
    }

    /// An extension of a matrix is determined by the matrix and the border: two
    /// extensions with the same border have the same size and the same value at
    /// every position. So `extend_matrix` gives what `extended` gives.
    pub proof fn lemma_extension_determined(
        &self,
        a: Self,
        b: Self,
        with: ExtendValue<T>,
        left: int,
        top: int,
        right: int,
        bottom: int,
    )
        requires
            self.is_extension(a, with, left, top, right, bottom),
            self.is_extension(b, with, left, top, right, bottom),
        ensures
            a.cols() == b.cols(),
            a.rows() == b.rows(),
            a.values() == b.values(),
            forall|p: PixelPos| a.fits_spec(p) ==> #[trigger] a.at(p) == b.at(p),
    {
        assert forall|p: PixelPos| a.fits_spec(p) implies #[trigger] a.at(p) == b.at(p) by {
            assert(b.fits_spec(p));
        }
        let w = a.cols() as int;
        let h = a.rows() as int;
        assert forall|i: int| 0 <= i < a.values().len() implies a.values()[i] == b.values()[i] by {
            assert(w > 0) by {
                if w == 0 {
                    assert(w * h == 0) by (nonlinear_arith)
                        requires
                            w == 0,
                    ;
                }
            }
            assert(0 <= i / w < h && 0 <= i % w < w && i == i / w * w + i % w) by (nonlinear_arith)
                requires
                    0 <= i < w * h,
                    w > 0,
            ;
            let p = pos(i / w, i % w);
            assert(a.fits_spec(p));
            assert(a.at(p) == b.at(p));
        }
        assert(a.values() =~= b.values());
    }

    /// Extending keeps the matrix whole inside the border: moved by the border, each
    /// position holds the value it held, whatever the border is filled with.
    pub proof fn lemma_extended_interior(&self, with: ExtendValue<T>, top: int, left: int, p: PixelPos)
        requires
            self.fits_spec(p),
            top >= 0,
            left >= 0,
            p.row + top <= usize::MAX,
            p.col + left <= usize::MAX,
        ensures
            self.ext_at(with, top, left, pos(p.row + top, p.col + left)) == self.at(p),
    {
        let q = pos(p.row + top, p.col + left);
        assert(q.row - top == p.row && q.col - left == p.col);
        assert(pos(p.row as int, p.col as int) == p);
    }

    /// A matrix of `height` rows and `width` columns, each holding the default value.
    pub fn empty_with_size(width: usize, height: usize) -> (r: Self) where T: Default
        requires
            width * height <= usize::MAX,
        ensures
            r.wf(),
            r.cols() == width,
            r.rows() == height,
            forall|p: PixelPos| r.fits_spec(p) ==> call_ensures(T::default, (), #[trigger] r.at(p)),
            forall|p: PixelPos, q: PixelPos|
                r.fits_spec(p) && r.fits_spec(q) ==> #[trigger] r.at(p) == #[trigger] r.at(q),
    {
        let zero = T::default();
        let f = |p: PixelPos| -> (v: T)
            ensures
                v == zero,
            { zero };
        Self::generate(width, height, f)
    }

    /// A matrix of the size of `other`, each value the default one.
    pub fn empty_size_of(other: &Matrix2D<T>) -> (r: Self) where T: Default
        requires
            other.wf(),
        ensures
            r.wf(),
            r.cols() == other.cols(),
            r.rows() == other.rows(),
            forall|p: PixelPos| r.fits_spec(p) ==> call_ensures(T::default, (), #[trigger] r.at(p)),
            forall|p: PixelPos, q: PixelPos|
                r.fits_spec(p) && r.fits_spec(q) ==> #[trigger] r.at(p) == #[trigger] r.at(q),
    {
        proof {
            lemma_mul_is_commutative(other.cols() as int, other.rows() as int);
        }
        Self::empty_with_size(other.w(), other.h())
    }

    pub fn w(&self) -> (r: usize)
        ensures
            r == self.cols(),
    {
        self.width
    }

    pub fn h(&self) -> (r: usize)
        ensures
            r == self.rows(),
    {
        self.height
    }

    /// The size as a position: rows, then columns.
    pub fn size_vec(&self) -> (r: PixelPos)
        ensures
            r == pos(self.rows() as int, self.cols() as int),
    {
        PixelPos::new(self.height, self.width)
    }

    pub fn max_col(&self) -> (r: usize)
        requires
            self.cols() >= 1,
        ensures
            r == self.cols() - 1,
    {
        self.width - 1
    }

    pub fn max_row(&self) -> (r: usize)
        requires
            self.rows() >= 1,
        ensures
            r == self.rows() - 1,
    {
        self.height - 1
    }

    /// Whether a position lies in the matrix.
    pub fn fits(&self, pos: PixelPos) -> (r: bool)
        requires
            self.cols() >= 1,
            self.rows() >= 1,
        ensures
            r == self.fits_spec(pos),
    {
        pos.col <= self.max_col() && pos.row <= self.max_row()
    }

    /// The area of all positions of the matrix.
    pub fn area(&self) -> (r: PixelsArea)
        requires
            self.cols() >= 1,
            self.rows() >= 1,
        ensures
            r.wf(),
            r.tl() == pos(0, 0),
            r.br() == pos(self.rows() - 1, self.cols() - 1),
    {
        PixelsArea::size_of(self)
    }

    /// The values row by row.
    pub fn pixels(&self) -> (r: &Vec<T>)
        ensures
            r@ == self.values(),
    {
        &self.pixels
    }

    pub fn get(&self, p: PixelPos) -> (r: T)
        requires
            self.wf(),
            self.fits_spec(p),
        ensures
            r == self.at(p),
    {
        proof {
            lemma_row_major_index(p.row as int, p.col as int, self.rows() as int, self.cols() as int);
            lemma_mul_is_commutative(self.rows() as int, self.cols() as int);
        }
        self.pixels[p.row * self.width + p.col]
    }

    pub fn set(&mut self, p: PixelPos, value: T)
        requires
            old(self).wf(),
            old(self).fits_spec(p),
        ensures
            final(self).wf(),
            final(self).cols() == old(self).cols(),
            final(self).rows() == old(self).rows(),
            forall|q: PixelPos|
                final(self).fits_spec(q) ==> #[trigger] final(self).at(q) == if q == p {
                    value
                } else {
                    old(self).at(q)
                },
    {
        proof {
            lemma_row_major_index(p.row as int, p.col as int, self.rows() as int, self.cols() as int);
            lemma_mul_is_commutative(self.rows() as int, self.cols() as int);
        }
        let ghost before = *self;
        self.pixels.set(p.row * self.width + p.col, value);
        proof {
            assert forall|q: PixelPos| self.fits_spec(q) implies #[trigger] self.at(q) == if q == p {
                value
            } else {
                before.at(q)
            } by {
                if q != p {
                    lemma_row_major_index(q.row as int, q.col as int, self.rows() as int, self.cols() as int);
                    if q.row * self.cols() + q.col == p.row * self.cols() + p.col {
                        lemma_row_major_distinct(q.row as int, q.col as int, p.row as int, p.col as int, self.cols() as int);
                    }
                }
            }
        }
    }

    /// Sets every value of an area to `value`.
    pub fn set_rect(&mut self, area: PixelsArea, value: T)
        requires
            old(self).wf(),
            old(self).holds_area(area),
        ensures
            final(self).wf(),
            final(self).cols() == old(self).cols(),
            final(self).rows() == old(self).rows(),
            forall|q: PixelPos|
                final(self).fits_spec(q) ==> #[trigger] final(self).at(q) == if area.has(q) {
                    value
                } else {
                    old(self).at(q)
                },
    {
        let ghost before = *self;
        let top_left = area.top_left();
        let bottom_right = area.bottom_right();
        let mut row = top_left.row;
        while row <= bottom_right.row
            invariant
                before.wf(),
                before.holds_area(area),
                top_left == area.tl(),
                bottom_right == area.br(),
                top_left.row <= row <= bottom_right.row + 1,
                self.wf(),
                self.cols() == before.cols(),
                self.rows() == before.rows(),
                forall|q: PixelPos|
                    self.fits_spec(q) ==> #[trigger] self.at(q) == if area.has(q) && q.row < row {
                        value
                    } else {
                        before.at(q)
                    },
            decreases bottom_right.row + 1 - row,
        {
            let mut col = top_left.col;
            while col <= bottom_right.col
                invariant
                    before.wf(),
                    before.holds_area(area),
                    top_left == area.tl(),
                    bottom_right == area.br(),
                    top_left.row <= row <= bottom_right.row,
                    top_left.col <= col <= bottom_right.col + 1,
                    self.wf(),
                    self.cols() == before.cols(),
                    self.rows() == before.rows(),
                    forall|q: PixelPos|
                        self.fits_spec(q) ==> #[trigger] self.at(q) == if area.has(q) && (q.row < row
                            || (q.row == row && q.col < col)) {
                            value
                        } else {
                            before.at(q)
                        },
                decreases bottom_right.col + 1 - col,
            {
                self.set(PixelPos::new(row, col), value);
                col = col + 1;
            }
            row = row + 1;
        }
    }

    fn extended_value_at(&self, with: ExtendValue<T>, top: usize, left: usize, p: PixelPos) -> (r: T)
        requires
            self.wf(),
            with is Closest ==> self.cols() >= 1 && self.rows() >= 1,
        ensures
            r == self.ext_at(with, top as int, left as int, p),
    {
        match with {
            ExtendValue::Closest => {
                let row = if p.row < top {
                    0
                } else if p.row - top > self.height - 1 {
                    self.height - 1
                } else {
                    p.row - top
                };
                let col = if p.col < left {
                    0
                } else if p.col - left > self.width - 1 {
                    self.width - 1
                } else {
                    p.col - left
                };
                self.get(PixelPos::new(row, col))
            },
            ExtendValue::Given(v) => {
                if p.row >= top && p.row - top < self.height && p.col >= left && p.col - left
                    < self.width {
                    self.get(PixelPos::new(p.row - top, p.col - left))
                } else {
                    v
                }
            },
        }
    }

    /// The matrix with `left` columns added on the left, `top` rows on the top,
    /// `right` columns on the right and `bottom` rows on the bottom, filled as
    /// `with` says.
    pub fn extended(&self, with: ExtendValue<T>, left: usize, top: usize, right: usize, bottom: usize) -> (r: Self)
        requires
            self.wf(),
            with is Closest ==> self.cols() >= 1 && self.rows() >= 1,
            left + self.cols() + right <= usize::MAX,
            top + self.rows() + bottom <= usize::MAX,
            (left + self.cols() + right) * (top + self.rows() + bottom) <= usize::MAX,
        ensures
            self.is_extension(r, with, left as int, top as int, right as int, bottom as int),
    {
        let this: &Self = self;
        let f = |p: PixelPos| -> (v: T)
            requires
                this.wf(),
                with is Closest ==> this.cols() >= 1 && this.rows() >= 1,
            ensures
                v == this.ext_at(with, top as int, left as int, p),
            { this.extended_value_at(with, top, left, p) };
        Self::generate(left + self.width + right, top + self.height + bottom, f)
    }

    /// The matrix extended by half a window on each side, as a window filter of
    /// `filter_w` columns and `filter_h` rows needs it.
    pub fn extended_for_window_filter(&self, filter_w: usize, filter_h: usize, with: ExtendValue<T>) -> (r: Self)
        requires
            self.wf(),
            with is Closest ==> self.cols() >= 1 && self.rows() >= 1,
            filter_w / 2 * 2 + self.cols() <= usize::MAX,
            filter_h / 2 * 2 + self.rows() <= usize::MAX,
            (filter_w / 2 * 2 + self.cols()) * (filter_h / 2 * 2 + self.rows()) <= usize::MAX,
        ensures
            r.wf(),
            r.cols() == filter_w / 2 * 2 + self.cols(),
            r.rows() == filter_h / 2 * 2 + self.rows(),
            forall|p: PixelPos| r.fits_spec(p) ==> #[trigger] r.at(p) == self.ext_at(with, (filter_h / 2) as int, (filter_w / 2) as int, p),
    {
        let left = filter_w / 2;
        let top = filter_h / 2;
        let right = left;
        let bottom = top;
        self.extended(with, left, top, right, bottom)
    }
}

impl PixelsArea {
    /// The area of all positions of a matrix.
    pub fn size_of<T: Copy>(matrix: &Matrix2D<T>) -> (r: PixelsArea)
        requires
            matrix.cols() >= 1,
            matrix.rows() >= 1,
        ensures
            r.wf(),
            r.tl() == pos(0, 0),
            r.br() == pos(matrix.rows() - 1, matrix.cols() - 1),
    {
        PixelsArea::new(PixelPos::new(0, 0), PixelPos::new(matrix.h() - 1, matrix.w() - 1))
    }
}

impl<T: Copy> Matrix2D<T> {
    /// A matrix of the same size holding the same values.
    pub fn duplicate(&self) -> (r: Self)
        requires
            self.wf(),
        ensures
            r.wf(),
            r.cols() == self.cols(),
            r.rows() == self.rows(),
            forall|p: PixelPos| r.fits_spec(p) ==> #[trigger] r.at(p) == self.at(p),
    {
        let this: &Self = self;
        let f = |p: PixelPos| -> (v: T)
            requires
                this.wf(),
                this.fits_spec(p),
            ensures
                v == this.at(p),
            { this.get(p) };
        proof {
            lemma_mul_is_commutative(self.cols() as int, self.rows() as int);
        }
        Self::generate(self.width, self.height, f)
    }

    /// A matrix of the same size, each value the image of the value at the same
    /// position by `f`.
    pub fn map<U: Copy, F: Fn(T) -> U>(&self, f: F) -> (r: Matrix2D<U>)
        requires
            self.wf(),
            forall|v: T| call_requires(f, (v,)),
        ensures
            r.wf(),
            r.cols() == self.cols(),
            r.rows() == self.rows(),
            forall|p: PixelPos| r.fits_spec(p) ==> call_ensures(f, (self.at(p),), #[trigger] r.at(p)),
    {
        let this: &Self = self;
        let fr: &F = &f;
        let g = |p: PixelPos| -> (v: U)
            requires
                this.wf(),
                this.fits_spec(p),
                forall|v: T| call_requires(*fr, (v,)),
            ensures
                call_ensures(*fr, (this.at(p),), v),
            { fr(this.get(p)) };
        proof {
            lemma_mul_is_commutative(self.cols() as int, self.rows() as int);
        }
        Matrix2D::generate(self.width, self.height, g)
    }
}

impl<T: Copy> Matrix2D<T> {
    /// Each value of an area replaced by what `tr` gives for it and its position; the
    /// values outside the area stay.
    pub fn scalar_transform_self_area<F: Fn(T, PixelPos) -> T>(&mut self, area: PixelsArea, tr: F)
        requires
            old(self).wf(),
            old(self).holds_area(area),
            forall|v: T, p: PixelPos| call_requires(tr, (v, p)),
        ensures
            final(self).wf(),
            final(self).cols() == old(self).cols(),
            final(self).rows() == old(self).rows(),
            forall|p: PixelPos|
                final(self).fits_spec(p) ==> if area.has(p) {
                    call_ensures(tr, (old(self).at(p), p), #[trigger] final(self).at(p))
                } else {
                    final(self).at(p) == old(self).at(p)
                },
    {
        let this: &Self = self;
        let fr: &F = &tr;
        let g = |p: PixelPos| -> (v: T)
            requires
                this.wf(),
                this.fits_spec(p),
                forall|v: T, q: PixelPos| call_requires(*fr, (v, q)),
            ensures
                if area.has(p) {
                    call_ensures(*fr, (this.at(p), p), v)
                } else {
                    v == this.at(p)
                },
            {
                let old_value = this.get(p);
                if area.contains(p) {
                    fr(old_value, p)
                } else {
                    old_value
                }
            };
        proof {
            lemma_mul_is_commutative(self.cols() as int, self.rows() as int);
        }
        let res = Matrix2D::generate(self.width, self.height, g);
        *self = res;
    }

    /// A walk over the rectangle from `from` to `to_excluded`, as
    /// `Matrix2DIterator::for_rect_area` gives it.
    pub fn get_area_iter(&self, from: PixelPos, to_excluded: PixelPos) -> (r: Matrix2DIterator)
        requires
            from.row < to_excluded.row,
            from.col < to_excluded.col,
        ensures
            r.tl() == from,
            r.br_excluded() == to_excluded,
            r.index() == 0,
            r.valid(),
    {
        Matrix2DIterator::for_rect_area(from, to_excluded)
    }

    /// A walk over the whole matrix, as `Matrix2DIterator::for_full` gives it.
    pub fn get_iterator(&self) -> (r: Matrix2DIterator)
        ensures
            r.tl() == pos(0, 0),
            r.br_excluded() == pos(self.rows() as int, self.cols() as int),
            r.index() == 0,
            self.rows() > 0 && self.cols() > 0 ==> r.valid(),
    {
        Matrix2DIterator::for_full(self)
    }

    /// A matrix of `height` rows and `width` columns holding the default value, as
    /// `empty_with_size` makes it.
    pub fn empty(width: usize, height: usize) -> (r: Self) where T: Default
        requires
            width * height <= usize::MAX,
        ensures
            r.wf(),
            r.cols() == width,
            r.rows() == height,
            forall|p: PixelPos| r.fits_spec(p) ==> call_ensures(T::default, (), #[trigger] r.at(p)),
    {
        Self::empty_with_size(width, height)
    }
}

impl Matrix2D<u8> {
    /// Whether two matrices have the same size and the same values.
    pub fn has_the_same_values_as(&self, other: &Matrix2D<u8>) -> (r: bool)
        requires
            self.wf(),
            other.wf(),
        ensures
            r == (self.cols() == other.cols() && self.rows() == other.rows() && self.values()
                == other.values()),
    {
        if self.width != other.width {
            return false;
        }
        if self.height != other.height {
            return false;
        }
        let n = self.pixels.len();
        let mut i: usize = 0;
        while i < n
            invariant
                n == self.values().len(),
                n == other.values().len(),
                i <= n,
                forall|j: int| 0 <= j < i ==> self.values()[j] == other.values()[j],
            decreases n - i,
        {
            if self.pixels[i] != other.pixels[i] {
                return false;
            }
            i = i + 1;
        }
        proof {
            assert(self.values() =~= other.values());
        }
        true
    }

    /// The largest value of a matrix that is not empty.
    pub fn get_max(&self) -> (r: u8)
        requires
            self.wf(),
            self.values().len() > 0,
        ensures
            exists|i: int| 0 <= i < self.values().len() && self.values()[i] == r,
            forall|i: int| 0 <= i < self.values().len() ==> self.values()[i] <= r,
    {
        let n = self.pixels.len();
        let mut max = self.pixels[0];
        let mut i: usize = 1;
        while i < n
            invariant
                n == self.values().len(),
                1 <= i <= n,
                exists|k: int| 0 <= k < i && self.values()[k] == max,
                forall|k: int| 0 <= k < i ==> self.values()[k] <= max,
            decreases n - i,
        {
            if self.pixels[i] > max {
                max = self.pixels[i];
            }
            i = i + 1;
        }
        max
    }
}

} // verus!
