use vstd::prelude::*;
use crate::filter::MedianFilter;
use crate::filter_option::ImgChannel;
use crate::img::Img;
use crate::matrix2d::{ExtendValue, Matrix2D};
use crate::pixel_pos::PixelPos;

verus! {

/// The matrix with a border of `left`, `top`, `right` and `bottom` added, filled as
/// `with` says; see `Matrix2D::extended`.
pub fn extend_matrix<T: Copy>(
    mat_init: &Matrix2D<T>,
    with: ExtendValue<T>,
    left: usize,
    top: usize,
    right: usize,
    bottom: usize,
) -> (r: Matrix2D<T>)
    requires
        mat_init.wf(),
        with is Closest ==> mat_init.cols() >= 1 && mat_init.rows() >= 1,
        left + mat_init.cols() + right <= usize::MAX,
        top + mat_init.rows() + bottom <= usize::MAX,
        (left + mat_init.cols() + right) * (top + mat_init.rows() + bottom) <= usize::MAX,
    ensures
        mat_init.is_extension(r, with, left as int, top as int, right as int, bottom as int),
{
    mat_init.extended(with, left, top, right, bottom)
}

/// The layer extended by half the window of a median filter on each side, filled
/// with the filter's border value.
pub fn extend_matrix_for_window_filter(mat_init: &Matrix2D<u8>, filter: &MedianFilter) -> (r: Matrix2D<u8>)
    requires
        mat_init.wf(),
        filter.extend_spec() is Closest ==> mat_init.cols() >= 1 && mat_init.rows() >= 1,
        filter.size_spec().width / 2 * 2 + mat_init.cols() <= usize::MAX,
        filter.size_spec().height / 2 * 2 + mat_init.rows() <= usize::MAX,
        (filter.size_spec().width / 2 * 2 + mat_init.cols()) * (filter.size_spec().height / 2 * 2
            + mat_init.rows()) <= usize::MAX,
    ensures
        r.wf(),
        r.cols() == filter.size_spec().width / 2 * 2 + mat_init.cols(),
        r.rows() == filter.size_spec().height / 2 * 2 + mat_init.rows(),
        forall|p: PixelPos|
            r.fits_spec(p) ==> #[trigger] r.at(p) == mat_init.ext_at(
                filter.extend_spec(),
                (filter.size_spec().height / 2) as int,
                (filter.size_spec().width / 2) as int,
                p,
            ),
{
    mat_init.extended_for_window_filter(filter.w(), filter.h(), filter.get_extend_value())
}

/// The image with a border added to each layer; see `Img::extended`. The alpha
/// layer is made wholly `opaque`.
pub fn copy_with_extended_borders<T: Copy>(
    img: &Img<T>,
    with: ExtendValue<T>,
    left: usize,
    top: usize,
    right: usize,
    bottom: usize,
    opaque: T,
) -> (r: Img<T>)
    requires
        img.wf(),
        with is Closest ==> img.cols() >= 1 && img.rows() >= 1,
        left + img.cols() + right <= usize::MAX,
        top + img.rows() + bottom <= usize::MAX,
        (left + img.cols() + right) * (top + img.rows() + bottom) <= usize::MAX,
    ensures
        r.wf(),
        r.depth() == img.depth(),
        r.cols() == left + img.cols() + right,
        r.rows() == top + img.rows() + bottom,
        r.layer_seq().len() == img.layer_seq().len(),
        forall|k: int|
            0 <= k < r.layer_seq().len() ==> (#[trigger] r.layer_seq()[k]).channel_spec()
                == img.layer_seq()[k].channel_spec(),
        forall|k: int, p: PixelPos|
            0 <= k < r.layer_seq().len() && r.layer_at(k).fits_spec(p) ==> #[trigger] r.layer_at(k).at(p)
                == if img.layer_seq()[k].channel_spec() == ImgChannel::A {
                opaque
            } else {
                img.layer_at(k).ext_at(with, top as int, left as int, p)
            },
{
    img.extended(with, left, top, right, bottom, opaque)
}

} // verus!
