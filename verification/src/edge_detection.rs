use vstd::prelude::*;
use crate::filter::Rgb2Gray;
use crate::filter_option::{FilterWindowSize, ParseError};
use crate::img::{ColorDepth, Img};
use crate::matrix2d::ExtendValue;
use crate::pixel_pos::{PixelPos, pos};
use crate::settings::check_no_settings;
use crate::text_check::blank;

verus! {

/// Canny's edge detector: a gray image is blurred by a Gaussian window, its
/// derivatives are taken with the Sobel kernels, and the gradient is thinned and
/// thresholded. The steps on real values are done by the caller; the detector holds
/// its integer configuration and the choices between neighbours.
#[derive(Clone, Copy, Debug)]
pub struct CannyEdgeDetection {
    blur_size: FilterWindowSize,
    blur_extend: ExtendValue<u8>,
}

/// The direction of the gradient at a pixel, in one of eight sectors of 45 degrees
/// around the axes and the diagonals, rows counted downwards.
#[derive(Clone, Copy, Debug, PartialEq, Eq, Structural)]
pub enum GradientSector {
    TopLeft,
    Top,
    TopRight,
    Right,
    DownRight,
    Down,
    DownLeft,
    Left,
}

impl CannyEdgeDetection {
    pub closed spec fn blur_size_spec(self) -> FilterWindowSize {
        self.blur_size
    }

    pub closed spec fn blur_extend_spec(self) -> ExtendValue<u8> {
        self.blur_extend
    }

    /// The detector with a 5x5 Gaussian blur that extends the border by the closest value.
    pub fn new() -> (r: Self)
        ensures
            r.blur_size_spec() == (FilterWindowSize { width: 5, height: 5 }),
            r.blur_extend_spec() == ExtendValue::<u8>::Closest,
    {
        CannyEdgeDetection { blur_size: FilterWindowSize::new(5, 5), blur_extend: ExtendValue::Closest }
    }

    /// The window of the Gaussian blur.
    pub fn blur_window(&self) -> (r: FilterWindowSize)
        ensures
            r == self.blur_size_spec(),
    {
        self.blur_size
    }

    /// The border value of the Gaussian blur.
    pub fn blur_extend_value(&self) -> (r: ExtendValue<u8>)
        ensures
            r == self.blur_extend_spec(),
    {
        self.blur_extend
    }

    /// The Sobel kernels of the derivatives by columns and by rows, 3x3, row by row.
    pub fn derivative_kernels(&self) -> (r: ([i8; 9], [i8; 9]))
        ensures
            r.0@ == seq![-1i8, 0i8, 1i8, -2i8, 0i8, 2i8, -1i8, 0i8, 1i8],
            r.1@ == seq![1i8, 2i8, 1i8, 0i8, 0i8, 0i8, -1i8, -2i8, -1i8],
    {
        let dx: [i8; 9] = [-1, 0, 1, -2, 0, 2, -1, 0, 1];
        let dy: [i8; 9] = [1, 2, 1, 0, 0, 0, -1, -2, -1];
        proof {
            assert(dx@ =~= seq![-1i8, 0i8, 1i8, -2i8, 0i8, 2i8, -1i8, 0i8, 1i8]);
            assert(dy@ =~= seq![1i8, 2i8, 1i8, 0i8, 0i8, 0i8, -1i8, -2i8, -1i8]);
        }
        (dx, dy)
    }

    /// The steps of the detection: the graying of a color image (one per pixel), then
    /// one per row for the blur, each derivative, the angles and the thinning, three
    /// per row for the gradient and two per row for the thresholds.
    pub fn get_steps_num<T: Copy>(&self, img: &Img<T>) -> (r: usize)
        requires
            img.rows() * img.cols() + 10 * img.rows() <= usize::MAX,
        ensures
            r == match img.depth() {
                ColorDepth::L8 | ColorDepth::La8 => 0,
                ColorDepth::Rgb8 | ColorDepth::Rgba8 => img.cols() * img.rows(),
            } + 10 * img.rows(),
    {
        let rows_count = img.h();
        let gray_steps: usize = match img.color_depth() {
            ColorDepth::L8 | ColorDepth::La8 => 0,
            ColorDepth::Rgb8 | ColorDepth::Rgba8 => {
                let g = Rgb2Gray {};
                g.get_steps_num(img)
            },
        };
        gray_steps + rows_count + rows_count + rows_count + 3 * rows_count + rows_count + rows_count + 2
            * rows_count
    }

    pub fn get_save_name(&self) -> (r: &'static str)
        ensures
            r == "CannyEdgeDetection",
    {
        "CannyEdgeDetection"
    }

    /// The detector has no settings: a text of white space only is accepted, any
    /// other is refused. The detector does not change.
    pub fn try_set_from_string(&mut self, string: &str) -> (r: Result<(), ParseError>)
        ensures
            blank(string@) ==> r is Ok,
            !blank(string@) ==> r == Err::<(), ParseError>(ParseError::NoSettings),
            *final(self) == *old(self),
    {
        check_no_settings(string)
    }

    /// The detector has no settings to write.
    pub fn params_to_bytes(&self) -> (r: Option<Vec<u8>>)
        ensures
            r is None,
    {
        None
    }

    /// The two neighbours a pixel of the gradient is compared with when the edges are
    /// thinned: the one the gradient points to and the one opposite. The pixel is not
    /// on the border.
    pub fn suppression_neighbours(p: PixelPos, sector: GradientSector) -> (r: (PixelPos, PixelPos))
        requires
            1 <= p.row < usize::MAX,
            1 <= p.col < usize::MAX,
        ensures
            r == match sector {
                GradientSector::TopLeft => (pos(p.row - 1, p.col - 1), pos(p.row + 1, p.col + 1)),
                GradientSector::Top => (pos(p.row - 1, p.col as int), pos(p.row + 1, p.col as int)),
                GradientSector::TopRight => (pos(p.row - 1, p.col + 1), pos(p.row + 1, p.col - 1)),
                GradientSector::Right => (pos(p.row as int, p.col - 1), pos(p.row as int, p.col + 1)),
                GradientSector::DownRight => (pos(p.row + 1, p.col + 1), pos(p.row - 1, p.col - 1)),
                GradientSector::Down => (pos(p.row + 1, p.col as int), pos(p.row - 1, p.col as int)),
                GradientSector::DownLeft => (pos(p.row + 1, p.col - 1), pos(p.row - 1, p.col + 1)),
                GradientSector::Left => (pos(p.row as int, p.col - 1), pos(p.row as int, p.col + 1)),
            },
    {
        match sector {
            GradientSector::TopLeft => (p.upper_lefter(), p.downer_righter()),
            GradientSector::Top => (p.upper(), p.downer()),
            GradientSector::TopRight => (p.upper_righter(), p.downer_lefter()),
            GradientSector::Right => (p.lefter(), p.righter()),
            GradientSector::DownRight => (p.downer_righter(), p.upper_lefter()),
            GradientSector::Down => (p.downer(), p.upper()),
            GradientSector::DownLeft => (p.downer_lefter(), p.upper_righter()),
            GradientSector::Left => (p.lefter(), p.righter()),
        }
    }
}

impl Default for CannyEdgeDetection {
    fn default() -> (r: Self)
        ensures
            r.blur_size_spec() == (FilterWindowSize { width: 5, height: 5 }),
            r.blur_extend_spec() == ExtendValue::<u8>::Closest,
    {
        CannyEdgeDetection::new()
    }
}

} // verus!
