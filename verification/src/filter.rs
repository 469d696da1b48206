use vstd::prelude::*;
use crate::pixel_pos::{PixelPos, pos};
use crate::pixels_iter::{rect_positions, lemma_rect_covers};
use crate::filter_option::{CutBrightnessRange, FilterWindowSize, ImgChannel, ValueRepaceWith};
use crate::img::{ColorDepth, Img, ImgLayer, depth_channels};
use crate::matrix2d::{ExtendValue, Matrix2D};
use crate::pixel_ops::{
    count_histogram, count_le, cumulate_histogram, cut_brightness_value, cut_value, lemma_count_le_bounds,
    lemma_count_le_step, median_of_window, prefix_sum, window_median, count_eq,
};

verus! {

/// Walks the positions of a filter window, row by row from `(0, 0)`.
pub struct FilterIterator {
    width: usize,
    height: usize,
    cur_pos: PixelPos,
}

impl FilterIterator {
    pub closed spec fn cols(self) -> nat {
        self.width as nat
    }

    pub closed spec fn rows(self) -> nat {
        self.height as nat
    }

    /// The positions of the window, in order.
    pub open spec fn positions(self) -> Seq<PixelPos> {
        rect_positions(0, 0, self.cols() as int, self.rows() as int)
    }

    /// How many positions have been given so far.
    pub closed spec fn index(self) -> int {
        self.cur_pos.row * self.width + self.cur_pos.col
    }

    pub closed spec fn valid(self) -> bool {
        if self.width == 0 || self.height == 0 {
            self.cur_pos == pos(0, 0)
        } else {
            &&& self.cur_pos.col < self.width
            &&& self.cur_pos.row <= self.height
            &&& self.cur_pos.row == self.height ==> self.cur_pos.col == 0
        }
    }

    /// The walk over a window of `width` columns and `height` rows.
    pub fn for_window(width: usize, height: usize) -> (r: Self)
        ensures
            r.cols() == width,
            r.rows() == height,
            r.index() == 0,
            r.valid(),
            r.positions().len() == width * height,
    {
        let r = FilterIterator { width, height, cur_pos: PixelPos::new(0, 0) };
        proof {
            vstd::arithmetic::mul::lemma_mul_basics(width as int);
        }
        r
    }

    /// Whether a position lies in the window.
    pub fn fits(&self, pos: PixelPos) -> (r: bool)
        ensures
            r == (pos.col < self.cols() && pos.row < self.rows()),
    {
        pos.col < self.width && pos.row < self.height
    }

    /// Gives the next position of the window, or `None` once every position was given.
    pub fn next(&mut self) -> (r: Option<PixelPos>)
        requires
            old(self).valid(),
        ensures
            final(self).valid(),
            final(self).cols() == old(self).cols(),
            final(self).rows() == old(self).rows(),
            final(self).index() <= final(self).positions().len(),
            old(self).index() < old(self).positions().len() ==> {
                &&& r == Some(old(self).positions()[old(self).index()])
                &&& final(self).index() == old(self).index() + 1
            },
            old(self).index() >= old(self).positions().len() ==> {
                &&& r is None
                &&& final(self).index() == old(self).index()
            },
    {
        let ghost w = self.width as int;
        let ghost h = self.height as int;
        let ghost a = self.cur_pos.row as int;
        let ghost b = self.cur_pos.col as int;
        let curr = self.cur_pos;
        if !self.fits(curr) {
            proof {
                if w == 0 || h == 0 {
                    vstd::arithmetic::mul::lemma_mul_basics(w);
                    vstd::arithmetic::mul::lemma_mul_basics(h);
                    assert(a * w + b == 0);
                    assert(w * h == 0);
                } else {
                    assert(a * w + b == w * h) by (nonlinear_arith)
                        requires
                            a == h,
                            b == 0,
                    ;
                }
            }
            return None;
        }
        proof {
            lemma_rect_covers(0, 0, w, h, a, b);
        }
        if self.cur_pos.col + 1 < self.width {
            self.cur_pos.col = self.cur_pos.col + 1;
        } else {
            self.cur_pos.col = 0;
            self.cur_pos.row = self.cur_pos.row + 1;
            proof {
                assert((a + 1) * w == a * w + w) by (nonlinear_arith);
            }
        }
        Some(curr)
    }
}

/// The number of layers of a color depth that hold colors: all but alpha.
pub open spec fn color_layers(depth: ColorDepth) -> nat {
    match depth {
        ColorDepth::L8 => 1,
        ColorDepth::La8 => 1,
        ColorDepth::Rgb8 => 3,
        ColorDepth::Rgba8 => 3,
    }
}

pub(crate) fn color_layers_count<T: Copy>(img: &Img<T>) -> (r: usize)
    ensures
        r == color_layers(img.depth()),
{
    match img.color_depth() {
        ColorDepth::L8 => img.d(),
        ColorDepth::La8 => img.d() - 1,
        ColorDepth::Rgb8 => img.d(),
        ColorDepth::Rgba8 => img.d() - 1,
    }
}

/// The value a type starts with: what `T::default()` gives.
pub open spec fn is_default<T: Default>(v: T) -> bool {
    call_ensures(T::default, (), v)
}

/// Keeps one channel (and alpha) of an image and clears the others.
#[derive(Clone, Copy, Debug)]
pub struct ExtractChannel {
    channel: ImgChannel,
}

impl ExtractChannel {
    pub closed spec fn kept(self) -> ImgChannel {
        self.channel
    }

    pub fn new(channel: ImgChannel) -> (r: Self)
        ensures
            r.kept() == channel,
    {
        ExtractChannel { channel }
    }

    pub fn channel(&self) -> (r: ImgChannel)
        ensures
            r == self.kept(),
    {
        self.channel
    }

    /// One progress step per layer.
    pub fn get_steps_num<T: Copy>(&self, img: &Img<T>) -> (r: usize)
        ensures
            r == depth_channels(img.depth()).len(),
    {
        img.d()
    }

    pub fn get_save_name(&self) -> (r: &'static str)
        ensures
            r == "ExtractChannel",
    {
        "ExtractChannel"
    }

    /// The image with every layer that holds neither the kept channel nor alpha
    /// cleared to the default value.
    pub fn process<T: Copy + Default>(&self, img: &Img<T>) -> (r: Img<T>)
        requires
            img.wf(),
        ensures
            r.wf(),
            r.depth() == img.depth(),
            r.cols() == img.cols(),
            r.rows() == img.rows(),
            r.layer_seq().len() == img.layer_seq().len(),
            forall|k: int|
                0 <= k < r.layer_seq().len() ==> (#[trigger] r.layer_seq()[k]).channel_spec()
                    == img.layer_seq()[k].channel_spec(),
            forall|k: int, p: PixelPos|
                0 <= k < r.layer_seq().len() && r.layer_at(k).fits_spec(p) ==> {
                    let ch = img.layer_seq()[k].channel_spec();
                    if ch == self.kept() || ch == ImgChannel::A {
                        #[trigger] r.layer_at(k).at(p) == img.layer_at(k).at(p)
                    } else {
                        is_default(r.layer_at(k).at(p))
                    }
                },
    {
        let d = img.layers().len();
        let mut layers: Vec<ImgLayer<T>> = Vec::new();
        let mut k: usize = 0;
        while k < d
            invariant
                img.wf(),
                d == img.layer_seq().len(),
                k <= d,
                layers@.len() == k,
                forall|i: int|
                    0 <= i < k ==> {
                        &&& (#[trigger] layers@[i]).mat_spec().wf()
                        &&& layers@[i].mat_spec().cols() == img.cols()
                        &&& layers@[i].mat_spec().rows() == img.rows()
                        &&& layers@[i].channel_spec() == img.layer_seq()[i].channel_spec()
                        &&& forall|p: PixelPos|
                            layers@[i].mat_spec().fits_spec(p) ==> {
                                let ch = img.layer_seq()[i].channel_spec();
                                if ch == self.kept() || ch == ImgChannel::A {
                                    #[trigger] layers@[i].mat_spec().at(p) == img.layer_at(i).at(p)
                                } else {
                                    is_default(layers@[i].mat_spec().at(p))
                                }
                            }
                    },
            decreases d - k,
        {
            let layer = img.layer(k);
            let ch = layer.channel();
            let mat = if ch == self.channel || ch == ImgChannel::A {
                layer.matrix().duplicate()
            } else {
                proof {
                    vstd::arithmetic::mul::lemma_mul_is_commutative(img.cols() as int, img.rows() as int);
                }
                Matrix2D::empty_with_size(layer.w(), layer.h())
            };
            layers.push(ImgLayer::new(mat, ch));
            k = k + 1;
        }
        img.with_layers(layers)
    }
}

impl Default for ExtractChannel {
    fn default() -> (r: Self)
        ensures
            r.kept() == ImgChannel::R,
    {
        ExtractChannel::new(ImgChannel::R)
    }
}

/// Clears one channel of an image.
#[derive(Clone, Copy, Debug)]
pub struct NeutralizeChannel {
    channel: ImgChannel,
}

/// The place of the first layer that holds a channel, or the number of layers.
pub open spec fn first_with_channel<T: Copy>(layers: Seq<ImgLayer<T>>, ch: ImgChannel) -> nat
    decreases layers.len(),
{
    if layers.len() == 0 {
        0
    } else if layers[0].channel_spec() == ch {
        0
    } else {
        1 + first_with_channel(layers.drop_first(), ch)
    }
}

proof fn lemma_first_with_channel<T: Copy>(layers: Seq<ImgLayer<T>>, ch: ImgChannel, i: int)
    requires
        0 <= i <= layers.len(),
        forall|j: int| 0 <= j < i ==> (#[trigger] layers[j]).channel_spec() != ch,
        i == layers.len() || layers[i].channel_spec() == ch,
    ensures
        first_with_channel(layers, ch) == i,
    decreases layers.len(),
{
    if layers.len() > 0 && i > 0 {
        assert(layers[0].channel_spec() != ch);
        assert forall|j: int| 0 <= j < i - 1 implies (#[trigger] layers.drop_first()[j]).channel_spec()
            != ch by {
            assert(layers.drop_first()[j] == layers[j + 1]);
        }
        lemma_first_with_channel(layers.drop_first(), ch, i - 1);
    }
}

impl NeutralizeChannel {
    pub closed spec fn cleared(self) -> ImgChannel {
        self.channel
    }

    pub fn new(channel: ImgChannel) -> (r: Self)
        ensures
            r.cleared() == channel,
    {
        NeutralizeChannel { channel }
    }

    pub fn channel(&self) -> (r: ImgChannel)
        ensures
            r == self.cleared(),
    {
        self.channel
    }

    /// A single progress step.
    pub fn get_steps_num<T: Copy>(&self, img: &Img<T>) -> (r: usize)
        ensures
            r == 1,
    {
        1
    }

    pub fn get_save_name(&self) -> (r: &'static str)
        ensures
            r == "NeutralizeChannel",
    {
        "NeutralizeChannel"
    }

    /// The image with the first layer that holds the cleared channel cleared to the
    /// default value; the other layers stay as they are.
    pub fn process<T: Copy + Default>(&self, img: &Img<T>) -> (r: Img<T>)
        requires
            img.wf(),
        ensures
            r.wf(),
            r.depth() == img.depth(),
            r.cols() == img.cols(),
            r.rows() == img.rows(),
            r.layer_seq().len() == img.layer_seq().len(),
            forall|k: int|
                0 <= k < r.layer_seq().len() ==> (#[trigger] r.layer_seq()[k]).channel_spec()
                    == img.layer_seq()[k].channel_spec(),
            forall|k: int, p: PixelPos|
                0 <= k < r.layer_seq().len() && r.layer_at(k).fits_spec(p) ==> {
                    if k == first_with_channel(img.layer_seq(), self.cleared()) {
                        is_default(#[trigger] r.layer_at(k).at(p))
                    } else {
                        r.layer_at(k).at(p) == img.layer_at(k).at(p)
                    }
                },
    {
        let d = img.layers().len();
        let mut found = false;
        let mut layers: Vec<ImgLayer<T>> = Vec::new();
        let mut k: usize = 0;
        while k < d
            invariant
                img.wf(),
                d == img.layer_seq().len(),
                k <= d,
                layers@.len() == k,
                found <==> exists|j: int| 0 <= j < k && (#[trigger] img.layer_seq()[j]).channel_spec()
                    == self.cleared(),
                !found ==> forall|j: int| 0 <= j < k ==> (#[trigger] img.layer_seq()[j]).channel_spec()
                    != self.cleared(),
                found ==> first_with_channel(img.layer_seq(), self.cleared()) < k,
                forall|i: int|
                    0 <= i < k ==> {
                        &&& (#[trigger] layers@[i]).mat_spec().wf()
                        &&& layers@[i].mat_spec().cols() == img.cols()
                        &&& layers@[i].mat_spec().rows() == img.rows()
                        &&& layers@[i].channel_spec() == img.layer_seq()[i].channel_spec()
                        &&& forall|p: PixelPos|
                            layers@[i].mat_spec().fits_spec(p) ==> {
                                if i == first_with_channel(img.layer_seq(), self.cleared()) {
                                    is_default(#[trigger] layers@[i].mat_spec().at(p))
                                } else {
                                    layers@[i].mat_spec().at(p) == img.layer_at(i).at(p)
                                }
                            }
                    },
            decreases d - k,
        {
            let layer = img.layer(k);
            let ch = layer.channel();
            if !found && ch == self.channel {
                proof {
                    lemma_first_with_channel(img.layer_seq(), self.cleared(), k as int);
                }
                found = true;
                proof {
                    vstd::arithmetic::mul::lemma_mul_is_commutative(img.cols() as int, img.rows() as int);
                }
                let mat = Matrix2D::empty_with_size(layer.w(), layer.h());
                layers.push(ImgLayer::new(mat, ch));
            } else {
                proof {
                    if !found {
                        assert(first_with_channel(img.layer_seq(), self.cleared()) != k) by {
                            if first_with_channel(img.layer_seq(), self.cleared()) == k {
                                lemma_first_not_before(img.layer_seq(), self.cleared(), k as int);
                            }
                        }
                    }
                }
                let mat = layer.matrix().duplicate();
                layers.push(ImgLayer::new(mat, ch));
            }
            k = k + 1;
        }
        img.with_layers(layers)
    }
}

proof fn lemma_first_not_before<T: Copy>(layers: Seq<ImgLayer<T>>, ch: ImgChannel, k: int)
    requires
        0 <= k < layers.len(),
        first_with_channel(layers, ch) == k,
    ensures
        layers[k].channel_spec() == ch,
    decreases layers.len(),
{
    if layers[0].channel_spec() != ch {
        lemma_first_not_before(layers.drop_first(), ch, k - 1);
    }
}

impl Default for NeutralizeChannel {
    fn default() -> (r: Self)
        ensures
            r.cleared() == ImgChannel::R,
    {
        NeutralizeChannel::new(ImgChannel::R)
    }
}

/// Cuts away the brightness outside a range, as `cut_value` says.
#[derive(Clone, Copy, Debug)]
pub struct CutBrightness {
    cut_range: CutBrightnessRange,
    replace_with: ValueRepaceWith,
}

impl CutBrightness {
    pub closed spec fn range_spec(self) -> CutBrightnessRange {
        self.cut_range
    }

    pub closed spec fn replace_spec(self) -> ValueRepaceWith {
        self.replace_with
    }

    pub fn new(cut_range: CutBrightnessRange, replace_with: ValueRepaceWith) -> (r: Self)
        ensures
            r.range_spec() == cut_range,
            r.replace_spec() == replace_with,
    {
        CutBrightness { cut_range, replace_with }
    }

    pub fn cut_range(&self) -> (r: CutBrightnessRange)
        ensures
            r == self.range_spec(),
    {
        self.cut_range
    }

    pub fn replace_with(&self) -> (r: ValueRepaceWith)
        ensures
            r == self.replace_spec(),
    {
        self.replace_with
    }

    /// One progress step per pixel of each color layer.
    pub fn get_steps_num<T: Copy>(&self, img: &Img<T>) -> (r: usize)
        requires
            color_layers(img.depth()) * (img.rows() * img.cols()) <= usize::MAX,
        ensures
            r == color_layers(img.depth()) * (img.rows() * img.cols()),
    {
        proof {
            vstd::arithmetic::mul::lemma_mul_inequality(1, color_layers(img.depth()) as int, (img.rows() * img.cols()) as int);
        }
        let pixels_per_layer = img.h() * img.w();
        color_layers_count(img) * pixels_per_layer
    }

    pub fn get_save_name(&self) -> (r: &'static str)
        ensures
            r == "CutBrightness",
    {
        "CutBrightness"
    }

    /// An alpha layer stays as it is; any other layer has each value cut.
    pub fn process_layer(&self, layer: &ImgLayer<u8>) -> (r: ImgLayer<u8>)
        requires
            layer.mat_spec().wf(),
        ensures
            r.channel_spec() == layer.channel_spec(),
            r.mat_spec().wf(),
            r.mat_spec().cols() == layer.mat_spec().cols(),
            r.mat_spec().rows() == layer.mat_spec().rows(),
            forall|p: PixelPos|
                r.mat_spec().fits_spec(p) ==> #[trigger] r.mat_spec().at(p) == if layer.channel_spec()
                    == ImgChannel::A {
                    layer.mat_spec().at(p)
                } else {
                    cut_value(layer.mat_spec().at(p), self.range_spec(), self.replace_spec())
                },
    {
        if layer.channel() == ImgChannel::A {
            return ImgLayer::new(layer.matrix().duplicate(), layer.channel());
        }
        let range = self.cut_range;
        let replace = self.replace_with;
        let f = |v: u8| -> (c: u8)
            ensures
                c == cut_value(v, range, replace),
            { cut_brightness_value(v, range, replace) };
        let mat = layer.matrix().map(f);
        ImgLayer::new(mat, layer.channel())
    }

    /// Each layer processed by `process_layer`.
    pub fn process(&self, img: &Img<u8>) -> (r: Img<u8>)
        requires
            img.wf(),
        ensures
            r.wf(),
            r.depth() == img.depth(),
            r.cols() == img.cols(),
            r.rows() == img.rows(),
            r.layer_seq().len() == img.layer_seq().len(),
            forall|k: int|
                0 <= k < r.layer_seq().len() ==> (#[trigger] r.layer_seq()[k]).channel_spec()
                    == img.layer_seq()[k].channel_spec(),
            forall|k: int, p: PixelPos|
                0 <= k < r.layer_seq().len() && r.layer_at(k).fits_spec(p) ==> #[trigger] r.layer_at(k).at(p)
                    == if img.layer_seq()[k].channel_spec() == ImgChannel::A {
                    img.layer_at(k).at(p)
                } else {
                    cut_value(img.layer_at(k).at(p), self.range_spec(), self.replace_spec())
                },
    {
        let d = img.layers().len();
        let mut layers: Vec<ImgLayer<u8>> = Vec::new();
        let mut k: usize = 0;
        while k < d
            invariant
                img.wf(),
                d == img.layer_seq().len(),
                k <= d,
                layers@.len() == k,
                forall|i: int|
                    0 <= i < k ==> {
                        &&& (#[trigger] layers@[i]).mat_spec().wf()
                        &&& layers@[i].mat_spec().cols() == img.cols()
                        &&& layers@[i].mat_spec().rows() == img.rows()
                        &&& layers@[i].channel_spec() == img.layer_seq()[i].channel_spec()
                        &&& forall|p: PixelPos|
                            layers@[i].mat_spec().fits_spec(p) ==> #[trigger] layers@[i].mat_spec().at(p)
                                == if img.layer_seq()[i].channel_spec() == ImgChannel::A {
                                img.layer_at(i).at(p)
                            } else {
                                cut_value(img.layer_at(i).at(p), self.range_spec(), self.replace_spec())
                            }
                    },
            decreases d - k,
        {
            layers.push(self.process_layer(img.layer(k)));
            k = k + 1;
        }
        img.with_layers(layers)
    }
}

impl Default for CutBrightness {
    fn default() -> (r: Self)
        ensures
            r.range_spec() == (CutBrightnessRange { min: 100, max: 200 }),
            r.replace_spec() == (ValueRepaceWith { value: 0 }),
    {
        CutBrightness::new(CutBrightnessRange::new(100, 200), ValueRepaceWith::new(0))
    }
}

/// Turns a color image into a gray one.
#[derive(Clone, Copy, Debug)]
pub struct Rgb2Gray {}

impl Rgb2Gray {
    /// One progress step for a gray image, one per pixel for a color image.
    pub fn get_steps_num<T: Copy>(&self, img: &Img<T>) -> (r: usize)
        requires
            img.rows() * img.cols() <= usize::MAX,
        ensures
            r == match img.depth() {
                ColorDepth::L8 | ColorDepth::La8 => 1,
                ColorDepth::Rgb8 | ColorDepth::Rgba8 => img.cols() * img.rows(),
            },
    {
        proof {
            vstd::arithmetic::mul::lemma_mul_is_commutative(img.cols() as int, img.rows() as int);
        }
        match img.color_depth() {
            ColorDepth::L8 | ColorDepth::La8 => 1,
            ColorDepth::Rgb8 | ColorDepth::Rgba8 => img.w() * img.h(),
        }
    }

    pub fn get_save_name(&self) -> (r: &'static str)
        ensures
            r == "Rgb2Gray",
    {
        "Rgb2Gray"
    }
}

impl Default for Rgb2Gray {
    fn default() -> (r: Self) {
        Rgb2Gray {}
    }
}

/// Equalizes the histogram of each color layer.
#[derive(Clone, Copy, Debug)]
pub struct EqualizeHist {}

impl EqualizeHist {
    /// For each color layer: two steps per possible value, one per pixel.
    pub fn get_steps_num<T: Copy>(&self, img: &Img<T>) -> (r: usize)
        requires
            color_layers(img.depth()) * (256 * 2 + img.rows() * img.cols()) <= usize::MAX,
        ensures
            r == color_layers(img.depth()) * (256 * 2 + img.rows() * img.cols()),
    {
        proof {
            vstd::arithmetic::mul::lemma_mul_inequality(1, color_layers(img.depth()) as int, (256 * 2 + img.rows() * img.cols()) as int);
        }
        let pixels_per_layer = img.h() * img.w();
        color_layers_count(img) * (256 * 2 + pixels_per_layer)
    }

    pub fn get_save_name(&self) -> (r: &'static str)
        ensures
            r == "EqualizeHist",
    {
        "EqualizeHist"
    }

    /// The cumulated histogram of a layer: at each value, how many pixels are at
    /// most that value.
    pub fn cumulated_histogram(mat: &Matrix2D<u8>) -> (r: Vec<usize>)
        requires
            mat.wf(),
        ensures
            r@.len() == 256,
            forall|b: int| 0 <= b < 256 ==> #[trigger] r@[b] == count_le(mat.values(), b),
    {
        let hist = count_histogram(mat.pixels().as_slice());
        proof {
            lemma_prefix_counts(mat.values(), hist@, 256);
            lemma_count_le_bounds(mat.values());
        }
        let cum = cumulate_histogram(&hist);
        proof {
            assert forall|b: int| 0 <= b < 256 implies #[trigger] cum@[b] == count_le(mat.values(), b) by {
                lemma_prefix_counts(mat.values(), hist@, b + 1);
            }
        }
        cum
    }
}

/// Summing the histogram up to a bin counts the values below that bin.
proof fn lemma_prefix_counts(s: Seq<u8>, hist: Seq<usize>, i: int)
    requires
        hist.len() == 256,
        forall|b: int| 0 <= b < 256 ==> #[trigger] hist[b] == count_eq(s, b),
        0 <= i <= 256,
    ensures
        prefix_sum(hist, i) == count_le(s, i - 1),
    decreases i,
{
    if i == 0 {
        lemma_count_le_bounds(s);
    } else {
        lemma_prefix_counts(s, hist, i - 1);
        lemma_count_le_step(s, i - 1);
    }
}

impl Default for EqualizeHist {
    fn default() -> (r: Self) {
        EqualizeHist {}
    }
}

/// The values of the window of `fw` columns and `fh` rows whose top left corner
/// is `p`, row by row.
pub open spec fn window_values(ext: &Matrix2D<u8>, p: PixelPos, fw: int, fh: int) -> Seq<u8> {
    Seq::new((fw * fh) as nat, |i: int| ext.at(pos(p.row + i / fw, p.col + i % fw)))
}

/// The values of a window of a matrix, read in the order of a `FilterIterator`.
fn window_at(ext: &Matrix2D<u8>, p: PixelPos, fw: usize, fh: usize) -> (r: Vec<u8>)
    requires
        ext.wf(),
        fw >= 1,
        fh >= 1,
        p.row + fh <= ext.rows(),
        p.col + fw <= ext.cols(),
    ensures
        r@ == window_values(ext, p, fw as int, fh as int),
{
    let mut it = FilterIterator::for_window(fw, fh);
    let mut buf: Vec<u8> = Vec::new();
    loop
        invariant
            ext.wf(),
            fw >= 1,
            fh >= 1,
            p.row + fh <= ext.rows(),
            p.col + fw <= ext.cols(),
            it.valid(),
            it.cols() == fw,
            it.rows() == fh,
            it.positions().len() == fw * fh,
            it.index() <= it.positions().len(),
            buf@.len() == it.index(),
            forall|j: int| 0 <= j < buf@.len() ==> #[trigger] buf@[j] == window_values(ext, p, fw as int, fh as int)[j],
        ensures
            buf@.len() == fw * fh,
            forall|j: int| 0 <= j < buf@.len() ==> #[trigger] buf@[j] == window_values(ext, p, fw as int, fh as int)[j],
        decreases it.positions().len() - it.index(),
    {
        let ghost j = it.index();
        match it.next() {
            Some(pw) => {
                proof {
                    assert(j < fw * fh);
                    crate::pixels_iter::lemma_rect_place(0, 0, fw as int, fh as int, j);
                    assert(pw == rect_positions(0, 0, fw as int, fh as int)[j]);
                    assert(pw.row == j / (fw as int));
                    assert(pw.col == j % (fw as int));
                }
                let v = ext.get(p + pw);
                buf.push(v);
            },
            None => {
                break;
            },
        }
    }
    proof {
        assert(buf@ =~= window_values(ext, p, fw as int, fh as int));
    }
    buf
}

/// Replaces each value by the median of the window around it.
#[derive(Clone, Copy, Debug)]
pub struct MedianFilter {
    size: FilterWindowSize,
    extend_value: ExtendValue<u8>,
}

impl MedianFilter {
    pub closed spec fn size_spec(self) -> FilterWindowSize {
        self.size
    }

    pub closed spec fn extend_spec(self) -> ExtendValue<u8> {
        self.extend_value
    }

    pub fn new(size: FilterWindowSize, extend_value: ExtendValue<u8>) -> (r: Self)
        ensures
            r.size_spec() == size,
            r.extend_spec() == extend_value,
    {
        MedianFilter { size, extend_value }
    }

    pub fn w(&self) -> (r: usize)
        ensures
            r == self.size_spec().width,
    {
        self.size.width
    }

    pub fn h(&self) -> (r: usize)
        ensures
            r == self.size_spec().height,
    {
        self.size.height
    }

    pub fn get_extend_value(&self) -> (r: ExtendValue<u8>)
        ensures
            r == self.extend_spec(),
    {
        self.extend_value
    }

    /// The walk over the window of the filter.
    pub fn get_iter(&self) -> (r: FilterIterator)
        ensures
            r.cols() == self.size_spec().width,
            r.rows() == self.size_spec().height,
            r.index() == 0,
            r.valid(),
    {
        FilterIterator::for_window(self.size.width, self.size.height)
    }

    /// The median of a window, as `median_of_window` computes it.
    pub fn process_window(&self, window_buffer: &[u8]) -> (r: u8)
        ensures
            r == window_median(window_buffer@),
    {
        median_of_window(window_buffer)
    }

    /// One progress step per row of each color layer.
    pub fn get_steps_num<T: Copy>(&self, img: &Img<T>) -> (r: usize)
        requires
            color_layers(img.depth()) * img.rows() <= usize::MAX,
        ensures
            r == color_layers(img.depth()) * img.rows(),
    {
        color_layers_count(img) * img.h()
    }

    pub fn get_save_name(&self) -> (r: &'static str)
        ensures
            r == "MedianFilter",
    {
        "MedianFilter"
    }

    /// The value of the filtered layer at `p`: the median of the window around `p`
    /// in the layer extended by half a window on each side.
    pub open spec fn filtered_at(&self, mat: &Matrix2D<u8>, p: PixelPos) -> u8 {
        let fw = self.size_spec().width as int;
        let fh = self.size_spec().height as int;
        window_median(
            Seq::new(
                (fw * fh) as nat,
                |i: int| mat.ext_at(self.extend_spec(), fh / 2, fw / 2, pos(p.row + i / fw, p.col + i % fw)),
            ),
        ) as u8
    }

    /// An alpha layer stays as it is; any other layer is filtered: each value
    /// becomes the median of the window around it.
    pub fn process_layer(&self, layer: &ImgLayer<u8>) -> (r: ImgLayer<u8>)
        requires
            layer.mat_spec().wf(),
            layer.mat_spec().cols() >= 1,
            layer.mat_spec().rows() >= 1,
            self.size_spec().width > 1,
            self.size_spec().height > 1,
            (self.size_spec().width / 2 * 2 + layer.mat_spec().cols()) * (self.size_spec().height / 2 * 2
                + layer.mat_spec().rows()) <= usize::MAX,
            self.size_spec().width / 2 * 2 + layer.mat_spec().cols() <= usize::MAX,
            self.size_spec().height / 2 * 2 + layer.mat_spec().rows() <= usize::MAX,
        ensures
            r.channel_spec() == layer.channel_spec(),
            r.mat_spec().wf(),
            r.mat_spec().cols() == layer.mat_spec().cols(),
            r.mat_spec().rows() == layer.mat_spec().rows(),
            forall|p: PixelPos|
                r.mat_spec().fits_spec(p) ==> #[trigger] r.mat_spec().at(p) == if layer.channel_spec()
                    == ImgChannel::A {
                    layer.mat_spec().at(p)
                } else {
                    self.filtered_at(&layer.mat_spec(), p)
                },
    {
        if layer.channel() == ImgChannel::A {
            return ImgLayer::new(layer.matrix().duplicate(), layer.channel());
        }
        let mat = layer.matrix();
        let fw = self.size.width;
        let fh = self.size.height;
        let ext = mat.extended_for_window_filter(fw, fh, self.extend_value);
        let ext_ref: &Matrix2D<u8> = &ext;
        let this: &Self = self;
        let f = |p: PixelPos| -> (v: u8)
            requires
                ext_ref.wf(),
                fw == this.size_spec().width,
                fh == this.size_spec().height,
                fw > 1,
                fh > 1,
                p.row < mat.rows(),
                p.col < mat.cols(),
                ext_ref.cols() == fw / 2 * 2 + mat.cols(),
                ext_ref.rows() == fh / 2 * 2 + mat.rows(),
                forall|q: PixelPos| ext_ref.fits_spec(q) ==> #[trigger] ext_ref.at(q) == mat.ext_at(
                    this.extend_spec(),
                    (fh / 2) as int,
                    (fw / 2) as int,
                    q,
                ),
            ensures
                v == this.filtered_at(mat, p),
            {
                proof {
                    assert(fw / 2 * 2 + 1 <= fw + 1);
                }
                let window = window_at(ext_ref, p, fw, fh);
                proof {
                    let a = window_values(ext_ref, p, fw as int, fh as int);
                    let b = Seq::new(
                        (fw * fh) as nat,
                        |i: int| mat.ext_at(this.extend_spec(), (fh / 2) as int, (fw / 2) as int, pos(p.row + i / (fw as int), p.col + i % (fw as int))),
                    );
                    assert forall|i: int| 0 <= i < a.len() implies a[i] == b[i] by {
                        crate::pixels_iter::lemma_rect_place(p.row as int, p.col as int, fw as int, fh as int, i);
                        assert(ext_ref.fits_spec(pos(p.row + i / (fw as int), p.col + i % (fw as int))));
                    }
                    assert(a =~= b);
                }
                this.process_window(window.as_slice())
            };
        proof {
            vstd::arithmetic::mul::lemma_mul_is_commutative(mat.cols() as int, mat.rows() as int);
        }
        let res = Matrix2D::generate(mat.w(), mat.h(), f);
        ImgLayer::new(res, layer.channel())
    }
}

impl MedianFilter {
    /// Each layer processed by `process_layer`.
    pub fn process(&self, img: &Img<u8>) -> (r: Img<u8>)
        requires
            img.wf(),
            img.cols() >= 1,
            img.rows() >= 1,
            self.size_spec().width > 1,
            self.size_spec().height > 1,
            (self.size_spec().width / 2 * 2 + img.cols()) * (self.size_spec().height / 2 * 2 + img.rows())
                <= usize::MAX,
            self.size_spec().width / 2 * 2 + img.cols() <= usize::MAX,
            self.size_spec().height / 2 * 2 + img.rows() <= usize::MAX,
        ensures
            r.wf(),
            r.depth() == img.depth(),
            r.cols() == img.cols(),
            r.rows() == img.rows(),
            r.layer_seq().len() == img.layer_seq().len(),
            forall|k: int|
                0 <= k < r.layer_seq().len() ==> (#[trigger] r.layer_seq()[k]).channel_spec()
                    == img.layer_seq()[k].channel_spec(),
            forall|k: int, p: PixelPos|
                0 <= k < r.layer_seq().len() && r.layer_at(k).fits_spec(p) ==> #[trigger] r.layer_at(k).at(p)
                    == if img.layer_seq()[k].channel_spec() == ImgChannel::A {
                    img.layer_at(k).at(p)
                } else {
                    self.filtered_at(&img.layer_at(k), p)
                },
    {
        let d = img.layers().len();
        let mut layers: Vec<ImgLayer<u8>> = Vec::new();
        let mut k: usize = 0;
        while k < d
            invariant
                img.wf(),
                img.cols() >= 1,
                img.rows() >= 1,
                self.size_spec().width > 1,
                self.size_spec().height > 1,
                (self.size_spec().width / 2 * 2 + img.cols()) * (self.size_spec().height / 2 * 2 + img.rows())
                    <= usize::MAX,
                self.size_spec().width / 2 * 2 + img.cols() <= usize::MAX,
                self.size_spec().height / 2 * 2 + img.rows() <= usize::MAX,
                d == img.layer_seq().len(),
                k <= d,
                layers@.len() == k,
                forall|i: int|
                    0 <= i < k ==> {
                        &&& (#[trigger] layers@[i]).mat_spec().wf()
                        &&& layers@[i].mat_spec().cols() == img.cols()
                        &&& layers@[i].mat_spec().rows() == img.rows()
                        &&& layers@[i].channel_spec() == img.layer_seq()[i].channel_spec()
                        &&& forall|p: PixelPos|
                            layers@[i].mat_spec().fits_spec(p) ==> #[trigger] layers@[i].mat_spec().at(p)
                                == if img.layer_seq()[i].channel_spec() == ImgChannel::A {
                                img.layer_at(i).at(p)
                            } else {
                                self.filtered_at(&img.layer_at(i), p)
                            }
                    },
            decreases d - k,
        {
            proof {
                assert(img.layer_seq()[k as int].mat_spec().wf());
            }
            layers.push(self.process_layer(img.layer(k)));
            k = k + 1;
        }
        img.with_layers(layers)
    }
}

impl Default for MedianFilter {
    fn default() -> (r: Self)
        ensures
            r.size_spec() == (FilterWindowSize { width: 3, height: 3 }),
            r.extend_spec() == ExtendValue::<u8>::Closest,
    {
        MedianFilter::new(FilterWindowSize::new(3, 3), ExtendValue::Closest)
    }
}

/// The image with every layer that holds neither `channel` nor alpha cleared to the
/// default value, as `ExtractChannel::process` makes it.
pub fn extract_channel<T: Copy + Default>(img: &Img<T>, channel: ImgChannel) -> (r: Img<T>)
    requires
        img.wf(),
    ensures
        r.wf(),
        r.depth() == img.depth(),
        r.cols() == img.cols(),
        r.rows() == img.rows(),
        r.layer_seq().len() == img.layer_seq().len(),
        forall|k: int|
            0 <= k < r.layer_seq().len() ==> (#[trigger] r.layer_seq()[k]).channel_spec()
                == img.layer_seq()[k].channel_spec(),
        forall|k: int, p: PixelPos|
            0 <= k < r.layer_seq().len() && r.layer_at(k).fits_spec(p) ==> {
                let ch = img.layer_seq()[k].channel_spec();
                if ch == channel || ch == ImgChannel::A {
                    #[trigger] r.layer_at(k).at(p) == img.layer_at(k).at(p)
                } else {
                    is_default(r.layer_at(k).at(p))
                }
            },
{
    ExtractChannel::new(channel).process(img)
}

/// The image with the first layer that holds `channel` cleared to the default value,
/// as `NeutralizeChannel::process` makes it.
pub fn neutralize_channel<T: Copy + Default>(img: &Img<T>, channel: ImgChannel) -> (r: Img<T>)
    requires
        img.wf(),
    ensures
        r.wf(),
        r.depth() == img.depth(),
        r.cols() == img.cols(),
        r.rows() == img.rows(),
        r.layer_seq().len() == img.layer_seq().len(),
        forall|k: int|
            0 <= k < r.layer_seq().len() ==> (#[trigger] r.layer_seq()[k]).channel_spec()
                == img.layer_seq()[k].channel_spec(),
        forall|k: int, p: PixelPos|
            0 <= k < r.layer_seq().len() && r.layer_at(k).fits_spec(p) ==> {
                if k == first_with_channel(img.layer_seq(), channel) {
                    is_default(#[trigger] r.layer_at(k).at(p))
                } else {
                    r.layer_at(k).at(p) == img.layer_at(k).at(p)
                }
            },
{
    NeutralizeChannel::new(channel).process(img)
}

} // verus!
