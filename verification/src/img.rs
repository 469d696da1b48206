use vstd::prelude::*;
use crate::filter_option::ImgChannel;
use crate::matrix2d::{ExtendValue, Matrix2D};
use crate::pixel_pos::{PixelPos, pos};
use crate::pixels_area::PixelsArea;
use vstd::arithmetic::mul::{lemma_mul_inequality, lemma_mul_is_commutative, lemma_mul_is_distributive_add_other_way};
use vstd::arithmetic::div_mod::{lemma_fundamental_div_mod, lemma_div_pos_is_pos, lemma_mod_bound, lemma_div_by_multiple_is_strongly_ordered, lemma_fundamental_div_mod_converse};

verus! {

/// How many channels an image has, and which.
#[derive(Debug, Clone, Copy, PartialEq, Eq, Structural)]
pub enum ColorDepth {
    /// Luminance.
    L8,
    /// Luminance and alpha.
    La8,
    /// Red, green and blue.
    Rgb8,
    /// Red, green, blue and alpha.
    Rgba8,
}

/// The channels of a color depth, in the order in which its pixels interleave them.
pub open spec fn depth_channels(depth: ColorDepth) -> Seq<ImgChannel> {
    match depth {
        ColorDepth::L8 => seq![ImgChannel::L],
        ColorDepth::La8 => seq![ImgChannel::L, ImgChannel::A],
        ColorDepth::Rgb8 => seq![ImgChannel::R, ImgChannel::G, ImgChannel::B],
        ColorDepth::Rgba8 => seq![ImgChannel::R, ImgChannel::G, ImgChannel::B, ImgChannel::A],
    }
}

impl ColorDepth {
    /// The number of channels.
    pub fn count(&self) -> (r: usize)
        ensures
            r == depth_channels(*self).len(),
    {
        match self {
            ColorDepth::L8 => 1,
            ColorDepth::La8 => 2,
            ColorDepth::Rgb8 => 3,
            ColorDepth::Rgba8 => 4,
        }
    }

    /// The channel at `ind` in the order of the color depth.
    pub fn channel(&self, ind: usize) -> (r: ImgChannel)
        requires
            ind < depth_channels(*self).len(),
        ensures
            r == depth_channels(*self)[ind as int],
    {
        match self {
            ColorDepth::L8 => ImgChannel::L,
            ColorDepth::La8 => if ind == 0 {
                ImgChannel::L
            } else {
                ImgChannel::A
            },
            ColorDepth::Rgb8 => if ind == 0 {
                ImgChannel::R
            } else if ind == 1 {
                ImgChannel::G
            } else {
                ImgChannel::B
            },
            ColorDepth::Rgba8 => if ind == 0 {
                ImgChannel::R
            } else if ind == 1 {
                ImgChannel::G
            } else if ind == 2 {
                ImgChannel::B
            } else {
                ImgChannel::A
            },
        }
    }
}

/// One channel of an image: a matrix of values and the channel it holds.
#[derive(Clone)]
pub struct ImgLayer<T> {
    mat: Matrix2D<T>,
    channel: ImgChannel,
}

impl<T: Copy> ImgLayer<T> {
    pub closed spec fn mat_spec(&self) -> Matrix2D<T> {
        self.mat
    }

    pub closed spec fn channel_spec(&self) -> ImgChannel {
        self.channel
    }

    pub fn new(mat: Matrix2D<T>, channel: ImgChannel) -> (r: Self)
        ensures
            r.mat_spec() == mat,
            r.channel_spec() == channel,
    {
        ImgLayer { mat, channel }
    }

    pub fn channel(&self) -> (r: ImgChannel)
        ensures
            r == self.channel_spec(),
    {
        self.channel
    }

    pub fn w(&self) -> (r: usize)
        ensures
            r == self.mat_spec().cols(),
    {
        self.mat.w()
    }

    pub fn h(&self) -> (r: usize)
        ensures
            r == self.mat_spec().rows(),
    {
        self.mat.h()
    }

    pub fn matrix(&self) -> (r: &Matrix2D<T>)
        ensures
            *r == self.mat_spec(),
    {
        &self.mat
    }

    /// The matrix of the layer, to change in place; the channel stays.
    pub fn matrix_mut(&mut self) -> (r: &mut Matrix2D<T>)
        ensures
            *r == old(self).mat_spec(),
            final(self).mat_spec() == *final(r),
            final(self).channel_spec() == old(self).channel_spec(),
    {
        &mut self.mat
    }

    /// The area of all positions of the layer.
    pub fn get_area(&self) -> (r: PixelsArea)
        requires
            self.mat_spec().cols() >= 1,
            self.mat_spec().rows() >= 1,
        ensures
            r.wf(),
            r.tl() == pos(0, 0),
            r.br() == pos(self.mat_spec().rows() - 1, self.mat_spec().cols() - 1),
    {
        PixelsArea::size_of(self.matrix())
    }
}

/// The layers fit a color depth and a size: one layer per channel of the depth,
/// every channel of the depth present, every matrix of the given size.
pub open spec fn layers_fit<T: Copy>(layers: Seq<ImgLayer<T>>, depth: ColorDepth, width: nat, height: nat) -> bool {
    &&& layers.len() == depth_channels(depth).len()
    &&& forall|i: int|
        0 <= i < layers.len() ==> {
            &&& (#[trigger] layers[i]).mat_spec().wf()
            &&& layers[i].mat_spec().cols() == width
            &&& layers[i].mat_spec().rows() == height
        }
    &&& forall|j: int|
        0 <= j < depth_channels(depth).len() ==> exists|i: int|
            0 <= i < layers.len() && (#[trigger] layers[i]).channel_spec()
                == #[trigger] depth_channels(depth)[j]
}

/// An image: equally sized layers, one per channel of its color depth.
#[derive(Clone)]
pub struct Img<T> {
    width: usize,
    height: usize,
    layers: Vec<ImgLayer<T>>,
    color_depth: ColorDepth,
}

/// The first layer that holds a channel.
fn find_channel<T: Copy>(layers: &Vec<ImgLayer<T>>, ch: ImgChannel) -> (r: Option<usize>)
    ensures
        match r {
            Some(i) => i < layers@.len() && layers@[i as int].channel_spec() == ch && forall|j: int|
                0 <= j < i ==> (#[trigger] layers@[j]).channel_spec() != ch,
            None => forall|j: int| 0 <= j < layers@.len() ==> (#[trigger] layers@[j]).channel_spec() != ch,
        },
{
    let mut i: usize = 0;
    while i < layers.len()
        invariant
            i <= layers@.len(),
            forall|j: int| 0 <= j < i ==> (#[trigger] layers@[j]).channel_spec() != ch,
        decreases layers@.len() - i,
    {
        if layers[i].channel() == ch {
            return Some(i);
        }
        i = i + 1;
    }
    None
}

/// Whether layers can make an image of a color depth, as `Img::from_layers` needs them.
pub fn layers_fit_depth<T: Copy>(layers: &Vec<ImgLayer<T>>, color_depth: ColorDepth) -> (r: bool)
    requires
        forall|i: int| 0 <= i < layers@.len() ==> (#[trigger] layers@[i]).mat_spec().wf(),
    ensures
        r == (layers@.len() >= 1 && layers_fit(
            layers@,
            color_depth,
            layers@[0].mat_spec().cols(),
            layers@[0].mat_spec().rows(),
        )),
{
    let d = color_depth.count();
    if layers.len() != d {
        return false;
    }
    let width = layers[0].w();
    let height = layers[0].h();
    let mut i: usize = 0;
    while i < layers.len()
        invariant
            i <= layers@.len(),
            width == layers@[0].mat_spec().cols(),
            height == layers@[0].mat_spec().rows(),
            forall|j: int|
                0 <= j < i ==> (#[trigger] layers@[j]).mat_spec().cols() == width
                    && layers@[j].mat_spec().rows() == height,
        decreases layers@.len() - i,
    {
        if layers[i].w() != width || layers[i].h() != height {
            return false;
        }
        i = i + 1;
    }
    let mut k: usize = 0;
    while k < d
        invariant
            d == depth_channels(color_depth).len(),
            k <= d,
            forall|j: int|
                0 <= j < k ==> exists|i: int|
                    0 <= i < layers@.len() && (#[trigger] layers@[i]).channel_spec()
                        == #[trigger] depth_channels(color_depth)[j],
        decreases d - k,
    {
        let ch = color_depth.channel(k);
        match find_channel(layers, ch) {
            Some(found) => {
                assert(layers@[found as int].channel_spec() == depth_channels(color_depth)[k as int]);
            },
            None => {
                assert(!(exists|i: int|
                    0 <= i < layers@.len() && (#[trigger] layers@[i]).channel_spec()
                        == #[trigger] depth_channels(color_depth)[k as int]));
                return false;
            },
        }
        k = k + 1;
    }
    true
}

impl<T: Copy> Img<T> {
    pub closed spec fn cols(&self) -> nat {
        self.width as nat
    }

    pub closed spec fn rows(&self) -> nat {
        self.height as nat
    }

    pub closed spec fn depth(&self) -> ColorDepth {
        self.color_depth
    }

    pub closed spec fn layer_seq(&self) -> Seq<ImgLayer<T>> {
        self.layers@
    }

    /// The matrix of the layer at `k`.
    pub open spec fn layer_at(&self, k: int) -> Matrix2D<T> {
        self.layer_seq()[k].mat_spec()
    }

    pub open spec fn wf(&self) -> bool {
        layers_fit(self.layer_seq(), self.depth(), self.cols(), self.rows())
    }

    /// The image made of the given layers; the layers must fit the color depth,
    /// as `layers_fit_depth` checks.
    pub fn from_layers(layers: Vec<ImgLayer<T>>, color_depth: ColorDepth) -> (r: Self)
        requires
            layers@.len() >= 1,
            forall|i: int| 0 <= i < layers@.len() ==> (#[trigger] layers@[i]).mat_spec().wf(),
            layers_fit(layers@, color_depth, layers@[0].mat_spec().cols(), layers@[0].mat_spec().rows()),
        ensures
            r.wf(),
            r.layer_seq() == layers@,
            r.depth() == color_depth,
            r.cols() == layers@[0].mat_spec().cols(),
            r.rows() == layers@[0].mat_spec().rows(),
    {
        let width = layers[0].w();
        let height = layers[0].h();
        Img { width, height, layers, color_depth }
    }

    pub fn w(&self) -> (r: usize)
        ensures
            r == self.cols(),
    {
        self.width
    }

    pub fn h(&self) -> (r: usize)
        ensures
            r == self.rows(),
    {
        self.height
    }

    /// The number of channels.
    pub fn d(&self) -> (r: usize)
        ensures
            r == depth_channels(self.depth()).len(),
    {
        self.color_depth.count()
    }

    pub fn color_depth(&self) -> (r: ColorDepth)
        ensures
            r == self.depth(),
    {
        self.color_depth
    }

    pub fn layers(&self) -> (r: &Vec<ImgLayer<T>>)
        ensures
            r@ == self.layer_seq(),
    {
        &self.layers
    }

    pub fn layer(&self, ind: usize) -> (r: &ImgLayer<T>)
        requires
            ind < self.layer_seq().len(),
        ensures
            *r == self.layer_seq()[ind as int],
    {
        &self.layers[ind]
    }

    /// The first layer that holds the channel, if any.
    pub fn layer_by_channel(&self, ch: ImgChannel) -> (r: Option<&ImgLayer<T>>)
        ensures
            match r {
                Some(l) => exists|i: int|
                    0 <= i < self.layer_seq().len() && *l == self.layer_seq()[i] && l.channel_spec() == ch
                        && forall|j: int| 0 <= j < i ==> (#[trigger] self.layer_seq()[j]).channel_spec() != ch,
                None => forall|j: int|
                    0 <= j < self.layer_seq().len() ==> (#[trigger] self.layer_seq()[j]).channel_spec()
                        != ch,
            },
    {
        match find_channel(&self.layers, ch) {
            Some(i) => Some(&self.layers[i]),
            None => None,
        }
    }

    /// The area of all positions of the image.
    pub fn get_area(&self) -> (r: PixelsArea)
        requires
            self.cols() >= 1,
            self.rows() >= 1,
        ensures
            r.wf(),
            r.tl() == pos(0, 0),
            r.br() == pos(self.rows() - 1, self.cols() - 1),
            r.width() == self.cols(),
            r.height() == self.rows(),
    {
        PixelsArea::with_size(self.height, self.width)
    }
}

/// Layers given in the order of the channels of a color depth fit it.
proof fn lemma_ordered_layers_fit<T: Copy>(layers: Seq<ImgLayer<T>>, depth: ColorDepth, width: nat, height: nat)
    requires
        layers.len() == depth_channels(depth).len(),
        forall|i: int|
            0 <= i < layers.len() ==> {
                &&& (#[trigger] layers[i]).mat_spec().wf()
                &&& layers[i].mat_spec().cols() == width
                &&& layers[i].mat_spec().rows() == height
                &&& layers[i].channel_spec() == depth_channels(depth)[i]
            },
    ensures
        layers_fit(layers, depth, width, height),
{
    assert forall|i: int| 0 <= i < layers.len() implies {
        &&& (#[trigger] layers[i]).mat_spec().wf()
        &&& layers[i].mat_spec().cols() == width
        &&& layers[i].mat_spec().rows() == height
    } by {}
    assert forall|j: int| 0 <= j < depth_channels(depth).len() implies exists|i: int|
        0 <= i < layers.len() && (#[trigger] layers[i]).channel_spec()
            == #[trigger] depth_channels(depth)[j] by {
        assert(layers[j].channel_spec() == depth_channels(depth)[j]);
    }
}

proof fn lemma_interleaved_index(i: int, k: int, n: int, d: int)
    requires
        0 <= i < n,
        0 <= k < d,
    ensures
        0 <= i * d + k < n * d,
        i * d + d <= n * d,
{
    lemma_mul_inequality(0, i, d);
    lemma_mul_inequality(i + 1, n, d);
    lemma_mul_is_distributive_add_other_way(d, i, 1);
    assert(1 * d == d);
}

impl<T: Copy> Img<T> {
    /// The layers are in the order of the channels of the color depth.
    pub open spec fn ordered(&self) -> bool {
        forall|k: int|
            0 <= k < self.layer_seq().len() ==> (#[trigger] self.layer_seq()[k]).channel_spec()
                == depth_channels(self.depth())[k]
    }

    /// An image of the given size and color depth, every value the default one.
    pub fn empty_with_size(width: usize, height: usize, color_depth: ColorDepth) -> (r: Self) where T: Default
        requires
            width * height <= usize::MAX,
        ensures
            r.wf(),
            r.ordered(),
            r.cols() == width,
            r.rows() == height,
            r.depth() == color_depth,
            forall|k: int, p: PixelPos|
                0 <= k < r.layer_seq().len() && r.layer_at(k).fits_spec(p) ==> call_ensures(
                    T::default,
                    (),
                    #[trigger] r.layer_at(k).at(p),
                ),
    {
        let d = color_depth.count();
        let mut layers: Vec<ImgLayer<T>> = Vec::new();
        let mut k: usize = 0;
        while k < d
            invariant
                width * height <= usize::MAX,
                d == depth_channels(color_depth).len(),
                k <= d,
                layers@.len() == k,
                forall|i: int|
                    0 <= i < k ==> {
                        &&& (#[trigger] layers@[i]).mat_spec().wf()
                        &&& layers@[i].mat_spec().cols() == width
                        &&& layers@[i].mat_spec().rows() == height
                        &&& layers@[i].channel_spec() == depth_channels(color_depth)[i]
                        &&& forall|p: PixelPos|
                            layers@[i].mat_spec().fits_spec(p) ==> call_ensures(
                                T::default,
                                (),
                                #[trigger] layers@[i].mat_spec().at(p),
                            )
                    },
            decreases d - k,
        {
            let mat = Matrix2D::empty_with_size(width, height);
            layers.push(ImgLayer::new(mat, color_depth.channel(k)));
            k = k + 1;
        }
        proof {
            lemma_ordered_layers_fit(layers@, color_depth, width as nat, height as nat);
        }
        Img { width, height, layers, color_depth }
    }

    /// An empty image of the size and color depth of `other`.
    pub fn empty_size_of(other: &Img<T>) -> (r: Self) where T: Default
        requires
            other.cols() * other.rows() <= usize::MAX,
        ensures
            r.wf(),
            r.ordered(),
            r.cols() == other.cols(),
            r.rows() == other.rows(),
            r.depth() == other.depth(),
    {
        Self::empty_with_size(other.width, other.height, other.color_depth)
    }

    /// An image from values that interleave the channels: the values of one pixel
    /// follow each other, in the order of the channels of the color depth, and the
    /// pixels follow each other row by row.
    pub fn from_pixels(width: usize, height: usize, color_depth: ColorDepth, pixels: Vec<T>) -> (r: Self)
        requires
            width * height * depth_channels(color_depth).len() == pixels@.len(),
        ensures
            r.wf(),
            r.ordered(),
            r.cols() == width,
            r.rows() == height,
            r.depth() == color_depth,
            r.interleaved() == pixels@,
            forall|k: int, p: PixelPos|
                0 <= k < r.layer_seq().len() && r.layer_at(k).fits_spec(p) ==> #[trigger] r.layer_at(k).at(p)
                    == pixels@[(p.row * width + p.col) * depth_channels(color_depth).len() + k],
    {
        let d = color_depth.count();
        let n = pixels.len();
        proof {
            if d > 0 {
                lemma_mul_inequality(1, d as int, (width * height) as int);
                lemma_mul_is_commutative(d as int, (width * height) as int);
            }
        }
        let mut layers: Vec<ImgLayer<T>> = Vec::new();
        let mut k: usize = 0;
        while k < d
            invariant
                width * height <= usize::MAX,
                width * height * d == pixels@.len(),
                width * height * d <= usize::MAX,
                d == depth_channels(color_depth).len(),
                k <= d,
                layers@.len() == k,
                forall|i: int|
                    0 <= i < k ==> {
                        &&& (#[trigger] layers@[i]).mat_spec().wf()
                        &&& layers@[i].mat_spec().cols() == width
                        &&& layers@[i].mat_spec().rows() == height
                        &&& layers@[i].channel_spec() == depth_channels(color_depth)[i]
                        &&& forall|p: PixelPos|
                            layers@[i].mat_spec().fits_spec(p) ==> #[trigger] layers@[i].mat_spec().at(p)
                                == pixels@[(p.row * width + p.col) * d + i]
                    },
            decreases d - k,
        {
            let src: &Vec<T> = &pixels;
            let f = |p: PixelPos| -> (v: T)
                requires
                    p.row < height,
                    p.col < width,
                    k < d,
                    width * height * d == src@.len(),
                    width * height * d <= usize::MAX,
                ensures
                    v == src@[(p.row * width + p.col) * d + k],
                {
                    proof {
                        crate::matrix2d::lemma_grid_index(p.row as int, p.col as int, height as int, width as int);
                        lemma_interleaved_index((p.row * width + p.col) as int, k as int, (width * height) as int, d as int);
                        lemma_mul_is_commutative(height as int, width as int);
                    }
                    src[(p.row * width + p.col) * d + k]
                };
            let mat = Matrix2D::generate(width, height, f);
            layers.push(ImgLayer::new(mat, color_depth.channel(k)));
            k = k + 1;
        }
        proof {
            lemma_ordered_layers_fit(layers@, color_depth, width as nat, height as nat);
        }
        let r = Img { width, height, layers, color_depth };
        proof {
            lemma_from_pixels_interleaved(r, pixels@);
        }
        r
    }
}

/// Splits a place `j` of values that interleave `d` channels into the pixel
/// `j / d` and the channel `j % d`.
proof fn lemma_split_interleaved(j: int, n: int, d: int)
    requires
        d > 0,
        0 <= j < n * d,
    ensures
        0 <= j / d < n,
        0 <= j % d < d,
        j == (j / d) * d + j % d,
{
    lemma_fundamental_div_mod(j, d);
    lemma_mod_bound(j, d);
    lemma_mul_is_commutative(d, j / d);
    lemma_div_pos_is_pos(j, d);
    if j / d >= n {
        lemma_mul_inequality(n, j / d, d);
    }
}

impl<T: Copy> Img<T> {
    /// The values of the image with the channels interleaved: the values of one
    /// pixel follow each other, layer by layer, and the pixels follow each other
    /// row by row.
    pub open spec fn interleaved(&self) -> Seq<T> {
        let d = self.layer_seq().len();
        Seq::new(
            self.cols() * self.rows() * d,
            |j: int| self.layer_at(j % (d as int)).values()[j / (d as int)],
        )
    }

    /// The values of the image with the channels interleaved, as `interleaved` says.
    pub fn interleaved_pixels(&self) -> (r: Vec<T>)
        requires
            self.wf(),
            self.cols() * self.rows() * self.layer_seq().len() <= usize::MAX,
        ensures
            r@ == self.interleaved(),
    {
        let d = self.layers.len();
        proof {
            lemma_mul_inequality(1, d as int, (self.cols() * self.rows()) as int);
            lemma_mul_is_commutative(d as int, (self.cols() * self.rows()) as int);
        }
        let n = self.width * self.height;
        let mut out: Vec<T> = Vec::new();
        let mut i: usize = 0;
        while i < n
            invariant
                self.wf(),
                d == self.layer_seq().len(),
                d >= 1,
                n == self.cols() * self.rows(),
                n * d <= usize::MAX,
                i <= n,
                out@.len() == i * d,
                forall|j: int| 0 <= j < i * d ==> #[trigger] out@[j] == self.interleaved()[j],
            decreases n - i,
        {
            proof {
                lemma_interleaved_index(i as int, 0, n as int, d as int);
            }
            let mut k: usize = 0;
            while k < d
                invariant
                    self.wf(),
                    d == self.layer_seq().len(),
                    d >= 1,
                    n == self.cols() * self.rows(),
                    n * d <= usize::MAX,
                    i < n,
                    k <= d,
                    i * d + d <= n * d,
                    out@.len() == i * d + k,
                    forall|j: int| 0 <= j < i * d + k ==> #[trigger] out@[j] == self.interleaved()[j],
                decreases d - k,
            {
                let v = self.layers[k].matrix().pixels()[i];
                let ghost before = out@;
                out.push(v);
                proof {
                    let j = i * d + k;
                    lemma_fundamental_div_mod_converse(j as int, d as int, i as int, k as int);
                    assert forall|jj: int| 0 <= jj < i * d + k + 1 implies #[trigger] out@[jj] == self.interleaved()[jj] by {
                        if jj < i * d + k {
                            assert(out@[jj] == before[jj]);
                        }
                    }
                }
                k = k + 1;
            }
            proof {
                lemma_mul_is_distributive_add_other_way(d as int, i as int, 1);
                assert(1 * d == d);
            }
            i = i + 1;
        }
        proof {
            assert(out@ =~= self.interleaved());
        }
        out
    }
}

/// An image whose values were read from interleaved values gives them back.
/// The interleaved values of an image determine its layers: two images of the same
/// size and number of layers whose interleaved values agree hold the same value at
/// every position of every layer. Reading back the values an image gives out
/// therefore gives the image back.
pub proof fn lemma_interleaved_determines_layers<T: Copy>(a: Img<T>, b: Img<T>)
    requires
        a.wf(),
        b.wf(),
        a.cols() == b.cols(),
        a.rows() == b.rows(),
        a.layer_seq().len() == b.layer_seq().len(),
        a.interleaved() == b.interleaved(),
    ensures
        forall|k: int, p: PixelPos|
            0 <= k < a.layer_seq().len() && a.layer_at(k).fits_spec(p) ==> #[trigger] a.layer_at(k).at(p)
                == b.layer_at(k).at(p),
{
    let d = a.layer_seq().len() as int;
    let w = a.cols() as int;
    let h = a.rows() as int;
    assert forall|k: int, p: PixelPos|
        0 <= k < a.layer_seq().len() && a.layer_at(k).fits_spec(p) implies #[trigger] a.layer_at(k).at(p)
            == b.layer_at(k).at(p) by {
        let i = p.row * w + p.col;
        assert(0 <= i < h * w) by {
            assert(0 <= p.row * w) by {
                lemma_mul_inequality(0, p.row as int, w);
            }
            assert(p.row * w + w <= h * w) by {
                lemma_mul_inequality(p.row + 1, h, w);
                lemma_mul_is_distributive_add_other_way(w, p.row as int, 1);
            }
        }
        lemma_mul_is_commutative(h, w);
        let j = i * d + k;
        assert(0 <= j < w * h * d) by {
            lemma_mul_inequality(i + 1, w * h, d);
            lemma_mul_is_distributive_add_other_way(d, i, 1);
            lemma_mul_inequality(0, i, d);
        }
        lemma_fundamental_div_mod_converse(j, d, i, k);
        assert(a.layer_seq()[k].mat_spec().cols() == w);
        assert(b.layer_seq()[k].mat_spec().cols() == w);
        assert(a.interleaved()[j] == a.layer_at(k).values()[i]);
        assert(b.interleaved()[j] == b.layer_at(k).values()[i]);
        assert(a.interleaved()[j] == b.interleaved()[j]);
    }
}

proof fn lemma_from_pixels_interleaved<T: Copy>(r: Img<T>, pixels: Seq<T>)
    requires
        r.wf(),
        r.cols() * r.rows() * r.layer_seq().len() == pixels.len(),
        forall|k: int, p: PixelPos|
            0 <= k < r.layer_seq().len() && r.layer_at(k).fits_spec(p) ==> #[trigger] r.layer_at(k).at(p)
                == pixels[(p.row * r.cols() + p.col) * r.layer_seq().len() + k],
    ensures
        r.interleaved() == pixels,
{
    let d = r.layer_seq().len() as int;
    let w = r.cols() as int;
    let h = r.rows() as int;
    assert(d >= 1);
    assert forall|j: int| 0 <= j < r.interleaved().len() implies #[trigger] r.interleaved()[j]
        == pixels[j] by {
        lemma_split_interleaved(j, w * h, d);
        let i = j / d;
        let k = j % d;
        assert(w > 0) by {
            if w == 0 {
                vstd::arithmetic::mul::lemma_mul_basics(h);
            }
        }
        lemma_fundamental_div_mod(i, w);
        lemma_mod_bound(i, w);
        lemma_div_pos_is_pos(i, w);
        lemma_mul_is_commutative(w, i / w);
        if i / w >= h {
            lemma_mul_inequality(h, i / w, w);
            lemma_mul_is_commutative(h, w);
        }
        let p = pos(i / w, i % w);
        assert(r.layer_at(k).fits_spec(p));
        assert(r.layer_at(k).at(p) == pixels[(p.row * r.cols() + p.col) * d + k]);
    }
    assert(r.interleaved() =~= pixels);
}

/// Layers with the channels of layers that fit a color depth fit it too, at their size.
proof fn lemma_same_channels_fit<T: Copy>(
    old_layers: Seq<ImgLayer<T>>,
    new_layers: Seq<ImgLayer<T>>,
    depth: ColorDepth,
    ow: nat,
    oh: nat,
    width: nat,
    height: nat,
)
    requires
        layers_fit(old_layers, depth, ow, oh),
        new_layers.len() == old_layers.len(),
        forall|i: int|
            0 <= i < new_layers.len() ==> {
                &&& (#[trigger] new_layers[i]).mat_spec().wf()
                &&& new_layers[i].mat_spec().cols() == width
                &&& new_layers[i].mat_spec().rows() == height
                &&& new_layers[i].channel_spec() == old_layers[i].channel_spec()
            },
    ensures
        layers_fit(new_layers, depth, width, height),
{
    assert forall|j: int| 0 <= j < depth_channels(depth).len() implies exists|i: int|
        0 <= i < new_layers.len() && (#[trigger] new_layers[i]).channel_spec()
            == #[trigger] depth_channels(depth)[j] by {
        let i = choose|i: int|
            0 <= i < old_layers.len() && (#[trigger] old_layers[i]).channel_spec()
                == #[trigger] depth_channels(depth)[j];
        assert(new_layers[i].channel_spec() == depth_channels(depth)[j]);
    }
}

impl<T: Copy> Img<T> {
    /// A copy of the part of the image inside `area`; its origin is the top left
    /// corner of the area.
    pub fn get_cropped_copy(&self, area: PixelsArea) -> (r: Img<T>)
        requires
            self.wf(),
            area.wf(),
            area.br().row < self.rows(),
            area.br().col < self.cols(),
        ensures
            r.wf(),
            r.depth() == self.depth(),
            r.cols() == area.width(),
            r.rows() == area.height(),
            r.layer_seq().len() == self.layer_seq().len(),
            forall|k: int|
                0 <= k < r.layer_seq().len() ==> (#[trigger] r.layer_seq()[k]).channel_spec()
                    == self.layer_seq()[k].channel_spec(),
            forall|k: int, q: PixelPos|
                0 <= k < r.layer_seq().len() && r.layer_at(k).fits_spec(q) ==> #[trigger] r.layer_at(k).at(q)
                    == self.layer_at(k).at(area.tl().plus(q)),
    {
        let tl = area.top_left();
        let br = area.bottom_right();
        let aw = br.col - tl.col + 1;
        let ah = br.row - tl.row + 1;
        proof {
            assert(self.layer_seq().len() >= 1);
            let m = self.layer_at(0);
            lemma_mul_inequality(aw as int, self.cols() as int, ah as int);
            lemma_mul_inequality(ah as int, self.rows() as int, self.cols() as int);
            lemma_mul_is_commutative(aw as int, ah as int);
            lemma_mul_is_commutative(self.cols() as int, ah as int);
            lemma_mul_is_commutative(self.cols() as int, self.rows() as int);
        }
        let d = self.layers.len();
        let mut layers: Vec<ImgLayer<T>> = Vec::new();
        let mut k: usize = 0;
        while k < d
            invariant
                self.wf(),
                d == self.layer_seq().len(),
                tl == area.tl(),
                br == area.br(),
                area.wf(),
                br.row < self.rows(),
                br.col < self.cols(),
                aw == area.width(),
                ah == area.height(),
                aw * ah <= usize::MAX,
                k <= d,
                layers@.len() == k,
                forall|i: int|
                    0 <= i < k ==> {
                        &&& (#[trigger] layers@[i]).mat_spec().wf()
                        &&& layers@[i].mat_spec().cols() == aw
                        &&& layers@[i].mat_spec().rows() == ah
                        &&& layers@[i].channel_spec() == self.layer_seq()[i].channel_spec()
                        &&& forall|q: PixelPos|
                            layers@[i].mat_spec().fits_spec(q) ==> #[trigger] layers@[i].mat_spec().at(q)
                                == self.layer_at(i).at(tl.plus(q))
                    },
            decreases d - k,
        {
            let src: &Matrix2D<T> = self.layers[k].matrix();
            let f = |q: PixelPos| -> (v: T)
                requires
                    q.row < ah,
                    q.col < aw,
                    src.wf(),
                    src.cols() == self.cols(),
                    src.rows() == self.rows(),
                    tl == area.tl(),
                    area.wf(),
                    area.br().row < self.rows(),
                    area.br().col < self.cols(),
                    aw == area.width(),
                    ah == area.height(),
                ensures
                    v == src.at(tl.plus(q)),
                { src.get(tl + q) };
            let mat = Matrix2D::generate(aw, ah, f);
            layers.push(ImgLayer::new(mat, self.layers[k].channel()));
            k = k + 1;
        }
        proof {
            lemma_same_channels_fit(self.layer_seq(), layers@, self.depth(), self.cols(), self.rows(), aw as nat, ah as nat);
        }
        Img { width: aw, height: ah, layers, color_depth: self.color_depth }
    }
}

impl<T: Copy> Img<T> {
    /// The image with `left` columns added on the left, `top` rows on the top,
    /// `right` columns on the right and `bottom` rows on the bottom. The color
    /// layers are extended as `with` says; an alpha layer is filled with `opaque`,
    /// the value of a fully opaque pixel.
    pub fn extended(
        &self,
        with: ExtendValue<T>,
        left: usize,
        top: usize,
        right: usize,
        bottom: usize,
        opaque: T,
    ) -> (r: Img<T>)
        requires
            self.wf(),
            with is Closest ==> self.cols() >= 1 && self.rows() >= 1,
            left + self.cols() + right <= usize::MAX,
            top + self.rows() + bottom <= usize::MAX,
            (left + self.cols() + right) * (top + self.rows() + bottom) <= usize::MAX,
        ensures
            r.wf(),
            r.depth() == self.depth(),
            r.cols() == left + self.cols() + right,
            r.rows() == top + self.rows() + bottom,
            r.layer_seq().len() == self.layer_seq().len(),
            forall|k: int|
                0 <= k < r.layer_seq().len() ==> (#[trigger] r.layer_seq()[k]).channel_spec()
                    == self.layer_seq()[k].channel_spec(),
            forall|k: int, p: PixelPos|
                0 <= k < r.layer_seq().len() && r.layer_at(k).fits_spec(p) ==> #[trigger] r.layer_at(k).at(p)
                    == if self.layer_seq()[k].channel_spec() == ImgChannel::A {
                    opaque
                } else {
                    self.layer_at(k).ext_at(with, top as int, left as int, p)
                },
    {
        let d = self.layers.len();
        let ew = left + self.width + right;
        let eh = top + self.height + bottom;
        let mut layers: Vec<ImgLayer<T>> = Vec::new();
        let mut k: usize = 0;
        while k < d
            invariant
                self.wf(),
                with is Closest ==> self.cols() >= 1 && self.rows() >= 1,
                d == self.layer_seq().len(),
                ew == left + self.cols() + right,
                eh == top + self.rows() + bottom,
                ew * eh <= usize::MAX,
                k <= d,
                layers@.len() == k,
                forall|i: int|
                    0 <= i < k ==> {
                        &&& (#[trigger] layers@[i]).mat_spec().wf()
                        &&& layers@[i].mat_spec().cols() == ew
                        &&& layers@[i].mat_spec().rows() == eh
                        &&& layers@[i].channel_spec() == self.layer_seq()[i].channel_spec()
                        &&& forall|p: PixelPos|
                            layers@[i].mat_spec().fits_spec(p) ==> #[trigger] layers@[i].mat_spec().at(p)
                                == if self.layer_seq()[i].channel_spec() == ImgChannel::A {
                                opaque
                            } else {
                                self.layer_at(i).ext_at(with, top as int, left as int, p)
                            }
                    },
            decreases d - k,
        {
            let layer = &self.layers[k];
            let mat = if layer.channel() == ImgChannel::A {
                let f = |p: PixelPos| -> (v: T)
                    ensures
                        v == opaque,
                    { opaque };
                Matrix2D::generate(ew, eh, f)
            } else {
                layer.matrix().extended(with, left, top, right, bottom)
            };
            layers.push(ImgLayer::new(mat, layer.channel()));
            k = k + 1;
        }
        proof {
            lemma_same_channels_fit(self.layer_seq(), layers@, self.depth(), self.cols(), self.rows(), ew as nat, eh as nat);
        }
        Img { width: ew, height: eh, layers, color_depth: self.color_depth }
    }
}

impl<T: Copy> Img<T> {
    /// An image like this one, holding the given layers in place of its own: as
    /// many layers, of the same channels, in the same order, of the same size.
    pub fn with_layers(&self, layers: Vec<ImgLayer<T>>) -> (r: Img<T>)
        requires
            self.wf(),
            layers@.len() == self.layer_seq().len(),
            forall|i: int|
                0 <= i < layers@.len() ==> {
                    &&& (#[trigger] layers@[i]).mat_spec().wf()
                    &&& layers@[i].mat_spec().cols() == self.cols()
                    &&& layers@[i].mat_spec().rows() == self.rows()
                    &&& layers@[i].channel_spec() == self.layer_seq()[i].channel_spec()
                },
        ensures
            r.wf(),
            r.layer_seq() == layers@,
            r.depth() == self.depth(),
            r.cols() == self.cols(),
            r.rows() == self.rows(),
    {
        proof {
            lemma_same_channels_fit(self.layer_seq(), layers@, self.depth(), self.cols(), self.rows(), self.cols(), self.rows());
        }
        Img { width: self.width, height: self.height, layers, color_depth: self.color_depth }
    }
}

} // verus!
