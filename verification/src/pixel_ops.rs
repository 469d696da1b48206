use vstd::prelude::*;
use crate::filter_option::{CutBrightnessRange, ValueRepaceWith};
use crate::img::{ColorDepth, depth_channels};

verus! {

/// The number of values of `s` equal to `v`.
pub open spec fn count_eq(s: Seq<u8>, v: int) -> nat
    decreases s.len(),
{
    if s.len() == 0 {
        0
    } else {
        count_eq(s.drop_last(), v) + if s.last() == v {
            1nat
        } else {
            0nat
        }
    }
}

/// The number of values of `s` at most `v`.
pub open spec fn count_le(s: Seq<u8>, v: int) -> nat
    decreases s.len(),
{
    if s.len() == 0 {
        0
    } else {
        count_le(s.drop_last(), v) + if s.last() <= v {
            1nat
        } else {
            0nat
        }
    }
}

/// Counting up to `v` is counting up to `v - 1` and then the values equal to `v`.
pub proof fn lemma_count_le_step(s: Seq<u8>, v: int)
    ensures
        count_le(s, v) == count_le(s, v - 1) + count_eq(s, v),
    decreases s.len(),
{
    if s.len() > 0 {
        lemma_count_le_step(s.drop_last(), v);
    }
}

/// Every value of a sequence of bytes is at most 255, none is below 0.
pub proof fn lemma_count_le_bounds(s: Seq<u8>)
    ensures
        count_le(s, 255) == s.len(),
        count_le(s, -1) == 0,
    decreases s.len(),
{
    if s.len() > 0 {
        lemma_count_le_bounds(s.drop_last());
    }
}

/// Counting grows with the bound.
pub proof fn lemma_count_le_monotonic(s: Seq<u8>, a: int, b: int)
    requires
        a <= b,
    ensures
        count_le(s, a) <= count_le(s, b),
    decreases s.len(),
{
    if s.len() > 0 {
        lemma_count_le_monotonic(s.drop_last(), a, b);
    }
}

proof fn lemma_count_eq_push(s: Seq<u8>, x: u8, v: int)
    ensures
        count_eq(s.push(x), v) == count_eq(s, v) + if x == v {
            1nat
        } else {
            0nat
        },
{
    assert(s.push(x).drop_last() =~= s);
}

/// The histogram of a sequence of bytes: at each of the 256 values, how many
/// values of the sequence equal it.
pub fn count_histogram(values: &[u8]) -> (r: Vec<usize>)
    ensures
        r@.len() == 256,
        forall|b: int| 0 <= b < 256 ==> #[trigger] r@[b] == count_eq(values@, b),
{
    let mut hist: Vec<usize> = Vec::new();
    let mut b: usize = 0;
    while b < 256
        invariant
            b <= 256,
            hist@.len() == b,
            forall|c: int| 0 <= c < b ==> #[trigger] hist@[c] == 0,
        decreases 256 - b,
    {
        hist.push(0);
        b = b + 1;
    }
    let mut i: usize = 0;
    while i < values.len()
        invariant
            i <= values@.len(),
            hist@.len() == 256,
            forall|c: int| 0 <= c < 256 ==> #[trigger] hist@[c] == count_eq(values@.take(i as int), c),
        decreases values@.len() - i,
    {
        let v = values[i];
        proof {
            assert(values@.take(i + 1) =~= values@.take(i as int).push(v));
            assert forall|c: int| 0 <= c < 256 implies count_eq(values@.take(i + 1), c) == count_eq(
                values@.take(i as int),
                c,
            ) + if v == c {
                1nat
            } else {
                0nat
            } by {
                lemma_count_eq_push(values@.take(i as int), v, c);
            }
            assert(count_eq(values@.take(i as int), v as int) <= i) by {
                lemma_count_eq_le_len(values@.take(i as int), v as int);
            }
        }
        let cur = hist[v as usize];
        hist.set(v as usize, cur + 1);
        i = i + 1;
    }
    proof {
        assert(values@.take(values@.len() as int) =~= values@);
    }
    hist
}

proof fn lemma_count_eq_le_len(s: Seq<u8>, v: int)
    ensures
        count_eq(s, v) <= s.len(),
    decreases s.len(),
{
    if s.len() > 0 {
        lemma_count_eq_le_len(s.drop_last(), v);
    }
}

/// The value that the median filter takes from a window: the smallest value `r`
/// such that at least half the window (rounded down) is at most `r`.
pub open spec fn window_median(s: Seq<u8>) -> int {
    choose|r: int|
        0 <= r < 256 && count_le(s, r) >= s.len() / 2 && forall|q: int|
            0 <= q < r ==> count_le(s, q) < s.len() / 2
}

/// Searching upwards from `v` finds the value `window_median` describes.
proof fn lemma_median_search(s: Seq<u8>, v: int)
    requires
        0 <= v < 256,
        forall|q: int| 0 <= q < v ==> count_le(s, q) < s.len() / 2,
    ensures
        exists|r: int|
            0 <= r < 256 && count_le(s, r) >= s.len() / 2 && forall|q: int|
                0 <= q < r ==> count_le(s, q) < s.len() / 2,
    decreases 256 - v,
{
    lemma_count_le_bounds(s);
    if count_le(s, v) >= s.len() / 2 {
        assert(0 <= v < 256 && count_le(s, v) >= s.len() / 2 && forall|q: int|
            0 <= q < v ==> count_le(s, q) < s.len() / 2);
    } else {
        lemma_median_search(s, v + 1);
    }
}

proof fn lemma_count_eq_contains(s: Seq<u8>, v: int)
    requires
        count_eq(s, v) > 0,
    ensures
        exists|i: int| 0 <= i < s.len() && s[i] == v,
    decreases s.len(),
{
    if s.last() == v {
        assert(s[s.len() - 1] == v);
    } else {
        lemma_count_eq_contains(s.drop_last(), v);
        let i = choose|i: int| 0 <= i < s.drop_last().len() && s.drop_last()[i] == v;
        assert(s[i] == v);
    }
}

/// The value the median filter takes from a window of at least two values is one of
/// the values of the window.
pub proof fn lemma_median_is_a_window_value(s: Seq<u8>)
    requires
        s.len() >= 2,
    ensures
        exists|i: int| 0 <= i < s.len() && s[i] == window_median(s),
{
    lemma_median_search(s, 0);
    let r = window_median(s);
    lemma_count_le_step(s, r);
    if count_eq(s, r) == 0 {
        if r == 0 {
            lemma_count_le_bounds(s);
        } else {
            assert(count_le(s, r - 1) < s.len() / 2);
        }
    }
    lemma_count_eq_contains(s, r);
}

/// The median of a window of bytes by its histogram: the smallest value at or
/// below which lies at least half of the window, rounded down.
pub fn median_of_window(window: &[u8]) -> (r: u8)
    ensures
        count_le(window@, r as int) >= window@.len() / 2,
        forall|q: int| 0 <= q < r ==> count_le(window@, q) < window@.len() / 2,
        r == window_median(window@),
{
    let hist = count_histogram(window);
    let half = window.len() / 2;
    let mut values_until_median = half;
    let mut bin_ind: usize = 0;
    proof {
        lemma_count_le_bounds(window@);
    }
    while bin_ind < hist.len() && values_until_median > hist[bin_ind]
        invariant
            hist@.len() == 256,
            forall|b: int| 0 <= b < 256 ==> #[trigger] hist@[b] == count_eq(window@, b),
            half == window@.len() / 2,
            bin_ind <= 256,
            count_le(window@, bin_ind - 1) <= half,
            values_until_median == half - count_le(window@, bin_ind - 1),
            forall|q: int| 0 <= q < bin_ind ==> count_le(window@, q) < half,
            count_le(window@, 255) == window@.len(),
        decreases 256 - bin_ind,
    {
        proof {
            lemma_count_le_step(window@, bin_ind as int);
        }
        values_until_median = values_until_median - hist[bin_ind];
        bin_ind = bin_ind + 1;
    }
    proof {
        if bin_ind == 256 {
            assert(count_le(window@, 255) < half);
            assert(false);
        }
        lemma_count_le_step(window@, bin_ind as int);
        let r = bin_ind as int;
        assert(count_le(window@, r) >= half);
        assert forall|q: int| 0 <= q < r implies count_le(window@, q) < window@.len() / 2 by {}
        let m = window_median(window@);
        assert(0 <= r < 256 && count_le(window@, r) >= window@.len() / 2 && forall|q: int|
            0 <= q < r ==> count_le(window@, q) < window@.len() / 2);
        assert(0 <= m < 256 && count_le(window@, m) >= window@.len() / 2 && forall|q: int|
            0 <= q < m ==> count_le(window@, q) < window@.len() / 2);
        if m < r {
            assert(count_le(window@, m) < window@.len() / 2);
        }
        if r < m {
            assert(count_le(window@, r) < window@.len() / 2);
        }
    }
    bin_ind as u8
}

/// What the brightness cut makes of a value: a value inside the range stays, a
/// value that is both below the minimum and above the maximum (possible only
/// when the minimum exceeds the maximum) becomes the replacement, any other
/// value outside the range becomes 0.
pub open spec fn cut_value(v: u8, range: CutBrightnessRange, replace_with: ValueRepaceWith) -> u8 {
    let before_min = v < range.min;
    let after_max = v > range.max;
    if before_min && after_max {
        replace_with.value
    } else if before_min || after_max {
        0
    } else {
        v
    }
}

/// The brightness cut of one value, as `cut_value` says.
pub fn cut_brightness_value(v: u8, range: CutBrightnessRange, replace_with: ValueRepaceWith) -> (r: u8)
    ensures
        r == cut_value(v, range, replace_with),
{
    let before_min = v < range.min;
    let after_max = v > range.max;
    let keep: u8 = if !before_min && !after_max {
        1
    } else {
        0
    };
    let replace: u8 = if before_min && after_max {
        1
    } else {
        0
    };
    v * keep + replace_with.value * replace
}

/// The gray value of a red, green and blue value: each weighted part is rounded
/// down on its own.
pub open spec fn gray_of(r: u8, g: u8, b: u8) -> int {
    r * 299 / 1000 + g * 587 / 1000 + b * 114 / 1000
}

/// How red, green and blue count in the gray value: each channel on its own gives
/// its value times 299, 587 and 114 thousandths, rounded down, and the gray value of
/// a pixel is the sum of what its three channels give on their own.
pub proof fn lemma_gray_weights(r: u8, g: u8, b: u8)
    ensures
        gray_of(r, 0, 0) == r * 299 / 1000,
        gray_of(0, g, 0) == g * 587 / 1000,
        gray_of(0, 0, b) == b * 114 / 1000,
        gray_of(r, g, b) == gray_of(r, 0, 0) + gray_of(0, g, 0) + gray_of(0, 0, b),
{
}

/// Green weighs most in the gray value, then red, then blue; a pixel whose three
/// values are equal is never brighter in gray, and white becomes 254.
pub proof fn lemma_gray_order(v: u8)
    ensures
        gray_of(v, 0, 0) <= gray_of(0, v, 0),
        gray_of(0, 0, v) <= gray_of(v, 0, 0),
        gray_of(v, v, v) <= v,
        gray_of(255, 255, 255) == 254,
{
    assert(v * 299 / 1000 <= v * 587 / 1000) by (nonlinear_arith)
        requires
            0 <= v <= 255,
    ;
    assert(v * 114 / 1000 <= v * 299 / 1000) by (nonlinear_arith)
        requires
            0 <= v <= 255,
    ;
    assert(v * 299 / 1000 + v * 587 / 1000 + v * 114 / 1000 <= v) by (nonlinear_arith)
        requires
            0 <= v <= 255,
    ;
}

/// The gray value of the pixel that starts at `start` in interleaved values.
pub open spec fn gray_at(values: Seq<u8>, start: int, depth: ColorDepth) -> int {
    match depth {
        ColorDepth::L8 | ColorDepth::La8 => values[start] as int,
        ColorDepth::Rgb8 | ColorDepth::Rgba8 => gray_of(values[start], values[start + 1], values[start + 2]),
    }
}

/// Turns interleaved values of a color depth into one gray value per pixel: the
/// luminance where there is one, the weighted sum of red, green and blue otherwise.
pub fn to_gray_values(values: &[u8], depth: ColorDepth) -> (r: Vec<u8>)
    requires
        values@.len() % depth_channels(depth).len() == 0,
    ensures
        r@.len() == values@.len() / depth_channels(depth).len(),
        forall|i: int|
            0 <= i < r@.len() ==> #[trigger] r@[i] == gray_at(
                values@,
                i * depth_channels(depth).len(),
                depth,
            ),
{
    let d = depth.count();
    let len = values.len();
    let n = len / d;
    let mut out: Vec<u8> = Vec::new();
    let mut i: usize = 0;
    while i < n
        invariant
            d == depth_channels(depth).len(),
            1 <= d <= 4,
            len == values@.len(),
            n == values@.len() / (d as nat),
            values@.len() % (d as nat) == 0,
            i <= n,
            out@.len() == i,
            forall|j: int| 0 <= j < i ==> #[trigger] out@[j] == gray_at(values@, j * d, depth),
        decreases n - i,
    {
        proof {
            vstd::arithmetic::div_mod::lemma_fundamental_div_mod(values@.len() as int, d as int);
            assert(i * d + d <= n * d) by (nonlinear_arith)
                requires
                    i < n,
                    d >= 1,
            ;
            assert(n * d <= len) by (nonlinear_arith)
                requires
                    len == d * n + len % d,
                    len % d == 0,
            ;
        }
        let start = i * d;
        let v: u8 = match depth {
            ColorDepth::L8 | ColorDepth::La8 => values[start],
            ColorDepth::Rgb8 | ColorDepth::Rgba8 => {
                let red = values[start] as u32;
                let green = values[start + 1] as u32;
                let blue = values[start + 2] as u32;
                let grey: u32 = red * 299 / 1000 + green * 587 / 1000 + blue * 114 / 1000;
                assert(grey <= 254) by (nonlinear_arith)
                    requires
                        red <= 255,
                        green <= 255,
                        blue <= 255,
                        grey == red * 299 / 1000 + green * 587 / 1000 + blue * 114 / 1000,
                ;
                grey as u8
            },
        };
        out.push(v);
        i = i + 1;
    }
    out
}

/// The largest count of a histogram of 256 bins.
pub open spec fn is_max_count(s: Seq<u8>, m: int) -> bool {
    &&& forall|b: int| 0 <= b < 256 ==> count_eq(s, b) <= m
    &&& exists|b: int| 0 <= b < 256 && count_eq(s, b) == m
}

/// The two extremes that the local contrast of a window is computed from. Both
/// are raised to every larger nonzero count of the histogram of the window, so
/// both end as the largest count and the contrast of a window is always 0.
pub fn hist_contrast_extremes(window: &[u8]) -> (r: (u32, u32))
    requires
        window@.len() <= u32::MAX,
    ensures
        r.0 == r.1,
        is_max_count(window@, r.0 as int),
{
    let hist = count_histogram(window);
    proof {
        assert forall|b: int| 0 <= b < 256 implies #[trigger] hist@[b] <= window@.len() by {
            lemma_count_eq_le_len(window@, b);
        }
    }
    let mut max_value: u32 = hist[0] as u32;
    let mut min_value: u32 = hist[0] as u32;
    let mut b: usize = 1;
    while b < 256
        invariant
            hist@.len() == 256,
            forall|c: int| 0 <= c < 256 ==> #[trigger] hist@[c] == count_eq(window@, c),
            forall|c: int| 0 <= c < 256 ==> #[trigger] hist@[c] <= window@.len(),
            window@.len() <= u32::MAX,
            1 <= b <= 256,
            max_value == min_value,
            forall|c: int| 0 <= c < b ==> count_eq(window@, c) <= max_value,
            exists|c: int| 0 <= c < b && count_eq(window@, c) == max_value,
        decreases 256 - b,
    {
        let v = hist[b] as u32;
        if v != 0 {
            if max_value < v {
                max_value = v;
            }
            if min_value < v {
                min_value = v;
            }
        }
        b = b + 1;
    }
    (max_value, min_value)
}

/// The prefix sums of a histogram: at each bin, the count of that bin and of all
/// bins below it.
pub open spec fn prefix_sum(s: Seq<usize>, i: int) -> int
    decreases i,
{
    if i <= 0 {
        0
    } else {
        prefix_sum(s, i - 1) + s[i - 1]
    }
}

/// Cumulates a histogram: each bin becomes the sum of itself and the bins below.
pub fn cumulate_histogram(hist: &Vec<usize>) -> (r: Vec<usize>)
    requires
        prefix_sum(hist@, hist@.len() as int) <= usize::MAX,
    ensures
        r@.len() == hist@.len(),
        forall|i: int| 0 <= i < r@.len() ==> #[trigger] r@[i] == prefix_sum(hist@, i + 1),
{
    let mut out: Vec<usize> = Vec::new();
    let mut sum: usize = 0;
    let mut i: usize = 0;
    while i < hist.len()
        invariant
            i <= hist@.len(),
            out@.len() == i,
            sum == prefix_sum(hist@, i as int),
            prefix_sum(hist@, hist@.len() as int) <= usize::MAX,
            forall|j: int| 0 <= j < i ==> #[trigger] out@[j] == prefix_sum(hist@, j + 1),
        decreases hist@.len() - i,
    {
        proof {
            lemma_prefix_sum_monotonic(hist@, i + 1, hist@.len() as int);
        }
        sum = sum + hist[i];
        out.push(sum);
        i = i + 1;
    }
    out
}

proof fn lemma_prefix_sum_monotonic(s: Seq<usize>, i: int, j: int)
    requires
        0 <= i <= j <= s.len(),
    ensures
        prefix_sum(s, i) <= prefix_sum(s, j),
    decreases j - i,
{
    if i < j {
        lemma_prefix_sum_monotonic(s, i, j - 1);
    }
}

} // verus!
