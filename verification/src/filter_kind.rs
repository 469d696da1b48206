use vstd::prelude::*;
use vstd::string::StringSliceAdditionalSpecFns;
use crate::edge_detection::CannyEdgeDetection;
use crate::filter::{CutBrightness, EqualizeHist, ExtractChannel, MedianFilter, NeutralizeChannel, Rgb2Gray};
use crate::filter_option::{
    bytes_eq, channel_from, channel_letter, lemma_channel_text_reads_back, text_channel, CutBrightnessRange,
    FilterWindowSize, ImgChannel, ParseError, ValueRepaceWith,
};
use crate::linear::LinearMean;
use crate::message::AddStep;
use crate::matrix2d::ExtendValue;
use crate::settings::{
    cut_settings_from, is_window_settings_text, lemma_window_settings_round_trip, parse_window_settings,
    window_settings_from, window_size_checked,
};
use crate::project::{lemma_project_round_trip, project_steps, project_text, savable_step, SavedStep};
use crate::text_check::blank;

verus! {

/// The kinds of processing step, one per filter.
#[derive(Clone, Copy, Debug, PartialEq, Eq, Structural)]
pub enum FilterKind {
    LinearCustom,
    LinearMean,
    LinearGaussian,
    MedianFilter,
    HistogramLocalContrast,
    CutBrightness,
    EqualizeHist,
    Rgb2Gray,
    NeutralizeChannel,
    ExtractChannel,
    CannyEdgeDetection,
}

/// The name a filter is saved under, as bytes.
pub open spec fn name_bytes(kind: FilterKind) -> Seq<u8> {
    match kind {
        FilterKind::LinearCustom => seq![76u8, 105u8, 110u8, 101u8, 97u8, 114u8, 67u8, 117u8, 115u8, 116u8, 111u8, 109u8],
        FilterKind::LinearMean => seq![76u8, 105u8, 110u8, 101u8, 97u8, 114u8, 77u8, 101u8, 97u8, 110u8],
        FilterKind::LinearGaussian => seq![76u8, 105u8, 110u8, 101u8, 97u8, 114u8, 71u8, 97u8, 117u8, 115u8, 115u8, 105u8, 97u8, 110u8],
        FilterKind::MedianFilter => seq![77u8, 101u8, 100u8, 105u8, 97u8, 110u8, 70u8, 105u8, 108u8, 116u8, 101u8, 114u8],
        FilterKind::HistogramLocalContrast => seq![72u8, 105u8, 115u8, 116u8, 111u8, 103u8, 114u8, 97u8, 109u8, 76u8, 111u8, 99u8, 97u8, 108u8, 67u8, 111u8, 110u8, 116u8, 114u8, 97u8, 115u8, 116u8],
        FilterKind::CutBrightness => seq![67u8, 117u8, 116u8, 66u8, 114u8, 105u8, 103u8, 104u8, 116u8, 110u8, 101u8, 115u8, 115u8],
        FilterKind::EqualizeHist => seq![69u8, 113u8, 117u8, 97u8, 108u8, 105u8, 122u8, 101u8, 72u8, 105u8, 115u8, 116u8],
        FilterKind::Rgb2Gray => seq![82u8, 103u8, 98u8, 50u8, 71u8, 114u8, 97u8, 121u8],
        FilterKind::NeutralizeChannel => seq![78u8, 101u8, 117u8, 116u8, 114u8, 97u8, 108u8, 105u8, 122u8, 101u8, 67u8, 104u8, 97u8, 110u8, 110u8, 101u8, 108u8],
        FilterKind::ExtractChannel => seq![69u8, 120u8, 116u8, 114u8, 97u8, 99u8, 116u8, 67u8, 104u8, 97u8, 110u8, 110u8, 101u8, 108u8],
        FilterKind::CannyEdgeDetection => seq![67u8, 97u8, 110u8, 110u8, 121u8, 69u8, 100u8, 103u8, 101u8, 68u8, 101u8, 116u8, 101u8, 99u8, 116u8, 105u8, 111u8, 110u8],
    }
}

/// The kind of filter saved under a name, if any.
pub open spec fn kind_of_name(name: Seq<u8>) -> Option<FilterKind> {
    if name == name_bytes(FilterKind::LinearCustom) {
        Some(FilterKind::LinearCustom)
    } else if name == name_bytes(FilterKind::LinearMean) {
        Some(FilterKind::LinearMean)
    } else if name == name_bytes(FilterKind::LinearGaussian) {
        Some(FilterKind::LinearGaussian)
    } else if name == name_bytes(FilterKind::MedianFilter) {
        Some(FilterKind::MedianFilter)
    } else if name == name_bytes(FilterKind::HistogramLocalContrast) {
        Some(FilterKind::HistogramLocalContrast)
    } else if name == name_bytes(FilterKind::CutBrightness) {
        Some(FilterKind::CutBrightness)
    } else if name == name_bytes(FilterKind::EqualizeHist) {
        Some(FilterKind::EqualizeHist)
    } else if name == name_bytes(FilterKind::Rgb2Gray) {
        Some(FilterKind::Rgb2Gray)
    } else if name == name_bytes(FilterKind::NeutralizeChannel) {
        Some(FilterKind::NeutralizeChannel)
    } else if name == name_bytes(FilterKind::ExtractChannel) {
        Some(FilterKind::ExtractChannel)
    } else if name == name_bytes(FilterKind::CannyEdgeDetection) {
        Some(FilterKind::CannyEdgeDetection)
    } else {
        None
    }
}

/// The name each filter is saved under leads back to that filter.
pub proof fn lemma_name_reads_back(kind: FilterKind)
    ensures
        kind_of_name(name_bytes(kind)) == Some(kind),
{
    let n = name_bytes(kind);
    if kind != FilterKind::LinearCustom {
        assert(n.len() != 12 || n[0] != 76u8);
    }
    if kind != FilterKind::LinearMean {
        assert(n.len() != 10 || n[0] != 76u8);
    }
    if kind != FilterKind::LinearGaussian {
        assert(n.len() != 14 || n[0] != 76u8);
    }
    if kind != FilterKind::MedianFilter {
        assert(n.len() != 12 || n[0] != 77u8);
    }
    if kind != FilterKind::HistogramLocalContrast {
        assert(n.len() != 22);
    }
    if kind != FilterKind::CutBrightness {
        assert(n.len() != 13);
    }
    if kind != FilterKind::EqualizeHist {
        assert(n.len() != 12 || n[0] != 69u8);
    }
    if kind != FilterKind::Rgb2Gray {
        assert(n.len() != 8);
    }
    if kind != FilterKind::NeutralizeChannel {
        assert(n.len() != 17);
    }
    if kind != FilterKind::ExtractChannel {
        assert(n.len() != 14 || n[0] != 69u8);
    }
    if kind != FilterKind::CannyEdgeDetection {
        assert(n.len() != 18);
    }
}

impl FilterKind {
    /// The name the filter is saved under.
    pub fn save_name(&self) -> (r: &'static str)
        ensures
            r.spec_bytes() == name_bytes(*self),
    {
        match self {
            FilterKind::LinearCustom => {
                let s = "LinearCustom";
                proof {
                    reveal_strlit("LinearCustom");
                    assert(s@ =~= seq!['L', 'i', 'n', 'e', 'a', 'r', 'C', 'u', 's', 't', 'o', 'm']);
                    vstd::string::is_ascii_spec_bytes(s);
                    assert(s.spec_bytes() =~= name_bytes(*self));
                }
                s
            },
            FilterKind::LinearMean => {
                let s = "LinearMean";
                proof {
                    reveal_strlit("LinearMean");
                    assert(s@ =~= seq!['L', 'i', 'n', 'e', 'a', 'r', 'M', 'e', 'a', 'n']);
                    vstd::string::is_ascii_spec_bytes(s);
                    assert(s.spec_bytes() =~= name_bytes(*self));
                }
                s
            },
            FilterKind::LinearGaussian => {
                let s = "LinearGaussian";
                proof {
                    reveal_strlit("LinearGaussian");
                    assert(s@ =~= seq!['L', 'i', 'n', 'e', 'a', 'r', 'G', 'a', 'u', 's', 's', 'i', 'a', 'n']);
                    vstd::string::is_ascii_spec_bytes(s);
                    assert(s.spec_bytes() =~= name_bytes(*self));
                }
                s
            },
            FilterKind::MedianFilter => {
                let s = "MedianFilter";
                proof {
                    reveal_strlit("MedianFilter");
                    assert(s@ =~= seq!['M', 'e', 'd', 'i', 'a', 'n', 'F', 'i', 'l', 't', 'e', 'r']);
                    vstd::string::is_ascii_spec_bytes(s);
                    assert(s.spec_bytes() =~= name_bytes(*self));
                }
                s
            },
            FilterKind::HistogramLocalContrast => {
                let s = "HistogramLocalContrast";
                proof {
                    reveal_strlit("HistogramLocalContrast");
                    assert(s@ =~= seq!['H', 'i', 's', 't', 'o', 'g', 'r', 'a', 'm', 'L', 'o', 'c', 'a', 'l', 'C', 'o', 'n', 't', 'r', 'a', 's', 't']);
                    vstd::string::is_ascii_spec_bytes(s);
                    assert(s.spec_bytes() =~= name_bytes(*self));
                }
                s
            },
            FilterKind::CutBrightness => {
                let s = "CutBrightness";
                proof {
                    reveal_strlit("CutBrightness");
                    assert(s@ =~= seq!['C', 'u', 't', 'B', 'r', 'i', 'g', 'h', 't', 'n', 'e', 's', 's']);
                    vstd::string::is_ascii_spec_bytes(s);
                    assert(s.spec_bytes() =~= name_bytes(*self));
                }
                s
            },
            FilterKind::EqualizeHist => {
                let s = "EqualizeHist";
                proof {
                    reveal_strlit("EqualizeHist");
                    assert(s@ =~= seq!['E', 'q', 'u', 'a', 'l', 'i', 'z', 'e', 'H', 'i', 's', 't']);
                    vstd::string::is_ascii_spec_bytes(s);
                    assert(s.spec_bytes() =~= name_bytes(*self));
                }
                s
            },
            FilterKind::Rgb2Gray => {
                let s = "Rgb2Gray";
                proof {
                    reveal_strlit("Rgb2Gray");
                    assert(s@ =~= seq!['R', 'g', 'b', '2', 'G', 'r', 'a', 'y']);
                    vstd::string::is_ascii_spec_bytes(s);
                    assert(s.spec_bytes() =~= name_bytes(*self));
                }
                s
            },
            FilterKind::NeutralizeChannel => {
                let s = "NeutralizeChannel";
                proof {
                    reveal_strlit("NeutralizeChannel");
                    assert(s@ =~= seq!['N', 'e', 'u', 't', 'r', 'a', 'l', 'i', 'z', 'e', 'C', 'h', 'a', 'n', 'n', 'e', 'l']);
                    vstd::string::is_ascii_spec_bytes(s);
                    assert(s.spec_bytes() =~= name_bytes(*self));
                }
                s
            },
            FilterKind::ExtractChannel => {
                let s = "ExtractChannel";
                proof {
                    reveal_strlit("ExtractChannel");
                    assert(s@ =~= seq!['E', 'x', 't', 'r', 'a', 'c', 't', 'C', 'h', 'a', 'n', 'n', 'e', 'l']);
                    vstd::string::is_ascii_spec_bytes(s);
                    assert(s.spec_bytes() =~= name_bytes(*self));
                }
                s
            },
            FilterKind::CannyEdgeDetection => {
                let s = "CannyEdgeDetection";
                proof {
                    reveal_strlit("CannyEdgeDetection");
                    assert(s@ =~= seq!['C', 'a', 'n', 'n', 'y', 'E', 'd', 'g', 'e', 'D', 'e', 't', 'e', 'c', 't', 'i', 'o', 'n']);
                    vstd::string::is_ascii_spec_bytes(s);
                    assert(s.spec_bytes() =~= name_bytes(*self));
                }
                s
            },
        }
    }

    /// The kind of filter saved under a name, as `kind_of_name` says.
    pub fn from_save_name(name: &str) -> (r: Option<FilterKind>)
        ensures
            r == kind_of_name(name.spec_bytes()),
    {
        let b = name.as_bytes();
        let n: [u8; 12] = [76u8, 105u8, 110u8, 101u8, 97u8, 114u8, 67u8, 117u8, 115u8, 116u8, 111u8, 109u8];
        proof {
            assert(n@ =~= name_bytes(FilterKind::LinearCustom));
        }
        if bytes_eq(b, n.as_slice()) {
            return Some(FilterKind::LinearCustom);
        }
        let n: [u8; 10] = [76u8, 105u8, 110u8, 101u8, 97u8, 114u8, 77u8, 101u8, 97u8, 110u8];
        proof {
            assert(n@ =~= name_bytes(FilterKind::LinearMean));
        }
        if bytes_eq(b, n.as_slice()) {
            return Some(FilterKind::LinearMean);
        }
        let n: [u8; 14] = [76u8, 105u8, 110u8, 101u8, 97u8, 114u8, 71u8, 97u8, 117u8, 115u8, 115u8, 105u8, 97u8, 110u8];
        proof {
            assert(n@ =~= name_bytes(FilterKind::LinearGaussian));
        }
        if bytes_eq(b, n.as_slice()) {
            return Some(FilterKind::LinearGaussian);
        }
        let n: [u8; 12] = [77u8, 101u8, 100u8, 105u8, 97u8, 110u8, 70u8, 105u8, 108u8, 116u8, 101u8, 114u8];
        proof {
            assert(n@ =~= name_bytes(FilterKind::MedianFilter));
        }
        if bytes_eq(b, n.as_slice()) {
            return Some(FilterKind::MedianFilter);
        }
        let n: [u8; 22] = [72u8, 105u8, 115u8, 116u8, 111u8, 103u8, 114u8, 97u8, 109u8, 76u8, 111u8, 99u8, 97u8, 108u8, 67u8, 111u8, 110u8, 116u8, 114u8, 97u8, 115u8, 116u8];
        proof {
            assert(n@ =~= name_bytes(FilterKind::HistogramLocalContrast));
        }
        if bytes_eq(b, n.as_slice()) {
            return Some(FilterKind::HistogramLocalContrast);
        }
        let n: [u8; 13] = [67u8, 117u8, 116u8, 66u8, 114u8, 105u8, 103u8, 104u8, 116u8, 110u8, 101u8, 115u8, 115u8];
        proof {
            assert(n@ =~= name_bytes(FilterKind::CutBrightness));
        }
        if bytes_eq(b, n.as_slice()) {
            return Some(FilterKind::CutBrightness);
        }
        let n: [u8; 12] = [69u8, 113u8, 117u8, 97u8, 108u8, 105u8, 122u8, 101u8, 72u8, 105u8, 115u8, 116u8];
        proof {
            assert(n@ =~= name_bytes(FilterKind::EqualizeHist));
        }
        if bytes_eq(b, n.as_slice()) {
            return Some(FilterKind::EqualizeHist);
        }
        let n: [u8; 8] = [82u8, 103u8, 98u8, 50u8, 71u8, 114u8, 97u8, 121u8];
        proof {
            assert(n@ =~= name_bytes(FilterKind::Rgb2Gray));
        }
        if bytes_eq(b, n.as_slice()) {
            return Some(FilterKind::Rgb2Gray);
        }
        let n: [u8; 17] = [78u8, 101u8, 117u8, 116u8, 114u8, 97u8, 108u8, 105u8, 122u8, 101u8, 67u8, 104u8, 97u8, 110u8, 110u8, 101u8, 108u8];
        proof {
            assert(n@ =~= name_bytes(FilterKind::NeutralizeChannel));
        }
        if bytes_eq(b, n.as_slice()) {
            return Some(FilterKind::NeutralizeChannel);
        }
        let n: [u8; 14] = [69u8, 120u8, 116u8, 114u8, 97u8, 99u8, 116u8, 67u8, 104u8, 97u8, 110u8, 110u8, 101u8, 108u8];
        proof {
            assert(n@ =~= name_bytes(FilterKind::ExtractChannel));
        }
        if bytes_eq(b, n.as_slice()) {
            return Some(FilterKind::ExtractChannel);
        }
        let n: [u8; 18] = [67u8, 97u8, 110u8, 110u8, 121u8, 69u8, 100u8, 103u8, 101u8, 68u8, 101u8, 116u8, 101u8, 99u8, 116u8, 105u8, 111u8, 110u8];
        proof {
            assert(n@ =~= name_bytes(FilterKind::CannyEdgeDetection));
        }
        if bytes_eq(b, n.as_slice()) {
            return Some(FilterKind::CannyEdgeDetection);
        }
        None
    }
}

/// The filter a new step of each kind applies.
pub open spec fn step_kind(step: AddStep) -> FilterKind {
    match step {
        AddStep::LinCustom => FilterKind::LinearCustom,
        AddStep::LinMean => FilterKind::LinearMean,
        AddStep::LinGauss => FilterKind::LinearGaussian,
        AddStep::Median => FilterKind::MedianFilter,
        AddStep::HistogramLocalContrast => FilterKind::HistogramLocalContrast,
        AddStep::CutBrightness => FilterKind::CutBrightness,
        AddStep::HistogramEqualizer => FilterKind::EqualizeHist,
        AddStep::Rgb2Gray => FilterKind::Rgb2Gray,
        AddStep::NeutralizeChannel => FilterKind::NeutralizeChannel,
        AddStep::ExtractChannel => FilterKind::ExtractChannel,
        AddStep::CannyEdgeDetection => FilterKind::CannyEdgeDetection,
    }
}

impl FilterKind {
    /// The filter a new step applies, as `step_kind` says.
    pub fn for_step(step: AddStep) -> (r: FilterKind)
        ensures
            r == step_kind(step),
    {
        match step {
            AddStep::LinCustom => FilterKind::LinearCustom,
            AddStep::LinMean => FilterKind::LinearMean,
            AddStep::LinGauss => FilterKind::LinearGaussian,
            AddStep::Median => FilterKind::MedianFilter,
            AddStep::HistogramLocalContrast => FilterKind::HistogramLocalContrast,
            AddStep::CutBrightness => FilterKind::CutBrightness,
            AddStep::HistogramEqualizer => FilterKind::EqualizeHist,
            AddStep::Rgb2Gray => FilterKind::Rgb2Gray,
            AddStep::NeutralizeChannel => FilterKind::NeutralizeChannel,
            AddStep::ExtractChannel => FilterKind::ExtractChannel,
            AddStep::CannyEdgeDetection => FilterKind::CannyEdgeDetection,
        }
    }
}

/// A filter read from its saved name and settings. The filters whose settings hold
/// real values come without them: their settings text is read by the caller.
#[derive(Clone, Copy, Debug)]
pub enum ParsedFilter {
    LinearCustom,
    LinearMean(LinearMean),
    /// A Gaussian blur with its window and border value.
    LinearGaussian(FilterWindowSize, ExtendValue<u8>),
    MedianFilter(MedianFilter),
    HistogramLocalContrast,
    CutBrightness(CutBrightness),
    EqualizeHist(EqualizeHist),
    Rgb2Gray(Rgb2Gray),
    NeutralizeChannel(NeutralizeChannel),
    ExtractChannel(ExtractChannel),
    CannyEdgeDetection(CannyEdgeDetection),
}

/// The settings of a filter as a saved project holds them.
#[derive(Clone, Copy, Debug)]
pub enum FilterSettings {
    /// A mean, Gaussian or median filter: its kind, its window and its border value.
    Window(FilterKind, FilterWindowSize, ExtendValue<u8>),
    /// The brightness cut: its range and its replacement value.
    Cut(CutBrightnessRange, ValueRepaceWith),
    /// Channel extraction: the kept channel.
    Extract(ImgChannel),
    /// Channel neutralization: the cleared channel.
    Neutralize(ImgChannel),
    EqualizeHist,
    Rgb2Gray,
    /// Canny's detector: the window and the border value of its blur.
    Canny(FilterWindowSize, ExtendValue<u8>),
    /// A filter whose settings hold real values; its settings text is read by the caller.
    Unread(FilterKind),
}

/// The kind of filter the settings belong to.
pub open spec fn settings_kind(s: FilterSettings) -> FilterKind {
    match s {
        FilterSettings::Window(k, _, _) => k,
        FilterSettings::Cut(_, _) => FilterKind::CutBrightness,
        FilterSettings::Extract(_) => FilterKind::ExtractChannel,
        FilterSettings::Neutralize(_) => FilterKind::NeutralizeChannel,
        FilterSettings::EqualizeHist => FilterKind::EqualizeHist,
        FilterSettings::Rgb2Gray => FilterKind::Rgb2Gray,
        FilterSettings::Canny(_, _) => FilterKind::CannyEdgeDetection,
        FilterSettings::Unread(k) => k,
    }
}

/// The Canny detector as a new step makes it: a 5x5 blur with the closest value at
/// the border.
pub open spec fn default_canny() -> FilterSettings {
    FilterSettings::Canny(FilterWindowSize { width: 5, height: 5 }, ExtendValue::<u8>::Closest)
}

/// What a filter saved under the name `name` with the settings text `content` is read
/// back as: the filter named, with its default settings, then the settings read from
/// the text. An unknown name, or settings the filter refuses, give the error.
pub open spec fn read_filter(name: Seq<u8>, content: &str) -> Result<FilterSettings, ParseError> {
    let text = content.spec_bytes();
    match kind_of_name(name) {
        None => Err(ParseError::UnknownFilter),
        Some(k) => match k {
            FilterKind::LinearCustom => Ok(FilterSettings::Unread(k)),
            FilterKind::HistogramLocalContrast => Ok(FilterSettings::Unread(k)),
            FilterKind::LinearMean | FilterKind::LinearGaussian | FilterKind::MedianFilter => match window_settings_from(text) {
                Ok(v) => Ok(FilterSettings::Window(k, v.0, v.1)),
                Err(e) => Err(e),
            },
            FilterKind::CutBrightness => match cut_settings_from(text) {
                Ok(v) => Ok(FilterSettings::Cut(v.0, v.1)),
                Err(e) => Err(e),
            },
            FilterKind::ExtractChannel => match channel_from(text) {
                Ok(c) => Ok(FilterSettings::Extract(c)),
                Err(e) => Err(e),
            },
            FilterKind::NeutralizeChannel => match channel_from(text) {
                Ok(c) => Ok(FilterSettings::Neutralize(c)),
                Err(e) => Err(e),
            },
            FilterKind::EqualizeHist => if blank(content@) {
                Ok(FilterSettings::EqualizeHist)
            } else {
                Err(ParseError::NoSettings)
            },
            FilterKind::Rgb2Gray => if blank(content@) {
                Ok(FilterSettings::Rgb2Gray)
            } else {
                Err(ParseError::NoSettings)
            },
            FilterKind::CannyEdgeDetection => if blank(content@) {
                Ok(default_canny())
            } else {
                Err(ParseError::NoSettings)
            },
        },
    }
}

/// The settings a parsed filter holds.
pub open spec fn parsed_settings(f: ParsedFilter) -> FilterSettings {
    match f {
        ParsedFilter::LinearCustom => FilterSettings::Unread(FilterKind::LinearCustom),
        ParsedFilter::LinearMean(m) => FilterSettings::Window(FilterKind::LinearMean, m.size_spec(), m.extend_spec()),
        ParsedFilter::LinearGaussian(size, ext) => FilterSettings::Window(FilterKind::LinearGaussian, size, ext),
        ParsedFilter::MedianFilter(m) => FilterSettings::Window(FilterKind::MedianFilter, m.size_spec(), m.extend_spec()),
        ParsedFilter::HistogramLocalContrast => FilterSettings::Unread(FilterKind::HistogramLocalContrast),
        ParsedFilter::CutBrightness(c) => FilterSettings::Cut(c.range_spec(), c.replace_spec()),
        ParsedFilter::EqualizeHist(_) => FilterSettings::EqualizeHist,
        ParsedFilter::Rgb2Gray(_) => FilterSettings::Rgb2Gray,
        ParsedFilter::NeutralizeChannel(n) => FilterSettings::Neutralize(n.cleared()),
        ParsedFilter::ExtractChannel(e) => FilterSettings::Extract(e.kept()),
        ParsedFilter::CannyEdgeDetection(c) => FilterSettings::Canny(c.blur_size_spec(), c.blur_extend_spec()),
    }
}

/// A settings text as each filter writes its settings: a window filter its window
/// and border lines, the brightness cut a text that reads back as its range and
/// value, a channel filter `Channel: ` and the letter of its channel, and a filter
/// without settings nothing. The settings of a filter with real values are any text.
pub open spec fn is_settings_text(content: &str, s: FilterSettings) -> bool {
    let text = content.spec_bytes();
    match s {
        FilterSettings::Window(_, size, ext) => is_window_settings_text(text, size, ext),
        FilterSettings::Cut(range, value) => cut_settings_from(text) == Ok::<
            (CutBrightnessRange, ValueRepaceWith),
            ParseError,
        >((range, value)),
        FilterSettings::Extract(c) => text == text_channel() + seq![32u8, channel_letter(c)],
        FilterSettings::Neutralize(c) => text == text_channel() + seq![32u8, channel_letter(c)],
        FilterSettings::EqualizeHist => content@.len() == 0,
        FilterSettings::Rgb2Gray => content@.len() == 0,
        FilterSettings::Canny(_, _) => content@.len() == 0,
        FilterSettings::Unread(_) => true,
    }
}

/// The settings that are read back as they were written: a window filter with a
/// window that passes the checks and a border of the closest value or zero, a
/// channel filter on any channel but red (written as blue), Canny's detector with
/// the blur a new step has, and every other filter.
pub open spec fn settings_read_back(s: FilterSettings) -> bool {
    match s {
        FilterSettings::Window(k, size, ext) => {
            &&& (k == FilterKind::LinearMean || k == FilterKind::LinearGaussian || k == FilterKind::MedianFilter)
            &&& window_size_checked(size) is Ok
            &&& (ext == ExtendValue::<u8>::Closest || ext == ExtendValue::<u8>::Given(0))
        },
        FilterSettings::Extract(c) => c != ImgChannel::R,
        FilterSettings::Neutralize(c) => c != ImgChannel::R,
        FilterSettings::Canny(_, _) => s == default_canny(),
        FilterSettings::Unread(k) => k == FilterKind::LinearCustom || k == FilterKind::HistogramLocalContrast,
        _ => true,
    }
}

/// A filter saved under the name of its kind with its settings text is read back
/// with the same settings, for the settings `settings_read_back` accepts.
pub proof fn lemma_saved_filter_reads_back(s: FilterSettings, name: Seq<u8>, content: &str)
    requires
        settings_read_back(s),
        name == name_bytes(settings_kind(s)),
        is_settings_text(content, s),
    ensures
        read_filter(name, content) == Ok::<FilterSettings, ParseError>(s),
{
    lemma_name_reads_back(settings_kind(s));
    match s {
        FilterSettings::Window(k, size, ext) => {
            lemma_window_settings_round_trip(content.spec_bytes(), size, ext);
        },
        FilterSettings::Extract(c) => {
            lemma_channel_text_reads_back(c);
        },
        FilterSettings::Neutralize(c) => {
            lemma_channel_text_reads_back(c);
        },
        _ => {},
    }
}

/// The filter saved under `save_name` with the settings `content`: the filter named
/// with its default settings, then the settings read into it. An unknown name, or
/// settings the filter refuses, give the error.
pub fn try_parce_filter(save_name: &str, content: &str) -> (r: Result<ParsedFilter, ParseError>)
    ensures
        match read_filter(save_name.spec_bytes(), content) {
            Ok(s) => r is Ok && parsed_settings(r->Ok_0) == s,
            Err(e) => r == Err::<ParsedFilter, ParseError>(e),
        },
        match kind_of_name(save_name.spec_bytes()) {
            None => r == Err::<ParsedFilter, ParseError>(ParseError::UnknownFilter),
            Some(FilterKind::LinearCustom) => r == Ok::<ParsedFilter, ParseError>(ParsedFilter::LinearCustom),
            Some(FilterKind::HistogramLocalContrast) => r == Ok::<ParsedFilter, ParseError>(
                ParsedFilter::HistogramLocalContrast,
            ),
            Some(FilterKind::LinearMean) => match window_settings_from(content.spec_bytes()) {
                Ok(v) => r matches Ok(ParsedFilter::LinearMean(f)) && f.size_spec() == v.0 && f.extend_spec()
                    == v.1,
                Err(e) => r == Err::<ParsedFilter, ParseError>(e),
            },
            Some(FilterKind::LinearGaussian) => match window_settings_from(content.spec_bytes()) {
                Ok(v) => r == Ok::<ParsedFilter, ParseError>(ParsedFilter::LinearGaussian(v.0, v.1)),
                Err(e) => r == Err::<ParsedFilter, ParseError>(e),
            },
            Some(FilterKind::MedianFilter) => match window_settings_from(content.spec_bytes()) {
                Ok(v) => r matches Ok(ParsedFilter::MedianFilter(f)) && f.size_spec() == v.0
                    && f.extend_spec() == v.1,
                Err(e) => r == Err::<ParsedFilter, ParseError>(e),
            },
            Some(FilterKind::CutBrightness) => match cut_settings_from(content.spec_bytes()) {
                Ok(v) => r matches Ok(ParsedFilter::CutBrightness(f)) && f.range_spec() == v.0
                    && f.replace_spec() == v.1,
                Err(e) => r == Err::<ParsedFilter, ParseError>(e),
            },
            Some(FilterKind::EqualizeHist) => if blank(content@) {
                r is Ok && r->Ok_0 is EqualizeHist
            } else {
                r == Err::<ParsedFilter, ParseError>(ParseError::NoSettings)
            },
            Some(FilterKind::Rgb2Gray) => if blank(content@) {
                r is Ok && r->Ok_0 is Rgb2Gray
            } else {
                r == Err::<ParsedFilter, ParseError>(ParseError::NoSettings)
            },
            Some(FilterKind::NeutralizeChannel) => match channel_from(content.spec_bytes()) {
                Ok(c) => r matches Ok(ParsedFilter::NeutralizeChannel(f)) && f.cleared() == c,
                Err(e) => r == Err::<ParsedFilter, ParseError>(e),
            },
            Some(FilterKind::ExtractChannel) => match channel_from(content.spec_bytes()) {
                Ok(c) => r matches Ok(ParsedFilter::ExtractChannel(f)) && f.kept() == c,
                Err(e) => r == Err::<ParsedFilter, ParseError>(e),
            },
            Some(FilterKind::CannyEdgeDetection) => if blank(content@) {
                r matches Ok(ParsedFilter::CannyEdgeDetection(f)) && f.blur_size_spec() == (FilterWindowSize {
                    width: 5,
                    height: 5,
                }) && f.blur_extend_spec() == ExtendValue::<u8>::Closest
            } else {
                r == Err::<ParsedFilter, ParseError>(ParseError::NoSettings)
            },
        },
{
    let kind = match FilterKind::from_save_name(save_name) {
        Some(k) => k,
        None => {
            return Err(ParseError::UnknownFilter);
        },
    };
    match kind {
        FilterKind::LinearCustom => Ok(ParsedFilter::LinearCustom),
        FilterKind::HistogramLocalContrast => Ok(ParsedFilter::HistogramLocalContrast),
        FilterKind::LinearMean => {
            let mut f = LinearMean::default();
            match f.try_set_from_string(content) {
                Ok(()) => Ok(ParsedFilter::LinearMean(f)),
                Err(e) => Err(e),
            }
        },
        FilterKind::LinearGaussian => match parse_window_settings(content) {
            Ok((size, ext)) => Ok(ParsedFilter::LinearGaussian(size, ext)),
            Err(e) => Err(e),
        },
        FilterKind::MedianFilter => {
            let mut f = MedianFilter::default();
            match f.try_set_from_string(content) {
                Ok(()) => Ok(ParsedFilter::MedianFilter(f)),
                Err(e) => Err(e),
            }
        },
        FilterKind::CutBrightness => {
            let mut f = CutBrightness::default();
            match f.try_set_from_string(content) {
                Ok(()) => Ok(ParsedFilter::CutBrightness(f)),
                Err(e) => Err(e),
            }
        },
        FilterKind::EqualizeHist => {
            let mut f = EqualizeHist::default();
            match f.try_set_from_string(content) {
                Ok(()) => Ok(ParsedFilter::EqualizeHist(f)),
                Err(e) => Err(e),
            }
        },
        FilterKind::Rgb2Gray => {
            let mut f = Rgb2Gray::default();
            match f.try_set_from_string(content) {
                Ok(()) => Ok(ParsedFilter::Rgb2Gray(f)),
                Err(e) => Err(e),
            }
        },
        FilterKind::NeutralizeChannel => {
            let mut f = NeutralizeChannel::default();
            match f.try_set_from_string(content) {
                Ok(()) => Ok(ParsedFilter::NeutralizeChannel(f)),
                Err(e) => Err(e),
            }
        },
        FilterKind::ExtractChannel => {
            let mut f = ExtractChannel::default();
            match f.try_set_from_string(content) {
                Ok(()) => Ok(ParsedFilter::ExtractChannel(f)),
                Err(e) => Err(e),
            }
        },
        FilterKind::CannyEdgeDetection => {
            let mut f = CannyEdgeDetection::default();
            match f.try_set_from_string(content) {
                Ok(()) => Ok(ParsedFilter::CannyEdgeDetection(f)),
                Err(e) => Err(e),
            }
        },
    }
}

/// The save names are not empty and hold neither a line break nor `|`, so that a
/// project text keeps them apart.
pub proof fn lemma_save_name_savable(kind: FilterKind)
    ensures
        name_bytes(kind).len() >= 1,
        forall|i: int|
            0 <= i < name_bytes(kind).len() ==> name_bytes(kind)[i] != 10u8 && name_bytes(kind)[i] != 124u8,
{
    let n = name_bytes(kind);
    assert forall|i: int| 0 <= i < n.len() implies n[i] != 10u8 && n[i] != 124u8 by {
        assert(48 <= n[i] <= 122);
    }
}

/// A window filter saved among the steps of a project text is read back at its
/// place under the name of its kind, with its window and its border, for a window
/// that passes the checks and a border of the closest value or zero.
pub proof fn lemma_saved_window_filter_reads_back(
    steps: Seq<SavedStep>,
    i: int,
    kind: FilterKind,
    size: FilterWindowSize,
    ext: ExtendValue<u8>,
)
    requires
        0 <= i < steps.len(),
        forall|j: int| 0 <= j < steps.len() ==> savable_step(#[trigger] steps[j]),
        steps[i].name@ == name_bytes(kind),
        steps[i].params is Some,
        is_window_settings_text(steps[i].params->0@, size, ext),
        window_size_checked(size) is Ok,
        ext == ExtendValue::<u8>::Closest || ext == ExtendValue::<u8>::Given(0),
    ensures
        kind_of_name(project_steps(project_text(steps))[i].0) == Some(kind),
        window_settings_from(project_steps(project_text(steps))[i].1) == Ok::<
            (FilterWindowSize, ExtendValue<u8>),
            ParseError,
        >((size, ext)),
{
    lemma_project_round_trip(steps);
    lemma_name_reads_back(kind);
    lemma_window_settings_round_trip(steps[i].params->0@, size, ext);
}

} // verus!
