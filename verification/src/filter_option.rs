use vstd::prelude::*;
use vstd::string::StringSliceAdditionalSpecFns;
use crate::matrix2d::ExtendValue;
use crate::parse::{
    all_digits, digits_value, format_unsigned, parse_uint, parse_unsigned, split_bytes, split_on, views,
};

verus! {

/// A channel of an image: luminance, red, green, blue or alpha.
#[derive(Debug, Clone, Copy, PartialEq, Eq, Structural)]
pub enum ImgChannel {
    L,
    R,
    G,
    B,
    A,
}

/// The size of a filter window: `width` columns and `height` rows.
#[derive(Clone, Copy, Debug, PartialEq, Eq, Structural)]
pub struct FilterWindowSize {
    pub width: usize,
    pub height: usize,
}

/// Why a filter window size was refused.
#[derive(Clone, Copy, Debug, PartialEq, Eq, Structural)]
pub enum WindowSizeError {
    /// The width and the height differ.
    NotSquare,
    /// The width or the height is below 3.
    TooSmall,
    /// The width or the height is even.
    NotOdd,
}

impl WindowSizeError {
    /// The message shown to the user.
    pub fn message(&self) -> (r: &'static str)
        ensures
            r == match *self {
                WindowSizeError::NotSquare => "Размеры фильтра должны быть равны",
                WindowSizeError::TooSmall => "Размеры фильтра должны быть >= 3",
                WindowSizeError::NotOdd => "Размеры фильтра должны быть нечетными",
            },
    {
        match self {
            WindowSizeError::NotSquare => "Размеры фильтра должны быть равны",
            WindowSizeError::TooSmall => "Размеры фильтра должны быть >= 3",
            WindowSizeError::NotOdd => "Размеры фильтра должны быть нечетными",
        }
    }
}

impl FilterWindowSize {
    pub fn new(width: usize, height: usize) -> (r: Self)
        ensures
            r.width == width,
            r.height == height,
    {
        FilterWindowSize { width, height }
    }

    /// The size itself when the width equals the height.
    pub fn check_w_equals_h(self) -> (r: Result<Self, WindowSizeError>)
        ensures
            self.width == self.height ==> r == Ok::<Self, WindowSizeError>(self),
            self.width != self.height ==> r == Err::<Self, WindowSizeError>(WindowSizeError::NotSquare),
    {
        if self.width != self.height {
            return Err(WindowSizeError::NotSquare);
        }
        Ok(self)
    }

    /// The size itself when both the width and the height are at least 3.
    pub fn check_size_be_3(self) -> (r: Result<Self, WindowSizeError>)
        ensures
            (self.width >= 3 && self.height >= 3) ==> r == Ok::<Self, WindowSizeError>(self),
            !(self.width >= 3 && self.height >= 3) ==> r == Err::<Self, WindowSizeError>(
                WindowSizeError::TooSmall,
            ),
    {
        if self.width < 3 || self.height < 3 {
            return Err(WindowSizeError::TooSmall);
        }
        Ok(self)
    }

    /// The size itself when both the width and the height are odd.
    pub fn check_w_h_odd(self) -> (r: Result<Self, WindowSizeError>)
        ensures
            (self.width % 2 == 1 && self.height % 2 == 1) ==> r == Ok::<Self, WindowSizeError>(self),
            !(self.width % 2 == 1 && self.height % 2 == 1) ==> r == Err::<Self, WindowSizeError>(
                WindowSizeError::NotOdd,
            ),
    {
        if self.width % 2 == 0 || self.height % 2 == 0 {
            return Err(WindowSizeError::NotOdd);
        }
        Ok(self)
    }
}

/// Whether the coefficients of a custom linear filter are scaled to sum to one.
#[derive(Clone, Copy, Debug, PartialEq, Eq, Structural)]
pub enum NormalizeOption {
    Normalized,
    NotNormalized,
}

/// The range of brightness that is kept by the brightness cut.
#[derive(Clone, Copy, Debug, PartialEq, Eq, Structural)]
pub struct CutBrightnessRange {
    pub min: u8,
    pub max: u8,
}

impl CutBrightnessRange {
    pub fn new(min: u8, max: u8) -> (r: Self)
        ensures
            r.min == min,
            r.max == max,
    {
        CutBrightnessRange { min, max }
    }
}

/// The value that replaces the brightness cut away.
#[derive(Clone, Copy, Debug, PartialEq, Eq, Structural)]
pub struct ValueRepaceWith {
    pub value: u8,
}

impl ValueRepaceWith {
    pub fn new(value: u8) -> (r: Self)
        ensures
            r.value == value,
    {
        ValueRepaceWith { value }
    }
}

/// Why the text of a filter setting was refused.
#[derive(Clone, Copy, Debug, PartialEq, Eq, Structural)]
pub enum ParseError {
    WindowSizeFormat,
    ExtendValueFormat,
    NormalizeFormat,
    BrightnessRangeFormat,
    ReplaceValueFormat,
    ChannelFormat,
    /// The settings do not hold the number of lines the filter needs.
    LineCount,
    /// Settings were given to a filter that has none.
    NoSettings,
    /// A window size that the filter does not accept.
    WindowSize(WindowSizeError),
    /// No filter is saved under the name.
    UnknownFilter,
}

impl ParseError {
    /// The message shown to the user; for an unknown filter, the part before its name.
    pub fn message(&self) -> (r: &'static str)
        ensures
            r == match *self {
                ParseError::WindowSizeFormat => "Формат размера окна фильтра: '<целое число> x <целое число>",
                ParseError::ExtendValueFormat => "Формат граничных условий: 'Ext: near' или 'Ext: 0'",
                ParseError::NormalizeFormat => "Формат условия нормализации коэффициентов: 'Normalize: true' или 'Normalize: false'",
                ParseError::BrightnessRangeFormat => "Формат диапазона яркости: '<целое число от 0 до 255 включительно> - <целое число от 0 до 255 включительно>'",
                ParseError::ReplaceValueFormat => "Формат значения, на которое заменить: '<целое число от 0 до 255 включительно>'",
                ParseError::ChannelFormat => "Должна быть одна строка: 'Channel: <Название канала A, R, G, B L>",
                ParseError::LineCount => "Должно быть 2 строки",
                ParseError::NoSettings => "У данного фильтра нет настроек",
                ParseError::WindowSize(e) => match e {
                    WindowSizeError::NotSquare => "Размеры фильтра должны быть равны",
                    WindowSizeError::TooSmall => "Размеры фильтра должны быть >= 3",
                    WindowSizeError::NotOdd => "Размеры фильтра должны быть нечетными",
                },
                ParseError::UnknownFilter => "Не удалось загрузить фильтр",
            },
    {
        match self {
            ParseError::WindowSizeFormat => "Формат размера окна фильтра: '<целое число> x <целое число>",
            ParseError::ExtendValueFormat => "Формат граничных условий: 'Ext: near' или 'Ext: 0'",
            ParseError::NormalizeFormat => "Формат условия нормализации коэффициентов: 'Normalize: true' или 'Normalize: false'",
            ParseError::BrightnessRangeFormat => "Формат диапазона яркости: '<целое число от 0 до 255 включительно> - <целое число от 0 до 255 включительно>'",
            ParseError::ReplaceValueFormat => "Формат значения, на которое заменить: '<целое число от 0 до 255 включительно>'",
            ParseError::ChannelFormat => "Должна быть одна строка: 'Channel: <Название канала A, R, G, B L>",
            ParseError::LineCount => "Должно быть 2 строки",
            ParseError::NoSettings => "У данного фильтра нет настроек",
            ParseError::WindowSize(e) => e.message(),
            ParseError::UnknownFilter => "Не удалось загрузить фильтр",
        }
    }
}

/// Whether two byte strings are equal.
pub fn bytes_eq(a: &[u8], b: &[u8]) -> (r: bool)
    ensures
        r == (a@ == b@),
{
    if a.len() != b.len() {
        return false;
    }
    let mut i: usize = 0;
    while i < a.len()
        invariant
            a@.len() == b@.len(),
            i <= a@.len(),
            forall|j: int| 0 <= j < i ==> a@[j] == b@[j],
        decreases a@.len() - i,
    {
        if a[i] != b[i] {
            return false;
        }
        i = i + 1;
    }
    proof {
        assert(a@ =~= b@);
    }
    true
}

/// The `i`-th word of a line, or nothing where the line has fewer words.
pub open spec fn word_or_empty(words: Seq<Seq<u8>>, i: int) -> Seq<u8> {
    if 0 <= i < words.len() {
        words[i]
    } else {
        Seq::<u8>::empty()
    }
}

fn word_at(words: &Vec<Vec<u8>>, i: usize) -> (r: &[u8])
    ensures
        r@ == word_or_empty(views(words@), i as int),
{
    if i < words.len() {
        words[i].as_slice()
    } else {
        let empty: &[u8] = &[];
        proof {
            assert(empty@ =~= Seq::<u8>::empty());
        }
        empty
    }
}

fn push_all(out: &mut Vec<u8>, tail: &[u8])
    ensures
        final(out)@ == old(out)@ + tail@,
{
    let mut i: usize = 0;
    while i < tail.len()
        invariant
            i <= tail@.len(),
            out@ == old(out)@ + tail@.take(i as int),
        decreases tail@.len() - i,
    {
        out.push(tail[i]);
        proof {
            assert(tail@.take(i + 1) =~= tail@.take(i as int).push(tail@[i as int]));
        }
        i = i + 1;
    }
    proof {
        assert(tail@.take(tail@.len() as int) =~= tail@);
    }
}

pub open spec fn text_x() -> Seq<u8> {
    seq![120u8]
}

pub open spec fn text_dash() -> Seq<u8> {
    seq![45u8]
}

/// What a window size line says: `<height> x <width>`, three words.
pub open spec fn window_size_from(line: Seq<u8>) -> Result<FilterWindowSize, ParseError> {
    let words = split_on(line, 32);
    if words.len() != 3 {
        Err(ParseError::WindowSizeFormat)
    } else {
        match parse_uint(words[0], usize::MAX as int) {
            None => Err(ParseError::WindowSizeFormat),
            Some(height) => if words[1] != text_x() {
                Err(ParseError::WindowSizeFormat)
            } else {
                match parse_uint(words[2], usize::MAX as int) {
                    None => Err(ParseError::WindowSizeFormat),
                    Some(width) => Ok(FilterWindowSize { width: width as usize, height: height as usize }),
                }
            },
        }
    }
}

/// Bytes without the separator are one piece.
pub proof fn lemma_split_no_sep(s: Seq<u8>, sep: u8)
    requires
        forall|i: int| 0 <= i < s.len() ==> s[i] != sep,
    ensures
        split_on(s, sep) == seq![s],
    decreases s.len(),
{
    if s.len() > 0 {
        lemma_split_no_sep(s.drop_last(), sep);
        assert(s.drop_last().push(s.last()) =~= s);
        let rest = split_on(s.drop_last(), sep);
        assert(rest.update(rest.len() - 1, rest.last().push(s.last())) =~= seq![s]);
    } else {
        assert(s =~= Seq::<u8>::empty());
        assert(split_on(s, sep) =~= seq![s]);
    }
}

/// Splitting `a + [sep] + b` gives the pieces of `a` followed by those of `b`, the
/// last piece of `a` and the first of `b` kept apart.
pub proof fn lemma_split_concat(a: Seq<u8>, b: Seq<u8>, sep: u8)
    ensures
        split_on(a + seq![sep] + b, sep) == split_on(a, sep) + split_on(b, sep),
    decreases b.len(),
{
    if b.len() == 0 {
        assert(a + seq![sep] + b =~= a.push(sep));
        assert((a.push(sep)).drop_last() =~= a);
        assert(split_on(b, sep) == seq![Seq::<u8>::empty()]);
    } else {
        lemma_split_concat(a, b.drop_last(), sep);
        assert((a + seq![sep] + b).drop_last() =~= a + seq![sep] + b.drop_last());
        crate::parse::lemma_split_on_len(a, sep);
        crate::parse::lemma_split_on_len(b.drop_last(), sep);
        let left = split_on(a, sep);
        let right = split_on(b.drop_last(), sep);
        if b.last() == sep {
            assert((left + right).push(Seq::<u8>::empty()) =~= left + right.push(Seq::<u8>::empty()));
        } else {
            assert((left + right).update((left + right).len() - 1, (left + right).last().push(b.last()))
                =~= left + right.update(right.len() - 1, right.last().push(b.last())));
        }
    }
}

/// Text of printable characters from the space to `z`: no line break, no `|`.
pub open spec fn plain_text(s: Seq<u8>) -> bool {
    forall|i: int| 0 <= i < s.len() ==> 32 <= #[trigger] s[i] <= 122
}

/// Joining two plain texts gives a plain text.
pub proof fn lemma_plain_concat(a: Seq<u8>, b: Seq<u8>)
    requires
        plain_text(a),
        plain_text(b),
    ensures
        plain_text(a + b),
{
    assert forall|i: int| 0 <= i < (a + b).len() implies 32 <= #[trigger] (a + b)[i] <= 122 by {
        if i < a.len() {
            assert((a + b)[i] == a[i]);
        } else {
            assert((a + b)[i] == b[i - a.len()]);
        }
    }
}

/// Digits are plain text.
pub proof fn lemma_digits_plain(d: Seq<u8>)
    requires
        all_digits(d),
    ensures
        plain_text(d),
{
    assert forall|i: int| 0 <= i < d.len() implies 32 <= #[trigger] d[i] <= 122 by {
        assert(crate::parse::is_digit(d[i]));
    }
}

/// Plain text holds neither a line break nor `|`.
pub proof fn lemma_plain_breaks(s: Seq<u8>)
    requires
        plain_text(s),
    ensures
        !s.contains(10u8),
        !s.contains(124u8),
{
    assert forall|i: int| 0 <= i < s.len() implies s[i] != 10u8 && s[i] != 124u8 by {
        assert(32 <= s[i] <= 122);
    }
}

impl FilterWindowSize {
    /// The size a line of bytes gives, as `window_size_from` says.
    pub fn from_bytes(line: &[u8]) -> (r: Result<FilterWindowSize, ParseError>)
    ensures
        r == window_size_from(line@),
{
    let words = split_bytes(line, 32u8);
    if words.len() != 3 {
        return Err(ParseError::WindowSizeFormat);
    }
    let height = match parse_unsigned(words[0].as_slice(), usize::MAX) {
        Some(v) => v,
        None => {
            return Err(ParseError::WindowSizeFormat);
        },
    };
    let x: [u8; 1] = [120u8];
    if !bytes_eq(words[1].as_slice(), x.as_slice()) {
        proof {
            assert(x@ =~= text_x());
        }
        return Err(ParseError::WindowSizeFormat);
    }
    proof {
        assert(x@ =~= text_x());
    }
    let width = match parse_unsigned(words[2].as_slice(), usize::MAX) {
        Some(v) => v,
        None => {
            return Err(ParseError::WindowSizeFormat);
        },
    };
    Ok(FilterWindowSize::new(width, height))
}
}

impl FilterWindowSize {
    /// The size a line of text gives, as `window_size_from` says. The text is one line.
    pub fn try_from_string(string: &str) -> (r: Result<Self, ParseError>)
        requires
            !string.spec_bytes().contains(10u8),
        ensures
            r == window_size_from(string.spec_bytes()),
    {
        FilterWindowSize::from_bytes(string.as_bytes())
    }

    /// The text of the size, which `try_from_string` reads back.
    pub fn content_to_bytes(&self) -> (r: Vec<u8>)
        ensures
            window_size_from(r@) == Ok::<FilterWindowSize, ParseError>(*self),
            plain_text(r@),
    {
        let h = format_unsigned(self.height);
        let w = format_unsigned(self.width);
        let mut out: Vec<u8> = Vec::new();
        push_all(&mut out, h.as_slice());
        out.push(32u8);
        out.push(120u8);
        out.push(32u8);
        push_all(&mut out, w.as_slice());
        proof {
            assert(out@ =~= h@ + seq![32u8] + text_x() + seq![32u8] + w@);
            assert forall|i: int| 0 <= i < h@.len() implies h@[i] != 32u8 by {
                assert(crate::parse::is_digit(h@[i]));
            }
            assert forall|i: int| 0 <= i < w@.len() implies w@[i] != 32u8 by {
                assert(crate::parse::is_digit(w@[i]));
            }
            lemma_split_no_sep(h@, 32u8);
            lemma_split_no_sep(w@, 32u8);
            lemma_split_no_sep(text_x(), 32u8);
            lemma_split_concat(h@, text_x(), 32u8);
            assert(h@ + seq![32u8] + text_x() + seq![32u8] + w@ =~= (h@ + seq![32u8] + text_x()) + seq![32u8] + w@);
            lemma_split_concat(h@ + seq![32u8] + text_x(), w@, 32u8);
            let words = split_on(out@, 32u8);
            assert(words =~= seq![h@, text_x(), w@]);
            assert(h@[0] != 43u8);
            assert(w@[0] != 43u8);
            lemma_digits_plain(h@);
            lemma_digits_plain(w@);
            assert(plain_text(seq![32u8])) by {
                assert(seq![32u8][0] == 32u8);
            }
            assert(plain_text(text_x())) by {
                assert(text_x()[0] == 120u8);
            }
            lemma_plain_concat(h@, seq![32u8]);
            lemma_plain_concat(h@ + seq![32u8], text_x());
            lemma_plain_concat(h@ + seq![32u8] + text_x(), seq![32u8]);
            lemma_plain_concat(h@ + seq![32u8] + text_x() + seq![32u8], w@);
        }
        out
    }
}

/// The second word of a line of exactly two words whose first word is `keyword`.
pub open spec fn keyword_value(line: Seq<u8>, keyword: Seq<u8>) -> Option<Seq<u8>> {
    let words = split_on(line, 32);
    if words.len() == 2 && words[0] == keyword {
        Some(words[1])
    } else {
        None
    }
}

fn keyword_value_of(line: &[u8], keyword: &[u8]) -> (r: Option<Vec<u8>>)
    ensures
        match keyword_value(line@, keyword@) {
            Some(v) => r is Some && r->0@ == v,
            None => r is None,
        },
{
    let mut words = split_bytes(line, 32u8);
    if words.len() != 2 {
        return None;
    }
    if !bytes_eq(words[0].as_slice(), keyword) {
        return None;
    }
    let second = words.pop();
    match second {
        Some(w) => Some(w),
        None => None,
    }
}

/// `keyword`, a space and `value` make a line that `keyword_value` reads back.
proof fn lemma_keyword_line(keyword: Seq<u8>, value: Seq<u8>)
    requires
        forall|i: int| 0 <= i < keyword.len() ==> keyword[i] != 32u8,
        forall|i: int| 0 <= i < value.len() ==> value[i] != 32u8,
    ensures
        keyword_value(keyword + seq![32u8] + value, keyword) == Some(value),
{
    lemma_split_no_sep(keyword, 32u8);
    lemma_split_no_sep(value, 32u8);
    lemma_split_concat(keyword, value, 32u8);
    assert(split_on(keyword + seq![32u8] + value, 32u8) =~= seq![keyword, value]);
}

pub open spec fn text_ext() -> Seq<u8> {
    seq![69u8, 120u8, 116u8, 58u8]
}

pub open spec fn text_near() -> Seq<u8> {
    seq![110u8, 101u8, 97u8, 114u8]
}

pub open spec fn text_zero() -> Seq<u8> {
    seq![48u8]
}

/// What a border line says: `Ext: near` for the closest value, `Ext: 0` for zero.
pub open spec fn extend_value_from(line: Seq<u8>) -> Result<ExtendValue<u8>, ParseError> {
    match keyword_value(line, text_ext()) {
        Some(v) => if v == text_zero() {
            Ok(ExtendValue::Given(0))
        } else if v == text_near() {
            Ok(ExtendValue::Closest)
        } else {
            Err(ParseError::ExtendValueFormat)
        },
        None => Err(ParseError::ExtendValueFormat),
    }
}

impl ExtendValue<u8> {
    /// The value a line of bytes gives, as `extend_value_from` says.
    pub fn from_bytes(line: &[u8]) -> (r: Result<Self, ParseError>)
        ensures
            r == extend_value_from(line@),
    {
        let kw: [u8; 4] = [69u8, 120u8, 116u8, 58u8];
        let zero: [u8; 1] = [48u8];
        let near: [u8; 4] = [110u8, 101u8, 97u8, 114u8];
        proof {
            assert(kw@ =~= text_ext());
            assert(zero@ =~= text_zero());
            assert(near@ =~= text_near());
        }
        match keyword_value_of(line, kw.as_slice()) {
            Some(v) => {
                if bytes_eq(v.as_slice(), zero.as_slice()) {
                    Ok(ExtendValue::Given(0u8))
                } else if bytes_eq(v.as_slice(), near.as_slice()) {
                    Ok(ExtendValue::Closest)
                } else {
                    Err(ParseError::ExtendValueFormat)
                }
            },
            None => Err(ParseError::ExtendValueFormat),
        }
    }

    /// The border value a line of text gives, as `extend_value_from` says. The text
    /// is one line.
    pub fn try_from_string(string: &str) -> (r: Result<Self, ParseError>)
        requires
            !string.spec_bytes().contains(10u8),
        ensures
            r == extend_value_from(string.spec_bytes()),
    {
        Self::from_bytes(string.as_bytes())
    }

    /// The text of the border value: `Ext: near`, or `Ext: ` and the value.
    /// `try_from_string` reads it back for the closest value and for zero.
    pub fn content_to_bytes(&self) -> (r: Vec<u8>)
        ensures
            match *self {
                ExtendValue::Closest => r@ == text_ext() + seq![32u8] + text_near(),
                ExtendValue::Given(v) => exists|d: Seq<u8>|
                    all_digits(d) && d.len() >= 1 && (d.len() > 1 ==> d[0] != 48u8) && digits_value(d) == v
                        && r@ == text_ext() + seq![32u8] + d,
            },
            (*self == ExtendValue::<u8>::Closest || *self == ExtendValue::<u8>::Given(0))
                ==> extend_value_from(r@) == Ok::<ExtendValue<u8>, ParseError>(*self),
            plain_text(r@),
    {
        let mut out: Vec<u8> = Vec::new();
        out.push(69u8);
        out.push(120u8);
        out.push(116u8);
        out.push(58u8);
        out.push(32u8);
        let ghost head = out@;
        proof {
            assert(head =~= text_ext() + seq![32u8]);
        }
        match self {
            ExtendValue::Closest => {
                out.push(110u8);
                out.push(101u8);
                out.push(97u8);
                out.push(114u8);
                proof {
                    assert(out@ =~= text_ext() + seq![32u8] + text_near());
                    lemma_keyword_line(text_ext(), text_near());
                    assert(forall|i: int| 0 <= i < out@.len() ==> 32 <= #[trigger] out@[i] <= 122);
                }
            },
            ExtendValue::Given(v) => {
                let digits = format_unsigned(*v as usize);
                push_all(&mut out, digits.as_slice());
                proof {
                    assert(out@ =~= text_ext() + seq![32u8] + digits@);
                    lemma_digits_plain(digits@);
                    assert(plain_text(head)) by {
                        assert(forall|i: int| 0 <= i < head.len() ==> 32 <= #[trigger] head[i] <= 122);
                    }
                    lemma_plain_concat(head, digits@);
                    if *v == 0 {
                        assert(digits@.len() == 1) by {
                            if digits@.len() > 1 {
                                assert(digits@[0] != 48);
                                crate::parse::lemma_leading_digit_bound(digits@);
                            }
                        }
                        assert(digits@ =~= text_zero()) by {
                            assert(digits@.drop_last() =~= Seq::<u8>::empty());
                        }
                        lemma_keyword_line(text_ext(), text_zero());
                    }
                }
            },
        }
        out
    }
}

/// The border lines for the closest value and for zero read back as they were written.
pub proof fn lemma_border_lines_read_back()
    ensures
        extend_value_from(text_ext() + seq![32u8] + text_near()) == Ok::<ExtendValue<u8>, ParseError>(
            ExtendValue::Closest,
        ),
        extend_value_from(text_ext() + seq![32u8] + text_zero()) == Ok::<ExtendValue<u8>, ParseError>(
            ExtendValue::Given(0),
        ),
{
    lemma_keyword_line(text_ext(), text_near());
    lemma_keyword_line(text_ext(), text_zero());
}

pub open spec fn text_normalize() -> Seq<u8> {
    seq![78u8, 111u8, 114u8, 109u8, 97u8, 108u8, 105u8, 122u8, 101u8, 58u8]
}

pub open spec fn text_true() -> Seq<u8> {
    seq![116u8, 114u8, 117u8, 101u8]
}

pub open spec fn text_false() -> Seq<u8> {
    seq![102u8, 97u8, 108u8, 115u8, 101u8]
}

/// What a normalization line says: `Normalize: true` or `Normalize: false`.
pub open spec fn normalize_from(line: Seq<u8>) -> Result<NormalizeOption, ParseError> {
    match keyword_value(line, text_normalize()) {
        Some(v) => if v == text_true() {
            Ok(NormalizeOption::Normalized)
        } else if v == text_false() {
            Ok(NormalizeOption::NotNormalized)
        } else {
            Err(ParseError::NormalizeFormat)
        },
        None => Err(ParseError::NormalizeFormat),
    }
}

impl NormalizeOption {
    /// The value a line of bytes gives, as `normalize_from` says.
    pub fn from_bytes(line: &[u8]) -> (r: Result<Self, ParseError>)
        ensures
            r == normalize_from(line@),
    {
        let kw: [u8; 10] = [78u8, 111u8, 114u8, 109u8, 97u8, 108u8, 105u8, 122u8, 101u8, 58u8];
        let t: [u8; 4] = [116u8, 114u8, 117u8, 101u8];
        let f: [u8; 5] = [102u8, 97u8, 108u8, 115u8, 101u8];
        proof {
            assert(kw@ =~= text_normalize());
            assert(t@ =~= text_true());
            assert(f@ =~= text_false());
        }
        match keyword_value_of(line, kw.as_slice()) {
            Some(v) => {
                if bytes_eq(v.as_slice(), t.as_slice()) {
                    Ok(NormalizeOption::Normalized)
                } else if bytes_eq(v.as_slice(), f.as_slice()) {
                    Ok(NormalizeOption::NotNormalized)
                } else {
                    Err(ParseError::NormalizeFormat)
                }
            },
            None => Err(ParseError::NormalizeFormat),
        }
    }

    /// The option a line of text gives, as `normalize_from` says. The text is one line.
    pub fn try_from_string(string: &str) -> (r: Result<Self, ParseError>)
        requires
            !string.spec_bytes().contains(10u8),
        ensures
            r == normalize_from(string.spec_bytes()),
    {
        Self::from_bytes(string.as_bytes())
    }

    /// The text of the option, which `try_from_string` reads back.
    pub fn content_to_bytes(&self) -> (r: Vec<u8>)
        ensures
            normalize_from(r@) == Ok::<NormalizeOption, ParseError>(*self),
            r@ == text_normalize() + seq![32u8] + if *self == NormalizeOption::Normalized {
                seq![116u8, 114u8, 117u8, 101u8]
            } else {
                seq![102u8, 97u8, 108u8, 115u8, 101u8]
            },
    {
        let mut out: Vec<u8> = Vec::new();
        let kw: [u8; 10] = [78u8, 111u8, 114u8, 109u8, 97u8, 108u8, 105u8, 122u8, 101u8, 58u8];
        push_all(&mut out, kw.as_slice());
        out.push(32u8);
        match self {
            NormalizeOption::Normalized => {
                let t: [u8; 4] = [116u8, 114u8, 117u8, 101u8];
                push_all(&mut out, t.as_slice());
                proof {
                    assert(out@ =~= text_normalize() + seq![32u8] + text_true());
                    lemma_keyword_line(text_normalize(), text_true());
                }
            },
            NormalizeOption::NotNormalized => {
                let f: [u8; 5] = [102u8, 97u8, 108u8, 115u8, 101u8];
                push_all(&mut out, f.as_slice());
                proof {
                    assert(out@ =~= text_normalize() + seq![32u8] + text_false());
                    lemma_keyword_line(text_normalize(), text_false());
                }
            },
        }
        out
    }
}

/// The normalization line `Normalize: true` asks for normalized coefficients, and
/// `Normalize: false` for coefficients as they are.
pub proof fn lemma_normalize_lines()
    ensures
        normalize_from(text_normalize() + seq![32u8] + seq![116u8, 114u8, 117u8, 101u8])
            == Ok::<NormalizeOption, ParseError>(NormalizeOption::Normalized),
        normalize_from(text_normalize() + seq![32u8] + seq![102u8, 97u8, 108u8, 115u8, 101u8])
            == Ok::<NormalizeOption, ParseError>(NormalizeOption::NotNormalized),
{
    lemma_keyword_line(text_normalize(), seq![116u8, 114u8, 117u8, 101u8]);
    lemma_keyword_line(text_normalize(), seq![102u8, 97u8, 108u8, 115u8, 101u8]);
}

/// What a brightness range line says: `<min> - <max>`, each a number from 0 to
/// 255; words after the third are not read.
pub open spec fn brightness_range_from(line: Seq<u8>) -> Result<CutBrightnessRange, ParseError> {
    let words = split_on(line, 32);
    match parse_uint(word_or_empty(words, 0), 255) {
        None => Err(ParseError::BrightnessRangeFormat),
        Some(min) => if word_or_empty(words, 1) != text_dash() {
            Err(ParseError::BrightnessRangeFormat)
        } else {
            match parse_uint(word_or_empty(words, 2), 255) {
                None => Err(ParseError::BrightnessRangeFormat),
                Some(max) => Ok(CutBrightnessRange { min: min as u8, max: max as u8 }),
            }
        },
    }
}

proof fn lemma_digits_no_space(d: Seq<u8>)
    requires
        all_digits(d),
    ensures
        forall|i: int| 0 <= i < d.len() ==> d[i] != 32u8,
{
    assert forall|i: int| 0 <= i < d.len() implies d[i] != 32u8 by {
        assert(crate::parse::is_digit(d[i]));
    }
}

impl CutBrightnessRange {
    /// The value a line of bytes gives, as `brightness_range_from` says.
    pub fn from_bytes(line: &[u8]) -> (r: Result<Self, ParseError>)
        ensures
            r == brightness_range_from(line@),
    {
        let words = split_bytes(line, 32u8);
        let min = match parse_unsigned(word_at(&words, 0), 255) {
            Some(v) => v as u8,
            None => {
                return Err(ParseError::BrightnessRangeFormat);
            },
        };
        let dash: [u8; 1] = [45u8];
        proof {
            assert(dash@ =~= text_dash());
        }
        if !bytes_eq(word_at(&words, 1), dash.as_slice()) {
            return Err(ParseError::BrightnessRangeFormat);
        }
        let max = match parse_unsigned(word_at(&words, 2), 255) {
            Some(v) => v as u8,
            None => {
                return Err(ParseError::BrightnessRangeFormat);
            },
        };
        Ok(CutBrightnessRange::new(min, max))
    }

    /// The range a line of text gives, as `brightness_range_from` says. The text is
    /// one line.
    pub fn try_from_string(string: &str) -> (r: Result<Self, ParseError>)
        requires
            !string.spec_bytes().contains(10u8),
        ensures
            r == brightness_range_from(string.spec_bytes()),
    {
        Self::from_bytes(string.as_bytes())
    }

    /// The text of the range, which `try_from_string` reads back.
    pub fn content_to_bytes(&self) -> (r: Vec<u8>)
        ensures
            brightness_range_from(r@) == Ok::<CutBrightnessRange, ParseError>(*self),
            plain_text(r@),
    {
        let lo = format_unsigned(self.min as usize);
        let hi = format_unsigned(self.max as usize);
        let mut out: Vec<u8> = Vec::new();
        push_all(&mut out, lo.as_slice());
        out.push(32u8);
        out.push(45u8);
        out.push(32u8);
        push_all(&mut out, hi.as_slice());
        proof {
            assert(out@ =~= (lo@ + seq![32u8] + text_dash()) + seq![32u8] + hi@);
            lemma_digits_no_space(lo@);
            lemma_digits_no_space(hi@);
            lemma_split_no_sep(lo@, 32u8);
            lemma_split_no_sep(hi@, 32u8);
            lemma_split_no_sep(text_dash(), 32u8);
            lemma_split_concat(lo@, text_dash(), 32u8);
            lemma_split_concat(lo@ + seq![32u8] + text_dash(), hi@, 32u8);
            assert(split_on(out@, 32u8) =~= seq![lo@, text_dash(), hi@]);
            assert(lo@[0] != 43u8);
            assert(hi@[0] != 43u8);
            lemma_digits_plain(lo@);
            lemma_digits_plain(hi@);
            assert(plain_text(seq![32u8] + text_dash())) by {
                assert((seq![32u8] + text_dash())[0] == 32u8);
                assert((seq![32u8] + text_dash())[1] == 45u8);
            }
            assert(plain_text(seq![32u8])) by {
                assert(seq![32u8][0] == 32u8);
            }
            lemma_plain_concat(lo@, seq![32u8] + text_dash());
            assert(lo@ + seq![32u8] + text_dash() =~= lo@ + (seq![32u8] + text_dash()));
            lemma_plain_concat(lo@ + seq![32u8] + text_dash(), seq![32u8]);
            lemma_plain_concat(lo@ + seq![32u8] + text_dash() + seq![32u8], hi@);
        }
        out
    }
}

/// What a replacement value line says: a number from 0 to 255 as its first word.
pub open spec fn replace_value_from(line: Seq<u8>) -> Result<ValueRepaceWith, ParseError> {
    match parse_uint(word_or_empty(split_on(line, 32), 0), 255) {
        None => Err(ParseError::ReplaceValueFormat),
        Some(v) => Ok(ValueRepaceWith { value: v as u8 }),
    }
}

impl ValueRepaceWith {
    /// The value a line of bytes gives, as `replace_value_from` says.
    pub fn from_bytes(line: &[u8]) -> (r: Result<Self, ParseError>)
        ensures
            r == replace_value_from(line@),
    {
        let words = split_bytes(line, 32u8);
        match parse_unsigned(word_at(&words, 0), 255) {
            Some(v) => Ok(ValueRepaceWith::new(v as u8)),
            None => Err(ParseError::ReplaceValueFormat),
        }
    }

    /// The value a line of text gives, as `replace_value_from` says. The text is one
    /// line.
    pub fn try_from_string(string: &str) -> (r: Result<Self, ParseError>)
        requires
            !string.spec_bytes().contains(10u8),
        ensures
            r == replace_value_from(string.spec_bytes()),
    {
        Self::from_bytes(string.as_bytes())
    }

    /// The text of the value, which `try_from_string` reads back.
    pub fn content_to_bytes(&self) -> (r: Vec<u8>)
        ensures
            replace_value_from(r@) == Ok::<ValueRepaceWith, ParseError>(*self),
            plain_text(r@),
    {
        let out = format_unsigned(self.value as usize);
        proof {
            lemma_digits_no_space(out@);
            lemma_split_no_sep(out@, 32u8);
            assert(out@[0] != 43u8);
            lemma_digits_plain(out@);
        }
        out
    }
}

pub open spec fn text_channel() -> Seq<u8> {
    seq![67u8, 104u8, 97u8, 110u8, 110u8, 101u8, 108u8, 58u8]
}

/// The letter a channel is written with. Red is written `B`, as blue is.
pub open spec fn channel_letter(ch: ImgChannel) -> u8 {
    match ch {
        ImgChannel::L => 76,
        ImgChannel::R => 66,
        ImgChannel::G => 71,
        ImgChannel::B => 66,
        ImgChannel::A => 65,
    }
}

/// What a channel setting says: one line `Channel: <letter>`, the letter one of
/// `A`, `R`, `G`, `B`, `L`.
pub open spec fn channel_from(text: Seq<u8>) -> Result<ImgChannel, ParseError> {
    let lines = split_on(text, 10);
    if lines.len() != 1 {
        Err(ParseError::ChannelFormat)
    } else {
        match keyword_value(lines[0], text_channel()) {
            Some(v) => if v == seq![65u8] {
                Ok(ImgChannel::A)
            } else if v == seq![82u8] {
                Ok(ImgChannel::R)
            } else if v == seq![71u8] {
                Ok(ImgChannel::G)
            } else if v == seq![66u8] {
                Ok(ImgChannel::B)
            } else if v == seq![76u8] {
                Ok(ImgChannel::L)
            } else {
                Err(ParseError::ChannelFormat)
            },
            None => Err(ParseError::ChannelFormat),
        }
    }
}

impl ImgChannel {
    /// The letter the channel is written with, as `channel_letter` says.
    pub fn letter(&self) -> (r: u8)
        ensures
            r == channel_letter(*self),
    {
        match self {
            ImgChannel::L => 76u8,
            ImgChannel::R => 66u8,
            ImgChannel::G => 71u8,
            ImgChannel::B => 66u8,
            ImgChannel::A => 65u8,
        }
    }

    /// The value a line of bytes gives, as `channel_from` says.
    pub fn from_bytes(line: &[u8]) -> (r: Result<Self, ParseError>)
        ensures
            r == channel_from(line@),
    {
        let mut lines = split_bytes(line, 10u8);
        if lines.len() != 1 {
            return Err(ParseError::ChannelFormat);
        }
        let kw: [u8; 8] = [67u8, 104u8, 97u8, 110u8, 110u8, 101u8, 108u8, 58u8];
        proof {
            assert(kw@ =~= text_channel());
        }
        match keyword_value_of(lines[0].as_slice(), kw.as_slice()) {
            Some(v) => {
                if v.len() != 1 {
                    proof {
                        assert(v@ != seq![65u8] && v@ != seq![82u8] && v@ != seq![71u8] && v@ != seq![66u8]
                            && v@ != seq![76u8]);
                    }
                    return Err(ParseError::ChannelFormat);
                }
                let c = v[0];
                proof {
                    assert(v@ =~= seq![c]);
                }
                if c == 65u8 {
                    Ok(ImgChannel::A)
                } else if c == 82u8 {
                    Ok(ImgChannel::R)
                } else if c == 71u8 {
                    Ok(ImgChannel::G)
                } else if c == 66u8 {
                    Ok(ImgChannel::B)
                } else if c == 76u8 {
                    Ok(ImgChannel::L)
                } else {
                    Err(ParseError::ChannelFormat)
                }
            },
            None => Err(ParseError::ChannelFormat),
        }
    }

    /// The channel a text gives, as `channel_from` says.
    pub fn try_from_string(string: &str) -> (r: Result<Self, ParseError>)
        ensures
            r == channel_from(string.spec_bytes()),
    {
        Self::from_bytes(string.as_bytes())
    }

    /// The text of the channel: `Channel: ` and its letter. `try_from_string` reads
    /// back every channel but red, which comes back as blue.
    pub fn content_to_bytes(&self) -> (r: Vec<u8>)
        ensures
            r@ == text_channel() + seq![32u8, channel_letter(*self)],
            *self != ImgChannel::R ==> channel_from(r@) == Ok::<ImgChannel, ParseError>(*self),
            *self == ImgChannel::R ==> channel_from(r@) == Ok::<ImgChannel, ParseError>(ImgChannel::B),
            plain_text(r@),
    {
        let kw: [u8; 8] = [67u8, 104u8, 97u8, 110u8, 110u8, 101u8, 108u8, 58u8];
        let mut out: Vec<u8> = Vec::new();
        push_all(&mut out, kw.as_slice());
        out.push(32u8);
        out.push(self.letter());
        proof {
            let l = channel_letter(*self);
            assert(out@ =~= text_channel() + seq![32u8, l]);
            assert(forall|i: int| 0 <= i < out@.len() ==> 32 <= #[trigger] out@[i] <= 122);
            lemma_channel_text_reads_back(*self);
        }
        out
    }
}

/// The line `Channel: ` and a letter, which is one byte and no space or line break.
proof fn lemma_channel_line(l: u8)
    requires
        l != 32u8,
        l != 10u8,
    ensures
        split_on(text_channel() + seq![32u8, l], 10) == seq![text_channel() + seq![32u8, l]],
        keyword_value(text_channel() + seq![32u8, l], text_channel()) == Some(seq![l]),
{
    let t = text_channel() + seq![32u8, l];
    assert(text_channel() + seq![32u8, l] =~= text_channel() + seq![32u8] + seq![l]);
    assert forall|i: int| 0 <= i < t.len() implies t[i] != 10u8 by {
        if i < 9 {
            assert(32 <= t[i] <= 122);
        }
    }
    lemma_split_no_sep(t, 10u8);
    lemma_keyword_line(text_channel(), seq![l]);
}

/// Each letter names its channel: `Channel: A` is read as alpha, `R` as red, `G` as
/// green, `B` as blue and `L` as luminance.
pub proof fn lemma_channel_letters()
    ensures
        channel_from(text_channel() + seq![32u8, 65u8]) == Ok::<ImgChannel, ParseError>(ImgChannel::A),
        channel_from(text_channel() + seq![32u8, 82u8]) == Ok::<ImgChannel, ParseError>(ImgChannel::R),
        channel_from(text_channel() + seq![32u8, 71u8]) == Ok::<ImgChannel, ParseError>(ImgChannel::G),
        channel_from(text_channel() + seq![32u8, 66u8]) == Ok::<ImgChannel, ParseError>(ImgChannel::B),
        channel_from(text_channel() + seq![32u8, 76u8]) == Ok::<ImgChannel, ParseError>(ImgChannel::L),
{
    lemma_channel_line(65u8);
    lemma_channel_line(82u8);
    lemma_channel_line(71u8);
    lemma_channel_line(66u8);
    lemma_channel_line(76u8);
    // The letters differ, so each line matches one letter only.
    let letters = seq![65u8, 82u8, 71u8, 66u8, 76u8];
    assert forall|i: int, j: int| 0 <= i < j < 5 implies seq![letters[j]] != seq![letters[i]] by {
        assert(seq![letters[j]][0] != seq![letters[i]][0]);
    }
}

/// The text of a channel is read back as that channel, but red, which is written as
/// blue and comes back as blue.
pub proof fn lemma_channel_text_reads_back(ch: ImgChannel)
    ensures
        channel_from(text_channel() + seq![32u8, channel_letter(ch)]) == Ok::<ImgChannel, ParseError>(
            if ch == ImgChannel::R {
                ImgChannel::B
            } else {
                ch
            },
        ),
{
    let l = channel_letter(ch);
    let t = text_channel() + seq![32u8, l];
    assert(text_channel() + seq![32u8, l] =~= text_channel() + seq![32u8] + seq![l]);
    assert forall|i: int| 0 <= i < t.len() implies t[i] != 10u8 by {
        assert(32 <= t[i] <= 122);
    }
    lemma_split_no_sep(t, 10u8);
    lemma_keyword_line(text_channel(), seq![l]);
}

} // verus!
