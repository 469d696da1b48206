use vstd::prelude::*;
use vstd::string::StringSliceAdditionalSpecFns;
use crate::filter::{CutBrightness, EqualizeHist, ExtractChannel, MedianFilter, NeutralizeChannel, Rgb2Gray};
use crate::text_check::{blank, is_blank};
use crate::filter_option::{
    brightness_range_from, channel_from, channel_letter, extend_value_from, lemma_split_concat,
    lemma_split_no_sep, plain_text, replace_value_from, text_channel, text_ext, text_near, text_zero,
    window_size_from, CutBrightnessRange, FilterWindowSize, ImgChannel, ParseError, ValueRepaceWith,
    WindowSizeError,
};
use crate::matrix2d::ExtendValue;
use crate::parse::{all_digits, digits_value, split_bytes, split_on, views};

verus! {

/// Two lines without line breaks, joined by one, split back into the two.
pub proof fn lemma_two_lines(a: Seq<u8>, b: Seq<u8>)
    requires
        !a.contains(10u8),
        !b.contains(10u8),
    ensures
        split_on(a + seq![10u8] + b, 10u8) == seq![a, b],
{
    assert forall|i: int| 0 <= i < a.len() implies a[i] != 10u8 by {
        if a[i] == 10u8 {
            assert(a.contains(10u8));
        }
    }
    assert forall|i: int| 0 <= i < b.len() implies b[i] != 10u8 by {
        if b[i] == 10u8 {
            assert(b.contains(10u8));
        }
    }
    lemma_split_no_sep(a, 10u8);
    lemma_split_no_sep(b, 10u8);
    lemma_split_concat(a, b, 10u8);
    assert(split_on(a, 10u8) + split_on(b, 10u8) =~= seq![a, b]);
}

/// Joins two lines with a line break.
fn join_lines(first: Vec<u8>, second: Vec<u8>) -> (r: Vec<u8>)
    ensures
        r@ == first@ + seq![10u8] + second@,
{
    let mut out = first;
    out.push(10u8);
    let mut i: usize = 0;
    let ghost head = out@;
    while i < second.len()
        invariant
            i <= second@.len(),
            out@ == head + second@.take(i as int),
        decreases second@.len() - i,
    {
        out.push(second[i]);
        proof {
            assert(second@.take(i + 1) =~= second@.take(i as int).push(second@[i as int]));
        }
        i = i + 1;
    }
    proof {
        assert(second@.take(second@.len() as int) =~= second@);
    }
    out
}

/// The checks a window of a median, mean or Gaussian filter passes, in their order:
/// at least 3 each way, then square, then odd. The first that fails gives the error.
pub open spec fn window_size_checked(size: FilterWindowSize) -> Result<FilterWindowSize, WindowSizeError> {
    if !(size.width >= 3 && size.height >= 3) {
        Err(WindowSizeError::TooSmall)
    } else if size.width != size.height {
        Err(WindowSizeError::NotSquare)
    } else if !(size.width % 2 == 1 && size.height % 2 == 1) {
        Err(WindowSizeError::NotOdd)
    } else {
        Ok(size)
    }
}

/// What the settings text of a window filter says: exactly two lines, a window size
/// that passes `window_size_checked`, then a border value.
pub open spec fn window_settings_from(text: Seq<u8>) -> Result<(FilterWindowSize, ExtendValue<u8>), ParseError> {
    let lines = split_on(text, 10);
    if lines.len() != 2 {
        Err(ParseError::LineCount)
    } else {
        match window_size_from(lines[0]) {
            Err(e) => Err(e),
            Ok(size) => match window_size_checked(size) {
                Err(e) => Err(ParseError::WindowSize(e)),
                Ok(size) => match extend_value_from(lines[1]) {
                    Err(e) => Err(e),
                    Ok(ext) => Ok((size, ext)),
                },
            },
        }
    }
}

/// A border line as it is written: `Ext: near`, or `Ext: ` and the digits of the value.
pub open spec fn is_border_line(line: Seq<u8>, ext: ExtendValue<u8>) -> bool {
    match ext {
        ExtendValue::Closest => line == text_ext() + seq![32u8] + text_near(),
        ExtendValue::Given(v) => exists|d: Seq<u8>|
            all_digits(d) && d.len() >= 1 && (d.len() > 1 ==> d[0] != 48u8) && digits_value(d) == v
                && line == text_ext() + seq![32u8] + d,
    }
}

/// A settings text of a window filter as it is written: the size line, a line break,
/// the border line.
pub open spec fn is_window_settings_text(text: Seq<u8>, size: FilterWindowSize, ext: ExtendValue<u8>) -> bool {
    let lines = split_on(text, 10);
    &&& lines.len() == 2
    &&& window_size_from(lines[0]) == Ok::<FilterWindowSize, ParseError>(size)
    &&& is_border_line(lines[1], ext)
}

/// Reads the settings of a window filter, as `window_settings_from` says.
pub fn parse_window_settings(string: &str) -> (r: Result<(FilterWindowSize, ExtendValue<u8>), ParseError>)
    ensures
        r == window_settings_from(string.spec_bytes()),
{
    let lines = split_bytes(string.as_bytes(), 10u8);
    if lines.len() != 2 {
        return Err(ParseError::LineCount);
    }
    proof {
        assert(views(lines@)[0] == lines@[0]@);
        assert(views(lines@)[1] == lines@[1]@);
    }
    let size = match FilterWindowSize::from_bytes(lines[0].as_slice()) {
        Ok(s) => s,
        Err(e) => {
            return Err(e);
        },
    };
    let size = match size.check_size_be_3() {
        Ok(s) => s,
        Err(e) => {
            return Err(ParseError::WindowSize(e));
        },
    };
    let size = match size.check_w_equals_h() {
        Ok(s) => s,
        Err(e) => {
            return Err(ParseError::WindowSize(e));
        },
    };
    let size = match size.check_w_h_odd() {
        Ok(s) => s,
        Err(e) => {
            return Err(ParseError::WindowSize(e));
        },
    };
    let ext = match ExtendValue::from_bytes(lines[1].as_slice()) {
        Ok(v) => v,
        Err(e) => {
            return Err(e);
        },
    };
    Ok((size, ext))
}

/// Writes the settings of a window filter: the size line, a line break, the border line.
pub fn window_settings_to_bytes(size: FilterWindowSize, ext: ExtendValue<u8>) -> (r: Vec<u8>)
    ensures
        is_window_settings_text(r@, size, ext),
        !r@.contains(124u8),
{
    let first = size.content_to_bytes();
    let second = ext.content_to_bytes();
    let out = join_lines(first, second);
    proof {
        lemma_two_lines(first@, second@);
        lemma_lines_without_bar(first@, second@);
    }
    out
}

/// Two plain lines joined by a line break hold no `|`.
proof fn lemma_lines_without_bar(a: Seq<u8>, b: Seq<u8>)
    requires
        plain_text(a),
        plain_text(b),
    ensures
        !(a + seq![10u8] + b).contains(124u8),
{
    let t = a + seq![10u8] + b;
    assert forall|i: int| 0 <= i < t.len() implies t[i] != 124u8 by {
        if i < a.len() {
            assert(t[i] == a[i]);
        } else if i == a.len() {
            assert(t[i] == 10u8);
        } else {
            assert(t[i] == b[i - a.len() - 1]);
        }
    }
}

/// Settings written as a window filter writes them are read back as they were, for a
/// window that passes the checks and a border of the closest value or zero.
pub proof fn lemma_window_settings_round_trip(text: Seq<u8>, size: FilterWindowSize, ext: ExtendValue<u8>)
    requires
        is_window_settings_text(text, size, ext),
        window_size_checked(size) is Ok,
        ext == ExtendValue::<u8>::Closest || ext == ExtendValue::<u8>::Given(0),
    ensures
        window_settings_from(text) == Ok::<(FilterWindowSize, ExtendValue<u8>), ParseError>((size, ext)),
{
    let lines = split_on(text, 10);
    crate::filter_option::lemma_border_lines_read_back();
    if ext == ExtendValue::<u8>::Given(0) {
        let d = choose|d: Seq<u8>|
            all_digits(d) && d.len() >= 1 && (d.len() > 1 ==> d[0] != 48u8) && digits_value(d) == 0u8
                && lines[1] == text_ext() + seq![32u8] + d;
        crate::parse::lemma_zero_digits(d);
    }
}

impl MedianFilter {
    /// Takes the window size and the border value from a settings text, as
    /// `window_settings_from` says; on an error the filter stays as it was.
    pub fn try_set_from_string(&mut self, string: &str) -> (r: Result<(), ParseError>)
        ensures
            match window_settings_from(string.spec_bytes()) {
                Ok(v) => r is Ok && final(self).size_spec() == v.0 && final(self).extend_spec() == v.1,
                Err(e) => r == Err::<(), ParseError>(e) && *final(self) == *old(self),
            },
    {
        match parse_window_settings(string) {
            Ok((size, ext)) => {
                *self = MedianFilter::new(size, ext);
                Ok(())
            },
            Err(e) => Err(e),
        }
    }

    /// The settings text of the filter. It is read back as it was for a window that
    /// passes the checks and a border of the closest value or zero.
    pub fn params_to_bytes(&self) -> (r: Option<Vec<u8>>)
        ensures
            r is Some,
            is_window_settings_text(r->0@, self.size_spec(), self.extend_spec()),
            !r->0@.contains(124u8),
            (window_size_checked(self.size_spec()) is Ok && (self.extend_spec() == ExtendValue::<u8>::Closest
                || self.extend_spec() == ExtendValue::<u8>::Given(0))) ==> window_settings_from(r->0@)
                == Ok::<(FilterWindowSize, ExtendValue<u8>), ParseError>((self.size_spec(), self.extend_spec())),
    {
        let text = window_settings_to_bytes(FilterWindowSize::new(self.w(), self.h()), self.get_extend_value());
        proof {
            if window_size_checked(self.size_spec()) is Ok && (self.extend_spec() == ExtendValue::<u8>::Closest
                || self.extend_spec() == ExtendValue::<u8>::Given(0)) {
                lemma_window_settings_round_trip(text@, self.size_spec(), self.extend_spec());
            }
        }
        Some(text)
    }
}

/// What the settings text of the brightness cut says: exactly two lines, a range and
/// a replacement value.
pub open spec fn cut_settings_from(text: Seq<u8>) -> Result<(CutBrightnessRange, ValueRepaceWith), ParseError> {
    let lines = split_on(text, 10);
    if lines.len() != 2 {
        Err(ParseError::LineCount)
    } else {
        match brightness_range_from(lines[0]) {
            Err(e) => Err(e),
            Ok(range) => match replace_value_from(lines[1]) {
                Err(e) => Err(e),
                Ok(value) => Ok((range, value)),
            },
        }
    }
}

impl CutBrightness {
    /// Takes the range and the replacement value from a settings text, as
    /// `cut_settings_from` says; on an error the filter stays as it was.
    pub fn try_set_from_string(&mut self, string: &str) -> (r: Result<(), ParseError>)
        ensures
            match cut_settings_from(string.spec_bytes()) {
                Ok(v) => r is Ok && final(self).range_spec() == v.0 && final(self).replace_spec() == v.1,
                Err(e) => r == Err::<(), ParseError>(e) && *final(self) == *old(self),
            },
    {
        let lines = split_bytes(string.as_bytes(), 10u8);
        if lines.len() != 2 {
            return Err(ParseError::LineCount);
        }
        proof {
            assert(views(lines@)[0] == lines@[0]@);
            assert(views(lines@)[1] == lines@[1]@);
        }
        let range = match CutBrightnessRange::from_bytes(lines[0].as_slice()) {
            Ok(v) => v,
            Err(e) => {
                return Err(e);
            },
        };
        let value = match ValueRepaceWith::from_bytes(lines[1].as_slice()) {
            Ok(v) => v,
            Err(e) => {
                return Err(e);
            },
        };
        *self = CutBrightness::new(range, value);
        Ok(())
    }

    /// The settings text of the filter, which `try_set_from_string` reads back.
    pub fn params_to_bytes(&self) -> (r: Option<Vec<u8>>)
        ensures
            r is Some,
            cut_settings_from(r->0@) == Ok::<(CutBrightnessRange, ValueRepaceWith), ParseError>(
                (self.range_spec(), self.replace_spec()),
            ),
            !r->0@.contains(124u8),
    {
        let first = self.cut_range().content_to_bytes();
        let second = self.replace_with().content_to_bytes();
        let text = join_lines(first, second);
        proof {
            lemma_two_lines(first@, second@);
            lemma_lines_without_bar(first@, second@);
        }
        Some(text)
    }
}

impl ExtractChannel {
    /// Takes the kept channel from a settings text, as `channel_from` says; on an
    /// error the filter stays as it was.
    pub fn try_set_from_string(&mut self, string: &str) -> (r: Result<(), ParseError>)
        ensures
            match channel_from(string.spec_bytes()) {
                Ok(c) => r is Ok && final(self).kept() == c,
                Err(e) => r == Err::<(), ParseError>(e) && *final(self) == *old(self),
            },
    {
        match ImgChannel::try_from_string(string) {
            Ok(c) => {
                *self = ExtractChannel::new(c);
                Ok(())
            },
            Err(e) => Err(e),
        }
    }

    /// The settings text of the filter: the kept channel, written as
    /// `ImgChannel::content_to_bytes` writes it.
    pub fn params_to_bytes(&self) -> (r: Option<Vec<u8>>)
        ensures
            r is Some,
            r->0@ == text_channel() + seq![32u8, channel_letter(self.kept())],
            plain_text(r->0@),
    {
        Some(self.channel().content_to_bytes())
    }
}

impl NeutralizeChannel {
    /// Takes the cleared channel from a settings text, as `channel_from` says; on an
    /// error the filter stays as it was.
    pub fn try_set_from_string(&mut self, string: &str) -> (r: Result<(), ParseError>)
        ensures
            match channel_from(string.spec_bytes()) {
                Ok(c) => r is Ok && final(self).cleared() == c,
                Err(e) => r == Err::<(), ParseError>(e) && *final(self) == *old(self),
            },
    {
        match ImgChannel::try_from_string(string) {
            Ok(c) => {
                *self = NeutralizeChannel::new(c);
                Ok(())
            },
            Err(e) => Err(e),
        }
    }

    /// The settings text of the filter: the cleared channel, written as
    /// `ImgChannel::content_to_bytes` writes it.
    pub fn params_to_bytes(&self) -> (r: Option<Vec<u8>>)
        ensures
            r is Some,
            r->0@ == text_channel() + seq![32u8, channel_letter(self.cleared())],
            plain_text(r->0@),
    {
        Some(self.channel().content_to_bytes())
    }
}

/// Accepts the settings text of a filter that has no settings: white space only.
pub fn check_no_settings(string: &str) -> (r: Result<(), ParseError>)
    ensures
        blank(string@) ==> r is Ok,
        !blank(string@) ==> r == Err::<(), ParseError>(ParseError::NoSettings),
{
    if is_blank(string) {
        Ok(())
    } else {
        Err(ParseError::NoSettings)
    }
}

impl Rgb2Gray {
    /// The filter has no settings: a text of white space only is accepted, any
    /// other is refused. The filter does not change.
    pub fn try_set_from_string(&mut self, string: &str) -> (r: Result<(), ParseError>)
        ensures
            blank(string@) ==> r is Ok,
            !blank(string@) ==> r == Err::<(), ParseError>(ParseError::NoSettings),
            *final(self) == *old(self),
    {
        check_no_settings(string)
    }

    /// The filter has no settings to write.
    pub fn params_to_bytes(&self) -> (r: Option<Vec<u8>>)
        ensures
            r is None,
    {
        None
    }
}

impl EqualizeHist {
    /// The filter has no settings: a text of white space only is accepted, any
    /// other is refused. The filter does not change.
    pub fn try_set_from_string(&mut self, string: &str) -> (r: Result<(), ParseError>)
        ensures
            blank(string@) ==> r is Ok,
            !blank(string@) ==> r == Err::<(), ParseError>(ParseError::NoSettings),
            *final(self) == *old(self),
    {
        check_no_settings(string)
    }

    /// The filter has no settings to write.
    pub fn params_to_bytes(&self) -> (r: Option<Vec<u8>>)
        ensures
            r is None,
    {
        None
    }
}


/// Why the matrix of a custom linear filter was refused.
#[derive(Clone, Copy, Debug, PartialEq, Eq, Structural)]
pub enum KernelShapeError {
    /// Fewer than three lines: the matrix needs a row, and two settings lines follow it.
    LineCount,
    /// A row holds a word that is not a number.
    NumberFormat,
    /// A row holds another number of values than the row above it.
    RowLengthsDiffer,
    /// A row of fewer than two values, or a matrix of fewer than two rows.
    TooSmall,
}

impl KernelShapeError {
    /// The message shown to the user.
    pub fn message(&self) -> (r: &'static str)
        ensures
            r == match *self {
                KernelShapeError::LineCount => "Нужно ввести матрицу и параметры на следующей строке",
                KernelShapeError::NumberFormat => "Некорректный формат чисел",
                KernelShapeError::RowLengthsDiffer => "Некорректная разменость матрицы",
                KernelShapeError::TooSmall => "Матрица должна иметь размеры > 1",
            },
    {
        match self {
            KernelShapeError::LineCount => "Нужно ввести матрицу и параметры на следующей строке",
            KernelShapeError::NumberFormat => "Некорректный формат чисел",
            KernelShapeError::RowLengthsDiffer => "Некорректная разменость матрицы",
            KernelShapeError::TooSmall => "Матрица должна иметь размеры > 1",
        }
    }
}

/// The rows of a matrix checked from the top, as they are read: each row is the
/// number of its values, or `None` where it holds a word that is not a number. The
/// first row that fails gives the error: a word that is not a number, then a length
/// other than that of the row above, then fewer than two values.
pub open spec fn kernel_rows_check(rows: Seq<Option<usize>>) -> Result<(), KernelShapeError>
    decreases rows.len(),
{
    if rows.len() == 0 {
        Ok(())
    } else {
        match kernel_rows_check(rows.drop_last()) {
            Err(e) => Err(e),
            Ok(()) => match rows.last() {
                None => Err(KernelShapeError::NumberFormat),
                Some(n) => if rows.len() > 1 && rows[rows.len() - 2] != Some(n) {
                    Err(KernelShapeError::RowLengthsDiffer)
                } else if n < 2 {
                    Err(KernelShapeError::TooSmall)
                } else {
                    Ok(())
                },
            },
        }
    }
}

/// The shape of the matrix of a custom linear filter, as its columns and rows, from
/// the number of lines of its settings text and the rows of the matrix (every line
/// but the last two): at least three lines, rows that pass `kernel_rows_check`, and
/// at least two rows.
pub open spec fn kernel_shape_of(line_count: nat, rows: Seq<Option<usize>>) -> Result<(usize, usize), KernelShapeError> {
    if line_count < 3 {
        Err(KernelShapeError::LineCount)
    } else {
        match kernel_rows_check(rows) {
            Err(e) => Err(e),
            Ok(()) => if rows.len() < 2 {
                Err(KernelShapeError::TooSmall)
            } else {
                Ok((rows.last()->0, rows.len() as usize))
            },
        }
    }
}

/// Checks the shape of the matrix of a custom linear filter, as `kernel_shape_of`
/// says, and gives its columns and rows.
pub fn kernel_shape(line_count: usize, rows: &[Option<usize>]) -> (r: Result<(usize, usize), KernelShapeError>)
    ensures
        r == kernel_shape_of(line_count as nat, rows@),
        r is Ok ==> {
            &&& forall|i: int| 0 <= i < rows@.len() ==> #[trigger] rows@[i] == Some(r->Ok_0.0)
            &&& r->Ok_0.1 == rows@.len()
        },
{
    if line_count < 3 {
        return Err(KernelShapeError::LineCount);
    }
    let mut i: usize = 0;
    while i < rows.len()
        invariant
            line_count >= 3,
            i <= rows@.len(),
            kernel_rows_check(rows@.take(i as int)) == Ok::<(), KernelShapeError>(()),
        decreases rows@.len() - i,
    {
        let ghost next = rows@.take(i as int + 1);
        proof {
            assert(next.drop_last() =~= rows@.take(i as int));
            assert(next.last() == rows@[i as int]);
            if i > 0 {
                assert(next[next.len() - 2] == rows@[i - 1]);
            }
        }
        match rows[i] {
            None => {
                proof {
                    lemma_kernel_check_prefix(rows@, i as int + 1);
                }
                return Err(KernelShapeError::NumberFormat);
            },
            Some(n) => {
                let differs = if i > 0 {
                    match rows[i - 1] {
                        Some(m) => m != n,
                        None => true,
                    }
                } else {
                    false
                };
                if differs {
                    proof {
                        lemma_kernel_check_prefix(rows@, i as int + 1);
                    }
                    return Err(KernelShapeError::RowLengthsDiffer);
                }
                if n < 2 {
                    proof {
                        lemma_kernel_check_prefix(rows@, i as int + 1);
                    }
                    return Err(KernelShapeError::TooSmall);
                }
            },
        }
        i = i + 1;
    }
    proof {
        assert(rows@.take(rows@.len() as int) =~= rows@);
        lemma_kernel_shape(line_count as nat, rows@);
    }
    if rows.len() < 2 {
        return Err(KernelShapeError::TooSmall);
    }
    match rows[rows.len() - 1] {
        Some(w) => Ok((w, rows.len())),
        None => Err(KernelShapeError::NumberFormat),
    }
}

/// A failure in the first `k` rows is the failure of all the rows.
proof fn lemma_kernel_check_prefix(rows: Seq<Option<usize>>, k: int)
    requires
        0 <= k <= rows.len(),
        kernel_rows_check(rows.take(k)) is Err,
    ensures
        kernel_rows_check(rows) == kernel_rows_check(rows.take(k)),
    decreases rows.len() - k,
{
    if k < rows.len() {
        assert(rows.take(k + 1).drop_last() =~= rows.take(k));
        lemma_kernel_check_prefix(rows, k + 1);
    } else {
        assert(rows.take(k) =~= rows);
    }
}


/// The rows pass the checks exactly when each holds numbers only, at least two of
/// them, and as many as the first row.
proof fn lemma_kernel_rows_ok(rows: Seq<Option<usize>>)
    ensures
        kernel_rows_check(rows) is Ok <==> forall|i: int|
            0 <= i < rows.len() ==> {
                &&& #[trigger] rows[i] is Some
                &&& rows[i]->0 >= 2
                &&& rows[i] == rows[0]
            },
    decreases rows.len(),
{
    if rows.len() > 0 {
        let front = rows.drop_last();
        let n = rows.len() - 1;
        lemma_kernel_rows_ok(front);
        assert forall|i: int| 0 <= i < front.len() implies #[trigger] front[i] == rows[i] by {}
        let all_ok = forall|i: int|
            0 <= i < rows.len() ==> {
                &&& #[trigger] rows[i] is Some
                &&& rows[i]->0 >= 2
                &&& rows[i] == rows[0]
            };
        if kernel_rows_check(rows) is Ok {
            assert(kernel_rows_check(front) is Ok);
            assert(rows[n] is Some);
            if n > 0 {
                assert(front[0] == rows[0]);
                assert(front[n - 1] == front[0]);
                assert(rows[n - 1] == rows[0]);
            }
            assert forall|i: int| 0 <= i < rows.len() implies {
                &&& #[trigger] rows[i] is Some
                &&& rows[i]->0 >= 2
                &&& rows[i] == rows[0]
            } by {
                if i < n {
                    assert(front[i] == rows[i]);
                    assert(front[0] == rows[0]);
                }
            }
        }
        if all_ok {
            assert forall|i: int| 0 <= i < front.len() implies {
                &&& #[trigger] front[i] is Some
                &&& front[i]->0 >= 2
                &&& front[i] == front[0]
            } by {
                assert(rows[i] is Some);
                assert(front[0] == rows[0]);
            }
            assert(kernel_rows_check(front) is Ok);
            assert(rows[n] is Some);
            if n > 0 {
                assert(rows[n - 1] == rows[0]);
            }
        }
    }
}

/// The shape of the matrix of a custom linear filter: it is accepted exactly when
/// its settings have at least three lines and it has at least two rows, each of
/// numbers only, at least two of them and as many as in every other row. Then the
/// columns are the number of values of each row and the rows are the number of rows.
pub proof fn lemma_kernel_shape(line_count: nat, rows: Seq<Option<usize>>)
    requires
        rows.len() <= usize::MAX,
    ensures
        kernel_shape_of(line_count, rows) is Ok <==> {
            &&& line_count >= 3
            &&& rows.len() >= 2
            &&& forall|i: int|
                0 <= i < rows.len() ==> {
                    &&& #[trigger] rows[i] is Some
                    &&& rows[i]->0 >= 2
                    &&& rows[i] == rows[0]
                }
        },
        kernel_shape_of(line_count, rows) is Ok ==> {
            &&& forall|i: int|
                0 <= i < rows.len() ==> #[trigger] rows[i] == Some(kernel_shape_of(line_count, rows)->Ok_0.0)
            &&& kernel_shape_of(line_count, rows)->Ok_0.1 == rows.len()
        },
{
    lemma_kernel_rows_ok(rows);
    if kernel_shape_of(line_count, rows) is Ok {
        assert(rows[rows.len() - 1] == rows[0]);
    }
}

} // verus!
