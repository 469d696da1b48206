use vstd::prelude::*;
use vstd::string::StringSliceAdditionalSpecFns;
use crate::filter::{color_layers, color_layers_count, FilterIterator, MedianFilter};
use crate::filter_option::{FilterWindowSize, ParseError};
use crate::img::Img;
use crate::matrix2d::ExtendValue;
use crate::settings::{
    is_window_settings_text, lemma_window_settings_round_trip, parse_window_settings,
    window_settings_from, window_settings_to_bytes, window_size_checked,
};

verus! {

/// The walk over a filter window, shared by the window filters.
pub trait FilterIterable {
    fn get_iterator(&self) -> FilterIterator;
}

/// Replaces each value by the mean of the window around it. Its window size and
/// border value are held here; the averaging itself works on real values.
#[derive(Clone, Copy, Debug)]
pub struct LinearMean {
    size: FilterWindowSize,
    extend_value: ExtendValue<u8>,
}

impl LinearMean {
    pub closed spec fn size_spec(self) -> FilterWindowSize {
        self.size
    }

    pub closed spec fn extend_spec(self) -> ExtendValue<u8> {
        self.extend_value
    }

    pub fn new(size: FilterWindowSize, extend_value: ExtendValue<u8>) -> (r: Self)
        ensures
            r.size_spec() == size,
            r.extend_spec() == extend_value,
    {
        LinearMean { size, extend_value }
    }

    pub fn w(&self) -> (r: usize)
        ensures
            r == self.size_spec().width,
    {
        self.size.width
    }

    pub fn h(&self) -> (r: usize)
        ensures
            r == self.size_spec().height,
    {
        self.size.height
    }

    pub fn get_extend_value(&self) -> (r: ExtendValue<u8>)
        ensures
            r == self.extend_spec(),
    {
        self.extend_value
    }

    /// The walk over the window of the filter.
    pub fn get_iter(&self) -> (r: FilterIterator)
        ensures
            r.cols() == self.size_spec().width,
            r.rows() == self.size_spec().height,
            r.index() == 0,
            r.valid(),
    {
        FilterIterator::for_window(self.size.width, self.size.height)
    }

    /// For each color layer: one step per column sum, one per row sum (each one
    /// longer than the image) and one per row of the result.
    pub fn get_steps_num<T: Copy>(&self, img: &Img<T>) -> (r: usize)
        requires
            color_layers(img.depth()) * ((img.cols() + 1) + (img.rows() + 1) + img.rows()) <= usize::MAX,
        ensures
            r == color_layers(img.depth()) * ((img.cols() + 1) + (img.rows() + 1) + img.rows()),
    {
        proof {
            vstd::arithmetic::mul::lemma_mul_inequality(
                1,
                color_layers(img.depth()) as int,
                ((img.cols() + 1) + (img.rows() + 1) + img.rows()) as int,
            );
        }
        let row_sums = img.w() + 1;
        let col_sums = img.h() + 1;
        let rows = img.h();
        color_layers_count(img) * (row_sums + col_sums + rows)
    }

    pub fn get_save_name(&self) -> (r: &'static str)
        ensures
            r == "LinearMean",
    {
        "LinearMean"
    }

    /// Takes the window size and the border value from a settings text, as
    /// `window_settings_from` says; on an error the filter stays as it was.
    pub fn try_set_from_string(&mut self, string: &str) -> (r: Result<(), ParseError>)
        ensures
            match window_settings_from(string.spec_bytes()) {
                Ok(v) => r is Ok && final(self).size_spec() == v.0 && final(self).extend_spec() == v.1,
                Err(e) => r == Err::<(), ParseError>(e) && *final(self) == *old(self),
            },
    {
        match parse_window_settings(string) {
            Ok((size, ext)) => {
                *self = LinearMean::new(size, ext);
                Ok(())
            },
            Err(e) => Err(e),
        }
    }

    /// The settings text of the filter. It is read back as it was for a window that
    /// passes the checks and a border of the closest value or zero.
    pub fn params_to_bytes(&self) -> (r: Option<Vec<u8>>)
        ensures
            r is Some,
            is_window_settings_text(r->0@, self.size_spec(), self.extend_spec()),
            !r->0@.contains(124u8),
            (window_size_checked(self.size_spec()) is Ok && (self.extend_spec() == ExtendValue::<u8>::Closest
                || self.extend_spec() == ExtendValue::<u8>::Given(0))) ==> window_settings_from(r->0@)
                == Ok::<(FilterWindowSize, ExtendValue<u8>), ParseError>((self.size_spec(), self.extend_spec())),
    {
        let text = window_settings_to_bytes(self.size, self.extend_value);
        proof {
            if window_size_checked(self.size_spec()) is Ok && (self.extend_spec() == ExtendValue::<u8>::Closest
                || self.extend_spec() == ExtendValue::<u8>::Given(0)) {
                lemma_window_settings_round_trip(text@, self.size_spec(), self.extend_spec());
            }
        }
        Some(text)
    }
}

impl FilterIterable for LinearMean {
    fn get_iterator(&self) -> (r: FilterIterator)
        ensures
            r.cols() == self.size_spec().width,
            r.rows() == self.size_spec().height,
            r.index() == 0,
            r.valid(),
    {
        self.get_iter()
    }
}

impl FilterIterable for MedianFilter {
    fn get_iterator(&self) -> (r: FilterIterator)
        ensures
            r.cols() == self.size_spec().width,
            r.rows() == self.size_spec().height,
            r.index() == 0,
            r.valid(),
    {
        self.get_iter()
    }
}

impl Default for LinearMean {
    fn default() -> (r: Self)
        ensures
            r.size_spec() == (FilterWindowSize { width: 3, height: 3 }),
            r.extend_spec() == ExtendValue::<u8>::Closest,
    {
        LinearMean::new(FilterWindowSize::new(3, 3), ExtendValue::Closest)
    }
}

} // verus!
