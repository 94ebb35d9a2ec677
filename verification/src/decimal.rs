//! A decimal numeral kept exactly: its digits, most significant first, and
//! how many of them lie after the decimal point.
//!
//! A normalized coordinate is a percentage in [0, 100] reported by the vision
//! model as free text; keeping the numeral's digits avoids any rounding
//! before the pixel conversion.

use vstd::prelude::*;
use crate::digits::digits_ok;
use crate::digits::pixel_component;
use crate::digits::le_hundred;
use crate::digits::val_msd;
use crate::digits::within_hundred;

verus! {

/// An exact decimal numeral: the digit `digits[i]` is a value in 0..9, and
/// the last `scale` digits are the fraction part. The denoted value is
/// `val_msd(digits) / 10^scale`.
pub struct Decimal {
    pub digits: Vec<u8>,
    pub scale: usize,
}

impl Decimal {
    /// Well-formed: every element a single digit, at least one digit before
    /// the decimal point, and room to count the two extra fraction digits
    /// that dividing by 100 appends.
    pub open spec fn wf(self) -> bool {
        &&& digits_ok(self.digits@)
        &&& self.scale < self.digits@.len()
        &&& self.scale + 2 <= usize::MAX
    }

    /// The numerator of the denoted value over `10^scale`.
    pub open spec fn numerator(self) -> nat {
        val_msd(self.digits@)
    }

    /// Whether the denoted value is at most 100.
    pub open spec fn le_hundred_spec(self) -> bool {
        within_hundred(self.digits@, self.scale as nat)
    }

    /// Decide whether the denoted value is at most 100.
    pub fn is_at_most_hundred(&self) -> (r: bool)
        requires
            self.wf(),
        ensures
            r == self.le_hundred_spec(),
    {
        le_hundred(&self.digits, self.scale)
    }

    /// `floor(value / 100 * dim)`: the pixel component for this normalized
    /// coordinate on an axis of `dim` pixels.
    pub fn to_pixel(&self, dim: u32) -> (r: u32)
        requires
            self.wf(),
            self.le_hundred_spec(),
        ensures
            r == self.pixel_spec(dim),
            r <= dim,
    {
        pixel_component(&self.digits, self.scale, dim)
    }

    /// The exact pixel value: `(numerator * dim) / 10^(scale+2)`, which is
    /// `floor(value / 100 * dim)`.
    pub open spec fn pixel_spec(self, dim: u32) -> int {
        crate::digits::pixel_val(self.digits@, self.scale as nat, dim)
    }
}

} // verus!
