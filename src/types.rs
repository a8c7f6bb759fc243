use vstd::prelude::*;

use crate::text::{fixed4, units_to_string};

verus! {

/// Number of amount units in one whole currency unit: amounts carry four
/// decimal digits.
pub const UNITS_PER_WHOLE: i64 = 10000;

/// Client ID.
#[derive(Debug, Clone, Copy, PartialEq, Eq, Hash, Structural)]
pub struct Client(pub u16);

/// Transaction ID, unique over the whole event stream.
#[derive(Debug, Clone, Copy, PartialEq, Eq, Hash, Structural)]
pub struct Tx(pub u32);

/// A monetary amount with four decimal digits, held as a whole number of
/// ten-thousandths: `Amount(15000)` is `1.5`.
#[derive(Debug, Clone, Copy, PartialEq, Eq, PartialOrd, Ord, Hash, Structural)]
pub struct Amount(pub i64);

impl Amount {
    /// The amount as a number of ten-thousandths.
    pub open spec fn units(self) -> int {
        self.0 as int
    }

    /// The amount of `whole` currency units.
    pub fn from_whole(whole: i32) -> (r: Amount)
        ensures
            r.units() == whole * UNITS_PER_WHOLE,
    {
        Amount(whole as i64 * UNITS_PER_WHOLE)
    }

    /// The amount as text with exactly four decimal places (`"1.5000"`).
    pub fn to_string(&self) -> (r: String)
        ensures
            r@ == fixed4(self.units()),
    {
        units_to_string(self.0 as i128)
    }

    pub fn is_negative(&self) -> (r: bool)
        ensures
            r == (self.units() < 0),
    {
        self.0 < 0
    }
}

} // verus!
