//! A validated percentage: an integer guaranteed to lie between 0 and 100.

use vstd::prelude::*;

verus! {

/// A type representing a percentage.
///
/// Guarantees that the value will be between 0 and 100 inclusive.
#[derive(Debug, Clone, Copy, PartialEq, Eq, Structural, Hash, PartialOrd, Ord)]
pub struct Percent {
    value: u8,
}

impl Percent {
    /// The numeric value of this percentage, as a mathematical integer.
    pub closed spec fn as_nat(self) -> nat {
        self.value as nat
    }

    #[verifier::type_invariant]
    spec fn bounded(self) -> bool {
        self.value <= 100
    }

    /// 100%.
    pub fn max() -> (r: Percent)
        ensures
            r.as_nat() == 100,
    {
        Percent { value: 100 }
    }

    /// Constructs a percentage from a value that is already known to be in range.
    pub fn new(value: u8) -> (r: Percent)
        requires
            value <= 100,
        ensures
            r.as_nat() == value as nat,
    {
        Percent { value }
    }

    /// Returns the percentage representing the fraction `num / denom`, rounded down.
    ///
    /// Truncates the result to fit within the range.
    ///
    /// `0 / 0` is interpreted as 100%.
    pub fn fraction(num: usize, denom: usize) -> (r: Percent)
        ensures
            denom == 0 ==> r.as_nat() == 100,
            denom != 0 ==> r.as_nat() == vstd::math::min(100, 100 * num as int / denom as int),
    {
        if denom == 0 {
            Percent { value: 100 }
        } else {
            let wide: u128 = num as u128 * 100;
            let quotient: u128 = wide / denom as u128;
            if quotient >= 100 {
                Percent { value: 100 }
            } else {
                Percent { value: quotient as u8 }
            }
        }
    }

    /// The numeric value of this percentage.
    pub fn value(self) -> (r: u8)
        ensures
            r as nat == self.as_nat(),
            r <= 100,
    {
        proof {
            use_type_invariant(self);
        }
        self.value
    }
}

impl Default for Percent {
    /// 0%.
    fn default() -> (r: Percent)
        ensures
            r.as_nat() == 0,
    {
        Percent { value: 0 }
    }
}

} // verus!
