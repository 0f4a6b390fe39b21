//! Fixed-point amounts: every stock level, recipe amount and time span in
//! the simulation is an integer count of thousandths of a unit.

use vstd::prelude::*;

verus! {

/// A fixed-point amount of stock or of time, stored in thousandths of a unit.
///
/// The whole simulation works in these integer "millis": an ingredient
/// quantity of 2.5 units is `Quantity::new(2500)`, and a recipe delay of
/// 0.2 seconds is `Quantity::new(200)`.
#[derive(Clone, Copy, Debug, PartialEq, Eq, Structural)]
pub struct Quantity {
    pub millis: u64,
}

/// Addition of two amounts, clipped at the largest representable amount.
pub open spec fn spec_saturating_add(a: u64, b: u64) -> u64 {
    if a + b > u64::MAX {
        u64::MAX
    } else {
        (a + b) as u64
    }
}

/// Subtraction of two amounts, floored at zero.
pub open spec fn spec_saturating_sub(a: u64, b: u64) -> u64 {
    if a >= b {
        (a - b) as u64
    } else {
        0
    }
}

impl Quantity {
    /// The zero amount.
    pub fn zero() -> (r: Quantity)
        ensures
            r.millis == 0,
    {
        Quantity { millis: 0 }
    }

    /// An amount of `millis` thousandths of a unit.
    pub fn new(millis: u64) -> (r: Quantity)
        ensures
            r.millis == millis,
    {
        Quantity { millis }
    }

    /// The amount in thousandths of a unit.
    pub fn value(&self) -> (r: u64)
        ensures
            r == self.millis,
    {
        self.millis
    }

    /// Adds `other`, clipping at the largest representable amount.
    pub fn saturating_add(self, other: Quantity) -> (r: Quantity)
        ensures
            r.millis == spec_saturating_add(self.millis, other.millis),
    {
        if u64::MAX - self.millis < other.millis {
            Quantity { millis: u64::MAX }
        } else {
            Quantity { millis: self.millis + other.millis }
        }
    }

    /// Subtracts `other`, flooring at zero.
    pub fn saturating_sub(self, other: Quantity) -> (r: Quantity)
        ensures
            r.millis == spec_saturating_sub(self.millis, other.millis),
    {
        if self.millis >= other.millis {
            Quantity { millis: self.millis - other.millis }
        } else {
            Quantity { millis: 0 }
        }
    }
}

impl Default for Quantity {
    /// The default amount is zero.
    fn default() -> (r: Quantity)
        ensures
            r.millis == 0,
    {
        Quantity { millis: 0 }
    }
}

impl From<u64> for Quantity {
    /// Wraps a raw count of thousandths of a unit.
    fn from(millis: u64) -> (r: Quantity)
        ensures
            r.millis == millis,
    {
        Quantity { millis }
    }
}

impl vstd::std_specs::convert::FromSpecImpl<u64> for Quantity {
    open spec fn obeys_from_spec() -> bool {
        true
    }

    open spec fn from_spec(millis: u64) -> Quantity {
        Quantity { millis }
    }
}

} // verus!
