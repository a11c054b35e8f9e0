//! Monetary amounts in ten-thousandths of a unit, held in a signed 64-bit
//! integer. Arithmetic is exact; a result outside the 64-bit range is refused
//! rather than wrapped or rounded.

use vstd::prelude::*;

verus! {

/// Number of stored units that make one whole unit of currency.
pub const SCALE: i64 = 10_000;

/// Number of decimal places an amount carries.
pub const DECIMALS: usize = 4;

/// Whether an integer number of ten-thousandths fits in a [`Money`].
pub open spec fn fits(units: int) -> bool {
    i64::MIN <= units <= i64::MAX
}

/// An exact amount of money.
#[derive(Clone, Copy, Debug, PartialEq, Eq, Structural)]
pub struct Money {
    pub units: i64,
}

impl View for Money {
    type V = int;

    /// The amount in ten-thousandths.
    open spec fn view(&self) -> int {
        self.units as int
    }
}

impl Money {
    /// The amount zero.
    pub fn zero() -> (m: Money)
        ensures
            m@ == 0,
    {
        Money { units: 0 }
    }

    /// The amount of `units` ten-thousandths.
    pub fn from_units(units: i64) -> (m: Money)
        ensures
            m@ == units,
    {
        Money { units }
    }

    /// The amount in ten-thousandths.
    pub fn units(&self) -> (u: i64)
        ensures
            u == self@,
    {
        self.units
    }

    /// Whether the amount is below zero.
    pub fn is_negative(&self) -> (b: bool)
        ensures
            b == (self@ < 0),
    {
        self.units < 0
    }

    /// The exact sum, or `None` when it does not fit.
    pub fn checked_add(self, other: Money) -> (sum: Option<Money>)
        ensures
            fits(self@ + other@) ==> sum is Some && sum->0@ == self@ + other@,
            !fits(self@ + other@) ==> sum is None,
    {
        match self.units.checked_add(other.units) {
            Some(units) => Some(Money { units }),
            None => None,
        }
    }

    /// The exact difference, or `None` when it does not fit.
    pub fn checked_sub(self, other: Money) -> (diff: Option<Money>)
        ensures
            fits(self@ - other@) ==> diff is Some && diff->0@ == self@ - other@,
            !fits(self@ - other@) ==> diff is None,
    {
        match self.units.checked_sub(other.units) {
            Some(units) => Some(Money { units }),
            None => None,
        }
    }

    /// Whether `self` is at least `other`.
    pub fn at_least(&self, other: &Money) -> (b: bool)
        ensures
            b == (self@ >= other@),
    {
        self.units >= other.units
    }
}

} // verus!
