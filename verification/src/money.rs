//! The money type: exact fixed-precision decimal arithmetic for currency.
//!
//! A value is a count of nano-units (billionths of a currency unit). The
//! fine scale keeps repeated per-second accrual updates exact to well below
//! the two-fraction-digit display precision, with none of the drift that
//! binary floating point would introduce.

use vstd::prelude::*;

verus! {

/// Nano-units in one currency unit.
pub const NANOS_PER_UNIT: i64 = 1_000_000_000;

/// Nano-units in one cent (one hundredth of a currency unit).
pub const NANOS_PER_CENT: i64 = 10_000_000;

/// An exact decimal amount of currency, stored as nano-units.
/// Negative values arise only from forced purchases.
#[derive(Clone, Copy, PartialEq, Eq, Structural, Debug)]
pub struct Money {
    pub nanos: i64,
}

impl View for Money {
    type V = int;

    open spec fn view(&self) -> int {
        self.nanos as int
    }
}

impl DeepView for Money {
    type V = int;

    open spec fn deep_view(&self) -> int {
        self.nanos as int
    }
}

impl Money {
    /// The zero amount.
    pub fn zero() -> (r: Money)
        ensures
            r@ == 0,
    {
        Money { nanos: 0 }
    }

    /// An amount given directly in nano-units.
    pub fn from_nanos(nanos: i64) -> (r: Money)
        ensures
            r@ == nanos as int,
    {
        Money { nanos }
    }

    /// An amount given in whole currency units; `None` if it does not fit.
    pub fn from_units(units: i64) -> (r: Option<Money>)
        ensures
            r matches Some(m) ==> m@ == units * NANOS_PER_UNIT,
            r is Some <==> i64::MIN <= units * NANOS_PER_UNIT <= i64::MAX,
    {
        proof {
            assert(i128::MIN <= units * (NANOS_PER_UNIT as int) <= i128::MAX) by (nonlinear_arith)
                requires
                    i64::MIN <= units <= i64::MAX,
            ;
        }
        let wide: i128 = (units as i128) * (NANOS_PER_UNIT as i128);
        if i64::MIN as i128 <= wide && wide <= i64::MAX as i128 {
            Some(Money { nanos: wide as i64 })
        } else {
            None
        }
    }

    /// Exact sum; `None` if it does not fit.
    pub fn checked_add(self, other: Money) -> (r: Option<Money>)
        ensures
            r matches Some(m) ==> m@ == self@ + other@,
            r is Some <==> i64::MIN <= self@ + other@ <= i64::MAX,
    {
        let wide: i128 = (self.nanos as i128) + (other.nanos as i128);
        if i64::MIN as i128 <= wide && wide <= i64::MAX as i128 {
            Some(Money { nanos: wide as i64 })
        } else {
            None
        }
    }

    /// Exact difference; `None` if it does not fit.
    pub fn checked_sub(self, other: Money) -> (r: Option<Money>)
        ensures
            r matches Some(m) ==> m@ == self@ - other@,
            r is Some <==> i64::MIN <= self@ - other@ <= i64::MAX,
    {
        let wide: i128 = (self.nanos as i128) - (other.nanos as i128);
        if i64::MIN as i128 <= wide && wide <= i64::MAX as i128 {
            Some(Money { nanos: wide as i64 })
        } else {
            None
        }
    }

    /// Strict order: `self` is less than `other`.
    pub fn lt(self, other: Money) -> (r: bool)
        ensures
            r == (self@ < other@),
    {
        self.nanos < other.nanos
    }

    /// `self` is less than or equal to `other`.
    pub fn le(self, other: Money) -> (r: bool)
        ensures
            r == (self@ <= other@),
    {
        self.nanos <= other.nanos
    }

    /// `self` is greater than or equal to `other`.
    pub fn ge(self, other: Money) -> (r: bool)
        ensures
            r == (self@ >= other@),
    {
        self.nanos >= other.nanos
    }

    /// The fixed two-fraction-digit display decomposition: a sign, the
    /// whole units, and the cents, truncating the finer digits toward zero.
    pub fn display_parts(self) -> (r: (bool, u64, u64))
        ensures
            r.0 == (self@ < 0),
            r.1 == vstd::math::abs(self@) as int / (NANOS_PER_UNIT as int),
            r.2 == (vstd::math::abs(self@) as int % (NANOS_PER_UNIT as int)) / (
            NANOS_PER_CENT as int),
    {
        let magnitude: u128 = if self.nanos >= 0 {
            self.nanos as u128
        } else {
            (-(self.nanos as i128)) as u128
        };
        let whole: u128 = magnitude / (NANOS_PER_UNIT as u128);
        let cents: u128 = (magnitude % (NANOS_PER_UNIT as u128)) / (NANOS_PER_CENT as u128);
        (self.nanos < 0, whole as u64, cents as u64)
    }
}

} // verus!
