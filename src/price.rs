//! Fixed-point exchange prices and their conversion of fee amounts.
use sp_arithmetic::{FixedPointNumber, FixedU128};
use vstd::prelude::*;

verus! {

/// The fixed-point denominator: a price whose inner value is `PRICE_ACCURACY`
/// stands for exactly one asset unit per fee unit.
pub const PRICE_ACCURACY: u128 = 1_000_000_000_000_000_000;

/// `price * n` in fixed point, rounded down, as a mathematical integer.
pub open spec fn scaled(price: u128, n: u128) -> int {
    (price as int * n as int) / (PRICE_ACCURACY as int)
}

/// `scaled`, clamped to what fits in a `u128`.
pub open spec fn saturated_scaled(price: u128, n: u128) -> u128 {
    if scaled(price, n) <= u128::MAX as int {
        scaled(price, n) as u128
    } else {
        u128::MAX
    }
}

/// Relies on `FixedU128::checked_mul_int` (sp-arithmetic): `inner * n / 10^18`
/// rounded down, `None` where that does not fit in a `u128`.
#[verifier::external_body]
fn fixed_checked_mul_int(inner: u128, n: u128) -> (r: Option<u128>)
    ensures
        r == (if scaled(inner, n) <= u128::MAX as int {
            Some(scaled(inner, n) as u128)
        } else {
            None::<u128>
        }),
{
    FixedU128::from_inner(inner).checked_mul_int(n)
}

/// Relies on `FixedU128::saturating_mul_int` (sp-arithmetic): `inner * n / 10^18`
/// rounded down, `u128::MAX` where that does not fit.
#[verifier::external_body]
fn fixed_saturating_mul_int(inner: u128, n: u128) -> (r: u128)
    ensures
        r == saturated_scaled(inner, n),
{
    FixedU128::from_inner(inner).saturating_mul_int(n)
}

/// A non-negative exchange rate in asset units per canonical fee unit, held as
/// a fixed-point value with `PRICE_ACCURACY` as denominator.
#[derive(Clone, Copy, Debug, PartialEq, Eq, Structural, PartialOrd, Ord, Hash)]
pub struct ExchangePrice {
    pub inner: u128,
}

impl ExchangePrice {
    /// The price whose fixed-point representation is `inner`.
    pub fn from_inner(inner: u128) -> (r: ExchangePrice)
        ensures
            r.inner == inner,
    {
        ExchangePrice { inner }
    }

    /// The price of exactly `n` asset units per fee unit, if representable.
    pub fn from_integer(n: u128) -> (r: Option<ExchangePrice>)
        ensures
            r == (if n as int * PRICE_ACCURACY as int <= u128::MAX as int {
                Some(ExchangePrice { inner: (n * PRICE_ACCURACY) as u128 })
            } else {
                None::<ExchangePrice>
            }),
    {
        match n.checked_mul(PRICE_ACCURACY) {
            Some(inner) => Some(ExchangePrice { inner }),
            None => None,
        }
    }

    /// `self * n`, rounded down; `None` if the result does not fit in a `u128`.
    pub fn checked_mul_int(&self, n: u128) -> (r: Option<u128>)
        ensures
            r == (if scaled(self.inner, n) <= u128::MAX as int {
                Some(scaled(self.inner, n) as u128)
            } else {
                None::<u128>
            }),
    {
        fixed_checked_mul_int(self.inner, n)
    }

    /// `self * n`, rounded down and clamped to `u128::MAX`.
    pub fn saturating_mul_int(&self, n: u128) -> (r: u128)
        ensures
            r == saturated_scaled(self.inner, n),
    {
        fixed_saturating_mul_int(self.inner, n)
    }
}

} // verus!
