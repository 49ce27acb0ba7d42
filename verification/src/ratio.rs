//! Fixed-point ratios with 18 fractional decimal digits, used for the quorum
//! and threshold configuration and for tally comparisons.

use vstd::prelude::*;

verus! {

/// Number of atomic units in 1.0: ten to the eighteenth power.
pub const FRACTIONAL: u128 = 1_000_000_000_000_000_000;

/// A non-negative fixed-point decimal with 18 fractional digits.
/// The represented value is `atomics / FRACTIONAL`.
#[derive(Clone, Copy, Debug, PartialEq, Eq, Structural)]
pub struct Decimal {
    pub atomics: u128,
}

/// Relies on cosmwasm_std::Decimal::from_ratio: the ratio numerator over
/// denominator as a fixed-point value, that is the floor of
/// numerator * FRACTIONAL / denominator. It panics when the denominator is
/// zero or the result exceeds the atomics range, which the callers rule out.
#[verifier::external_body]
fn from_ratio_atomics(numerator: u128, denominator: u128) -> (r: u128)
    requires
        denominator != 0,
        numerator * FRACTIONAL / (denominator as int) <= u128::MAX,
    ensures
        r == numerator * FRACTIONAL / (denominator as int),
{
    cosmwasm_std::Decimal::from_ratio(numerator, denominator).atomics().u128()
}

/// Relies on cosmwasm_std::Uint128::multiply_ratio: the floor of
/// base * numerator / denominator, computed without intermediate overflow.
/// It panics when the denominator is zero or the result exceeds the u128
/// range, which the callers rule out.
#[verifier::external_body]
pub(crate) fn multiply_ratio(base: u128, numerator: u128, denominator: u128) -> (r: u128)
    requires
        denominator != 0,
        base * numerator / (denominator as int) <= u128::MAX,
    ensures
        r == base * numerator / (denominator as int),
{
    cosmwasm_std::Uint128::new(base).multiply_ratio(numerator, denominator).u128()
}

impl Decimal {
    /// The ratio 0.
    pub fn zero() -> (r: Decimal)
        ensures
            r.atomics == 0,
    {
        Decimal { atomics: 0 }
    }

    /// The ratio `p / 100`.
    pub fn percent(p: u64) -> (r: Decimal)
        ensures
            r.atomics == p * 10_000_000_000_000_000,
    {
        Decimal { atomics: (p as u128) * 10_000_000_000_000_000 }
    }

    /// The ratio `numerator / denominator`, rounded down to 18 fractional
    /// digits.
    pub fn from_ratio(numerator: u128, denominator: u128) -> (r: Decimal)
        requires
            denominator != 0,
            numerator * FRACTIONAL / (denominator as int) <= u128::MAX,
        ensures
            r.atomics == numerator * FRACTIONAL / (denominator as int),
    {
        Decimal { atomics: from_ratio_atomics(numerator, denominator) }
    }

    /// True when `self` is strictly below `other`.
    pub fn lt(&self, other: &Decimal) -> (r: bool)
        ensures
            r == (self.atomics < other.atomics),
    {
        self.atomics < other.atomics
    }

    /// True when `self` is strictly above `other`.
    pub fn gt(&self, other: &Decimal) -> (r: bool)
        ensures
            r == (self.atomics > other.atomics),
    {
        self.atomics > other.atomics
    }
}

} // verus!
