//! Fixed-point numbers and the ratio of two amounts.

use cosmwasm_std::Uint128;
use vstd::prelude::*;

verus! {

/// The atomic units of the number one: 10 to the power of 18.
pub const DECIMAL_FRACTIONAL: u128 = 1_000_000_000_000_000_000;

/// `value` times `numerator` by `denominator`, rounded down.
pub open spec fn ratio_of(value: u128, numerator: u128, denominator: u128) -> int {
    value * numerator / (denominator as int)
}

/// `Uint128::multiply_ratio`: `value * numerator / denominator` computed in
/// 256 bits and rounded down. It panics on a zero denominator and where the
/// result does not fit in 128 bits.
#[verifier::external_body]
pub(crate) fn multiply_ratio(value: u128, numerator: u128, denominator: u128) -> (r: u128)
    requires
        denominator != 0,
        ratio_of(value, numerator, denominator) <= u128::MAX,
    ensures
        r == ratio_of(value, numerator, denominator),
{
    Uint128::new(value).multiply_ratio(numerator, denominator).u128()
}

/// A number with 18 decimal places, held as its count of atomic units.
#[derive(Clone, Copy, Debug, PartialEq, Eq, Structural)]
pub struct Decimal {
    /// The number times 10 to the power of 18.
    pub atomics: u128,
}

impl Decimal {
    /// The number one.
    pub fn one() -> (d: Decimal)
        ensures
            d.atomics == DECIMAL_FRACTIONAL,
    {
        Decimal { atomics: DECIMAL_FRACTIONAL }
    }

    /// The number zero.
    pub fn zero() -> (d: Decimal)
        ensures
            d.atomics == 0,
    {
        Decimal { atomics: 0 }
    }

    /// `x` hundredths.
    pub fn percent(x: u64) -> (d: Decimal)
        ensures
            d.atomics == x * 10_000_000_000_000_000,
    {
        let x: u128 = x as u128;
        Decimal { atomics: x * 10_000_000_000_000_000 }
    }

    /// Whether the number is zero.
    pub fn is_zero(&self) -> (b: bool)
        ensures
            b == (self.atomics == 0),
    {
        self.atomics == 0
    }

    /// The part of `amount` that this number stands for, as a mathematical
    /// value: `amount` times this number, rounded down.
    pub open spec fn part_of(self, amount: u128) -> int {
        ratio_of(amount, self.atomics, DECIMAL_FRACTIONAL)
    }

    /// `numerator` by `denominator` as such a number, rounded down to 18
    /// places.
    pub fn from_ratio(numerator: u128, denominator: u128) -> (d: Decimal)
        requires
            denominator != 0,
            ratio_of(numerator, DECIMAL_FRACTIONAL, denominator) <= u128::MAX,
        ensures
            d.atomics == ratio_of(numerator, DECIMAL_FRACTIONAL, denominator),
    {
        Decimal { atomics: multiply_ratio(numerator, DECIMAL_FRACTIONAL, denominator) }
    }

    /// `amount` times this number, rounded down.
    pub fn mul_amount(&self, amount: u128) -> (part: u128)
        requires
            self.part_of(amount) <= u128::MAX,
        ensures
            part == self.part_of(amount),
    {
        if amount == 0 || self.atomics == 0 {
            assert(self.part_of(amount) == 0) by (nonlinear_arith)
                requires
                    amount == 0 || self.atomics == 0,
                    self.part_of(amount) == amount * self.atomics / (DECIMAL_FRACTIONAL as int),
            ;
            return 0;
        }
        multiply_ratio(amount, self.atomics, DECIMAL_FRACTIONAL)
    }
}

/// A part of an amount by a number of at most one is at most the amount.
pub proof fn lemma_part_at_most_all(rate: Decimal, amount: u128)
    requires
        rate.atomics <= DECIMAL_FRACTIONAL,
    ensures
        0 <= rate.part_of(amount) <= amount,
{
    assert(0 <= amount * rate.atomics / (DECIMAL_FRACTIONAL as int) <= amount)
        by (nonlinear_arith)
        requires
            0 <= rate.atomics <= DECIMAL_FRACTIONAL,
            DECIMAL_FRACTIONAL == 1_000_000_000_000_000_000,
            0 <= amount,
    ;
}

} // verus!
