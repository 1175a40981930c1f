//! Fixed-point fractions with eighteen decimal places.
//!
//! A [`Decimal`] stands for the rational number `atomics / 10^18`. The two
//! operations that need a 256-bit intermediate product, taking a fraction of
//! an integer and forming the ratio of two integers, are carried out by
//! `cosmwasm_std`; everything else is plain integer arithmetic.

use vstd::prelude::*;

verus! {

/// The number of atomic units in the fraction 1.0.
pub const DECIMAL_ONE: u128 = 1_000_000_000_000_000_000;

/// Atomic units in one percent.
pub const PERCENT: u128 = 10_000_000_000_000_000;

/// Atomic units in one permille.
pub const PERMILLE: u128 = 1_000_000_000_000_000;

/// A non-negative fixed-point number: `atomics / 10^18`.
#[derive(Clone, Copy, Debug, PartialEq, Eq, Structural)]
pub struct Decimal {
    pub atomics: u128,
}

/// `amount * atomics / 10^18` rounded up to an integer: the quotient, and one
/// more where the division leaves a remainder.
pub open spec fn scaled_up(atomics: int, amount: int) -> int {
    if amount * atomics % (DECIMAL_ONE as int) == 0 {
        amount * atomics / (DECIMAL_ONE as int)
    } else {
        amount * atomics / (DECIMAL_ONE as int) + 1
    }
}

/// The atomic units of the fraction `numerator / denominator`, rounded down.
pub open spec fn ratio(numerator: int, denominator: int) -> int {
    numerator * (DECIMAL_ONE as int) / denominator
}

/// `Uint128::mul_ceil` of cosmwasm_std with a `Decimal` as the fraction: the
/// product of an integer and a fraction, given by its atomic units, rounded
/// up to an integer. The outside function panics when the result does not
/// fit 128 bits, so such operands are excluded.
#[verifier::external_body]
fn decimal_times_up(atomics: u128, amount: u128) -> (r: u128)
    requires
        scaled_up(atomics as int, amount as int) <= u128::MAX,
    ensures
        r as int == scaled_up(atomics as int, amount as int),
{
    cosmwasm_std::Uint128::new(amount).mul_ceil(cosmwasm_std::Decimal::raw(atomics)).u128()
}

/// `Decimal::checked_from_ratio` of cosmwasm_std: the fraction
/// `numerator / denominator` in atomic units, rounded down. The outside
/// function reports a zero denominator and a result beyond 128 bits as
/// errors; both come back as `None`.
#[verifier::external_body]
fn decimal_ratio(numerator: u128, denominator: u128) -> (r: Option<u128>)
    ensures
        match r {
            Some(a) => denominator > 0 && a as int == ratio(numerator as int, denominator as int),
            None => denominator == 0 || ratio(numerator as int, denominator as int) > u128::MAX,
        },
{
    match cosmwasm_std::Decimal::checked_from_ratio(numerator, denominator) {
        Ok(d) => Some(d.atomics().u128()),
        Err(_) => None,
    }
}

impl Decimal {
    /// The fraction 0.
    pub fn zero() -> (r: Decimal)
        ensures
            r.atomics == 0,
    {
        Decimal { atomics: 0 }
    }

    /// The fraction 1.
    pub fn one() -> (r: Decimal)
        ensures
            r.atomics == DECIMAL_ONE,
    {
        Decimal { atomics: DECIMAL_ONE }
    }

    /// `x` hundredths.
    pub fn percent(x: u64) -> (r: Decimal)
        ensures
            r.atomics == x * PERCENT,
    {
        let wide: u128 = x as u128;
        Decimal { atomics: wide * PERCENT }
    }

    /// `x` thousandths.
    pub fn permille(x: u64) -> (r: Decimal)
        ensures
            r.atomics == x * PERMILLE,
    {
        let wide: u128 = x as u128;
        Decimal { atomics: wide * PERMILLE }
    }

    /// Whether this is the fraction 0.
    pub fn is_zero(&self) -> (r: bool)
        ensures
            r == (self.atomics == 0),
    {
        self.atomics == 0
    }

    /// The fraction `numerator / denominator`, rounded down to eighteen
    /// places, or `None` when the denominator is zero or the fraction is too
    /// large to represent.
    pub fn checked_from_ratio(numerator: u128, denominator: u128) -> (r: Option<Decimal>)
        ensures
            match r {
                Some(d) => denominator > 0 && d.atomics as int == ratio(
                    numerator as int,
                    denominator as int,
                ),
                None => denominator == 0 || ratio(numerator as int, denominator as int)
                    > u128::MAX,
            },
    {
        match decimal_ratio(numerator, denominator) {
            Some(atomics) => Some(Decimal { atomics }),
            None => None,
        }
    }

    /// The fraction `numerator / denominator`, rounded down to eighteen
    /// places.
    pub fn from_ratio(numerator: u128, denominator: u128) -> (r: Decimal)
        requires
            denominator > 0,
            ratio(numerator as int, denominator as int) <= u128::MAX,
        ensures
            r.atomics as int == ratio(numerator as int, denominator as int),
    {
        match decimal_ratio(numerator, denominator) {
            Some(atomics) => Decimal { atomics },
            None => Decimal { atomics: 0 },
        }
    }

    /// This fraction of `amount`, rounded up: the least integer that is not
    /// less than the exact product.
    pub fn mul_ceil(&self, amount: u128) -> (r: u128)
        requires
            scaled_up(self.atomics as int, amount as int) <= u128::MAX,
        ensures
            r as int == scaled_up(self.atomics as int, amount as int),
            r * DECIMAL_ONE >= amount * self.atomics,
            (r - 1) * DECIMAL_ONE < amount * self.atomics,
    {
        proof {
            lemma_scaled_up_is_ceiling(self.atomics as int, amount as int);
        }
        decimal_times_up(self.atomics, amount)
    }
}

/// Rounding up gives the least integer that is not less than the exact
/// product `amount * atomics / 10^18`.
pub proof fn lemma_scaled_up_is_ceiling(atomics: int, amount: int)
    requires
        0 <= atomics,
        0 <= amount,
    ensures
        scaled_up(atomics, amount) * DECIMAL_ONE >= amount * atomics,
        (scaled_up(atomics, amount) - 1) * DECIMAL_ONE < amount * atomics,
        0 <= scaled_up(atomics, amount),
        scaled_up(atomics, amount) == 0 <==> amount * atomics == 0,
{
    let one = DECIMAL_ONE as int;
    let product = amount * atomics;
    assert(0 <= product) by (nonlinear_arith)
        requires
            0 <= atomics,
            0 <= amount,
            product == amount * atomics,
    ;
    vstd::arithmetic::div_mod::lemma_fundamental_div_mod(product, one);
    vstd::arithmetic::div_mod::lemma_mod_bound(product, one);
    vstd::arithmetic::div_mod::lemma_div_pos_is_pos(product, one);
}

/// An integer that, scaled by `10^18`, is not less than the exact product is
/// not less than the product rounded up.
pub proof fn lemma_scaled_up_is_least(atomics: int, amount: int, n: int)
    requires
        0 <= atomics,
        0 <= amount,
        n * DECIMAL_ONE >= amount * atomics,
    ensures
        scaled_up(atomics, amount) <= n,
{
    lemma_scaled_up_is_ceiling(atomics, amount);
    let one = DECIMAL_ONE as int;
    let c = scaled_up(atomics, amount);
    if n < c {
        assert(n * one <= (c - 1) * one) by (nonlinear_arith)
            requires
                n <= c - 1,
                one > 0,
        ;
    }
}

/// A fraction of at most one never enlarges the amount it is taken of.
pub proof fn lemma_scaled_up_bounded(atomics: int, amount: int)
    requires
        0 <= atomics <= DECIMAL_ONE,
        0 <= amount,
    ensures
        0 <= scaled_up(atomics, amount) <= amount,
{
    lemma_scaled_up_is_ceiling(atomics, amount);
    assert(amount * (DECIMAL_ONE as int) >= amount * atomics) by (nonlinear_arith)
        requires
            0 <= atomics <= DECIMAL_ONE,
            0 <= amount,
    ;
    lemma_scaled_up_is_least(atomics, amount, amount);
}

/// Rounding up is monotone in the amount.
pub proof fn lemma_scaled_up_monotone(atomics: int, smaller: int, larger: int)
    requires
        0 <= atomics,
        0 <= smaller <= larger,
    ensures
        scaled_up(atomics, smaller) <= scaled_up(atomics, larger),
{
    lemma_scaled_up_is_ceiling(atomics, larger);
    assert(smaller * atomics <= larger * atomics) by (nonlinear_arith)
        requires
            0 <= atomics,
            0 <= smaller <= larger,
    ;
    lemma_scaled_up_is_least(atomics, smaller, scaled_up(atomics, larger));
}

} // verus!
