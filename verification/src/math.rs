//! Fixed-point ratios with 18 fractional digits.

use vstd::prelude::*;
use vstd::arithmetic::div_mod::lemma_hoist_over_denominator;

verus! {

/// The number of atomic units in 1.0.
pub const DECIMAL_FRACTIONAL: u128 = 1_000_000_000_000_000_000;

/// A non-negative fixed-point number: `atomics / 10^18`.
#[derive(Clone, Copy, Debug, PartialEq, Eq, Structural)]
pub struct Decimal {
    pub atomics: u128,
}

/// `floor(numerator / denominator)` expressed in atomic units.
pub open spec fn ratio_atomics(numerator: int, denominator: int) -> int
    recommends
        denominator > 0,
{
    numerator * DECIMAL_FRACTIONAL as int / denominator
}

/// `floor(amount * atomics / 10^18)`: an integer amount scaled by a ratio.
pub open spec fn scale_floor(amount: int, atomics: int) -> int {
    amount * atomics / DECIMAL_FRACTIONAL as int
}

/// `floor(value * numerator / denominator)`: the share `numerator /
/// denominator` of an integer amount.
pub open spec fn share_floor(value: int, numerator: int, denominator: int) -> int
    recommends
        denominator > 0,
{
    value * numerator / denominator
}

/// Calls `cosmwasm_std::Uint128::multiply_ratio`, which multiplies in 256
/// bits, divides, and panics when the denominator is zero or the quotient
/// does not fit in 128 bits; both are excluded here.
#[verifier::external_body]
pub(crate) fn multiply_ratio(value: u128, numerator: u128, denominator: u128) -> (share: u128)
    requires
        denominator != 0,
        share_floor(value as int, numerator as int, denominator as int) <= u128::MAX,
    ensures
        share == share_floor(value as int, numerator as int, denominator as int),
{
    cosmwasm_std::Uint128::new(value).multiply_ratio(numerator, denominator).u128()
}

/// A share of at most the whole is at most the amount, and shares of two
/// parts add up to no more than the share of their sum.
pub proof fn lemma_share_bounds(value: int, part: int, other: int, whole: int)
    requires
        0 <= value,
        0 <= part,
        0 <= other,
        0 < whole,
    ensures
        0 <= share_floor(value, part, whole),
        part <= whole ==> share_floor(value, part, whole) <= value,
        share_floor(value, part, whole) + share_floor(value, other, whole) <= share_floor(
            value,
            part + other,
            whole,
        ),
        other == 0 ==> share_floor(value, other, whole) == 0,
{
    let x = value * part;
    let y = value * other;
    assert(0 <= x && 0 <= y && value * (part + other) == x + y) by (nonlinear_arith)
        requires
            0 <= value,
            0 <= part,
            0 <= other,
            x == value * part,
            y == value * other,
    ;
    assert(0 <= x / whole && x / whole + y / whole <= (x + y) / whole) by (nonlinear_arith)
        requires
            0 <= x,
            0 <= y,
            0 < whole,
    ;
    if part <= whole {
        assert(x <= value * whole) by (nonlinear_arith)
            requires
                0 <= value,
                part <= whole,
                x == value * part,
        ;
        assert(x / whole <= value) by (nonlinear_arith)
            requires
                x <= value * whole,
                0 < whole,
        ;
    }
    if other == 0 {
        assert(y == 0) by (nonlinear_arith)
            requires
                y == value * other,
                other == 0,
        ;
    }
}

/// Scaling yields nothing negative, and nothing at all for an amount or a
/// ratio of zero.
pub proof fn lemma_scale_bounds(amount: int, atomics: int)
    requires
        0 <= amount,
        0 <= atomics,
    ensures
        0 <= scale_floor(amount, atomics),
        amount == 0 || atomics == 0 ==> scale_floor(amount, atomics) == 0,
{
    assert(0 <= amount * atomics) by (nonlinear_arith)
        requires
            0 <= amount,
            0 <= atomics,
    ;
    if amount == 0 || atomics == 0 {
        assert(amount * atomics == 0) by (nonlinear_arith)
            requires
                amount == 0 || atomics == 0,
        ;
    }
}

/// Calls `cosmwasm_std::Decimal::from_ratio` and reads the atomic units of the
/// result through `Fraction::numerator`. The outside function multiplies in
/// 256 bits, divides, and panics when the denominator is zero or the quotient
/// does not fit in 128 bits; both are excluded here.
#[verifier::external_body]
fn decimal_from_ratio(numerator: u128, denominator: u128) -> (atomics: u128)
    requires
        denominator != 0,
        ratio_atomics(numerator as int, denominator as int) <= u128::MAX,
    ensures
        atomics == ratio_atomics(numerator as int, denominator as int),
{
    let ratio = cosmwasm_std::Decimal::from_ratio(numerator, denominator);
    cosmwasm_std::Fraction::numerator(&ratio)
}

/// Calls `Uint128 * Decimal` of `cosmwasm_std`, which yields
/// `floor(amount * atomics / 10^18)` and panics when that does not fit in 128
/// bits. The ratio is rebuilt from its atomic units as `atomics / 1.0`.
#[verifier::external_body]
fn uint128_mul_decimal(amount: u128, atomics: u128) -> (product: u128)
    requires
        scale_floor(amount as int, atomics as int) <= u128::MAX,
    ensures
        product == scale_floor(amount as int, atomics as int),
{
    let one = cosmwasm_std::Fraction::numerator(&cosmwasm_std::Decimal::one());
    let ratio = cosmwasm_std::Decimal::from_ratio(atomics, one);
    (cosmwasm_std::Uint128::new(amount) * ratio).u128()
}

/// Splitting the numerator into whole multiples of the denominator and a rest
/// leaves the ratio unchanged.
pub proof fn lemma_ratio_split(numerator: int, denominator: int)
    requires
        0 <= numerator,
        0 < denominator,
    ensures
        ratio_atomics(numerator, denominator) == (numerator / denominator)
            * DECIMAL_FRACTIONAL as int + ratio_atomics(numerator % denominator, denominator),
        0 <= ratio_atomics(numerator % denominator, denominator) < DECIMAL_FRACTIONAL as int,
{
    let f = DECIMAL_FRACTIONAL as int;
    let q = numerator / denominator;
    let r = numerator % denominator;
    assert(numerator == q * denominator + r) by (nonlinear_arith)
        requires
            q == numerator / denominator,
            r == numerator % denominator,
            denominator > 0,
    ;
    assert(numerator * f == r * f + (q * f) * denominator) by (nonlinear_arith)
        requires
            numerator == q * denominator + r,
    ;
    lemma_hoist_over_denominator(r * f, q * f, denominator as nat);
    assert(0 <= r * f / denominator < f) by (nonlinear_arith)
        requires
            0 <= r < denominator,
            f > 0,
    ;
}

/// Splitting the ratio into its whole and fractional part leaves the scaled
/// amount unchanged.
pub proof fn lemma_scale_split(amount: int, atomics: int)
    requires
        0 <= amount,
        0 <= atomics,
    ensures
        scale_floor(amount, atomics) == amount * (atomics / DECIMAL_FRACTIONAL as int)
            + scale_floor(amount, atomics % DECIMAL_FRACTIONAL as int),
        0 <= scale_floor(amount, atomics % DECIMAL_FRACTIONAL as int) <= amount,
        0 <= amount * (atomics / DECIMAL_FRACTIONAL as int),
{
    let f = DECIMAL_FRACTIONAL as int;
    let q = atomics / f;
    let r = atomics % f;
    assert(amount * atomics == amount * r + (amount * q) * f) by (nonlinear_arith)
        requires
            atomics == q * f + r,
    ;
    lemma_hoist_over_denominator(amount * r, amount * q, f as nat);
    assert(0 <= amount * r / f <= amount) by (nonlinear_arith)
        requires
            0 <= r < f,
            0 <= amount,
    ;
    assert(0 <= amount * q) by (nonlinear_arith)
        requires
            0 <= amount,
            0 <= q,
    ;
}

impl Decimal {
    /// The ratio 0.
    pub fn zero() -> (res: Decimal)
        ensures
            res.atomics == 0,
    {
        Decimal { atomics: 0 }
    }

    /// The ratio `numerator / denominator`, rounded down to 18 fractional
    /// digits; `None` when the denominator is zero or the ratio is too large.
    pub fn checked_from_ratio(numerator: u128, denominator: u128) -> (res: Option<Decimal>)
        ensures
            res == if denominator != 0 && ratio_atomics(numerator as int, denominator as int)
                <= u128::MAX {
                Some(Decimal { atomics: ratio_atomics(numerator as int, denominator as int) as u128 })
            } else {
                None
            },
    {
        if denominator == 0 {
            return None;
        }
        let whole: u128 = numerator / denominator;
        let rest: u128 = numerator % denominator;
        proof {
            lemma_ratio_split(numerator as int, denominator as int);
        }
        let fraction: u128 = decimal_from_ratio(rest, denominator);
        match whole.checked_mul(DECIMAL_FRACTIONAL) {
            Some(scaled) => match scaled.checked_add(fraction) {
                Some(atomics) => Some(Decimal { atomics }),
                None => None,
            },
            None => None,
        }
    }

    /// The sum of two ratios; `None` when it is too large.
    pub fn checked_add(self, other: Decimal) -> (res: Option<Decimal>)
        ensures
            res == if self.atomics + other.atomics <= u128::MAX {
                Some(Decimal { atomics: (self.atomics + other.atomics) as u128 })
            } else {
                None
            },
    {
        match self.atomics.checked_add(other.atomics) {
            Some(atomics) => Some(Decimal { atomics }),
            None => None,
        }
    }

    /// `amount` scaled by this ratio and rounded down; `None` when the result
    /// is too large.
    pub fn checked_scale(self, amount: u128) -> (res: Option<u128>)
        ensures
            res == if scale_floor(amount as int, self.atomics as int) <= u128::MAX {
                Some(scale_floor(amount as int, self.atomics as int) as u128)
            } else {
                None
            },
    {
        let whole: u128 = self.atomics / DECIMAL_FRACTIONAL;
        let rest: u128 = self.atomics % DECIMAL_FRACTIONAL;
        proof {
            lemma_scale_split(amount as int, self.atomics as int);
        }
        let fraction: u128 = uint128_mul_decimal(amount, rest);
        match amount.checked_mul(whole) {
            Some(scaled) => scaled.checked_add(fraction),
            None => None,
        }
    }
}

} // verus!
