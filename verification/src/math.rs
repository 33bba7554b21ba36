//! Fixed-point amounts and ratios.
//!
//! Token amounts are `u128` (the chain's `Uint128`); fractions are `Decimal`,
//! a fixed-point number with 18 decimal places whose value is `atomics / 10^18`.
use vstd::prelude::*;

verus! {

/// Number of atomics in one whole `Decimal` (10^18).
pub const DECIMAL_FRACTIONAL: u128 = 1_000_000_000_000_000_000u128;

/// A fixed-point fraction with 18 decimal places.
#[derive(Debug, Clone, Copy, PartialEq, Eq, Structural, PartialOrd, Ord, Hash, Default)]
pub struct Decimal {
    pub atomics: u128,
}

/// Why `amount * numerator / denominator` could not be computed.
#[derive(Debug, Clone, Copy, PartialEq, Eq, Structural)]
pub enum RatioError {
    DivideByZero,
    Overflow,
}

/// The exact value of `amount * numerator / denominator`, rounded down.
pub open spec fn ratio_floor(amount: int, numerator: int, denominator: int) -> int {
    (amount * numerator) / denominator
}

/// What `checked_multiply_ratio` gives back for the three operands.
pub open spec fn multiply_ratio_result(amount: u128, numerator: u128, denominator: u128) -> Result<
    u128,
    RatioError,
> {
    if denominator == 0 {
        Err(RatioError::DivideByZero)
    } else if ratio_floor(amount as int, numerator as int, denominator as int) > u128::MAX {
        Err(RatioError::Overflow)
    } else {
        Ok(ratio_floor(amount as int, numerator as int, denominator as int) as u128)
    }
}

/// `Uint128::checked_multiply_ratio` of cosmwasm-std: `amount * numerator / denominator`
/// computed in 256 bits and rounded down. Its source returns `DivideByZero` for a zero
/// denominator and `Overflow` when the quotient does not fit in 128 bits; this contract
/// states exactly that.
#[verifier::external_body]
pub fn checked_multiply_ratio(amount: u128, numerator: u128, denominator: u128) -> (r: Result<
    u128,
    RatioError,
>)
    ensures
        r == multiply_ratio_result(amount, numerator, denominator),
{
    match cosmwasm_std::Uint128::new(amount).checked_multiply_ratio(numerator, denominator) {
        Ok(v) => Ok(v.u128()),
        Err(cosmwasm_std::CheckedMultiplyRatioError::DivideByZero) => Err(RatioError::DivideByZero),
        Err(cosmwasm_std::CheckedMultiplyRatioError::Overflow) => Err(RatioError::Overflow),
    }
}

/// `amount * d`, rounded down, as a mathematical integer.
pub open spec fn mul_floor_spec(amount: u128, d: Decimal) -> int {
    ratio_floor(amount as int, d.atomics as int, DECIMAL_FRACTIONAL as int)
}

pub proof fn lemma_ratio_floor_bounds(a: int, n: int, d: int)
    requires
        a >= 0,
        0 <= n <= d,
        d > 0,
    ensures
        0 <= ratio_floor(a, n, d) <= a,
{
    assert(0 <= a * n <= a * d) by (nonlinear_arith)
        requires
            a >= 0,
            0 <= n <= d,
    ;
    assert(0 <= (a * n) / d <= (a * d) / d) by (nonlinear_arith)
        requires
            0 <= a * n <= a * d,
            d > 0,
    ;
    assert((a * d) / d == a) by (nonlinear_arith)
        requires
            d > 0,
    ;
}

/// Rounding down of a product never gives more than the product of the parts.
pub proof fn lemma_ratio_floor_monotonic(a: int, b: int, n: int, d: int)
    requires
        0 <= a <= b,
        n >= 0,
        d > 0,
    ensures
        ratio_floor(a, n, d) <= ratio_floor(b, n, d),
{
    assert(a * n <= b * n) by (nonlinear_arith)
        requires
            0 <= a <= b,
            n >= 0,
    ;
    assert((a * n) / d <= (b * n) / d) by (nonlinear_arith)
        requires
            a * n <= b * n,
            d > 0,
    ;
}

impl Decimal {
    /// `x` percent.
    pub fn percent(x: u64) -> (d: Decimal)
        ensures
            d.atomics == x * 10_000_000_000_000_000,
    {
        Decimal { atomics: (x as u128) * 10_000_000_000_000_000u128 }
    }

    pub fn zero() -> (d: Decimal)
        ensures
            d.atomics == 0,
    {
        Decimal { atomics: 0 }
    }

    pub fn one() -> (d: Decimal)
        ensures
            d.atomics == DECIMAL_FRACTIONAL,
    {
        Decimal { atomics: DECIMAL_FRACTIONAL }
    }

    pub fn is_zero(&self) -> (b: bool)
        ensures
            b == (self.atomics == 0),
    {
        self.atomics == 0
    }
}

/// `amount * d` rounded down, failing when the result does not fit in 128 bits
/// (`checked_mul` of the contract's math helpers).
pub fn checked_mul(amount: u128, d: Decimal) -> (r: Result<u128, RatioError>)
    ensures
        r is Ok <==> mul_floor_spec(amount, d) <= u128::MAX,
        r matches Ok(v) ==> v == mul_floor_spec(amount, d),
        r matches Err(e) ==> e == RatioError::Overflow,
{
    checked_multiply_ratio(amount, d.atomics, DECIMAL_FRACTIONAL)
}

/// `amount * d` rounded down for a fraction no larger than one; never fails.
pub fn mul_fraction(amount: u128, d: Decimal) -> (r: u128)
    requires
        d.atomics <= DECIMAL_FRACTIONAL,
    ensures
        r == mul_floor_spec(amount, d),
        r <= amount,
{
    proof {
        lemma_ratio_floor_bounds(amount as int, d.atomics as int, DECIMAL_FRACTIONAL as int);
    }
    match checked_multiply_ratio(amount, d.atomics, DECIMAL_FRACTIONAL) {
        Ok(v) => v,
        Err(_) => 0,
    }
}

} // verus!
