//! Checked fixed-point arithmetic on `u128` amounts, rates and indices.
//!
//! Every operation states its result as the exact mathematical value and
//! reports an error when that value leaves the `u128` range; products are
//! taken at 256 bits, so an intermediate never overflows on its own.

use crate::wide::{lemma_product_fits_wide, two128, wide_mul, Wide};
use vstd::arithmetic::div_mod::{lemma_div_is_ordered, lemma_div_multiples_vanish};
use vstd::prelude::*;

verus! {

/// Scale of coefficients and shares.
pub const E6: u128 = 1_000_000;

/// Scale of prices.
pub const E8: u128 = 100_000_000;

/// Scale of cumulative indices.
pub const E18: u128 = 1_000_000_000_000_000_000;

/// Scale of interest rates.
pub const E24: u128 = 1_000_000_000_000_000_000_000_000;

/// Why a fixed-point computation has no result.
#[derive(Clone, Copy, Debug, PartialEq, Eq, Structural)]
pub enum MathError {
    /// The exact value is above `u128::MAX`.
    Overflow,
    /// The exact value is below zero.
    Underflow,
    /// The divisor is zero.
    DivByZero,
}

/// The value `x` as a `u128`, or the error that says on which side it left
/// the range.
pub open spec fn checked(x: int) -> Result<u128, MathError> {
    if x < 0 {
        Err(MathError::Underflow)
    } else if x > u128::MAX {
        Err(MathError::Overflow)
    } else {
        Ok(x as u128)
    }
}

/// `floor(a * b / d)`.
pub open spec fn mul_div_spec(a: int, b: int, d: int) -> Result<u128, MathError> {
    if d == 0 {
        Err(MathError::DivByZero)
    } else {
        checked(a * b / d)
    }
}

/// `floor((a * b + c * e) / d)`.
pub open spec fn mul_add_mul_div_spec(a: int, b: int, c: int, e: int, d: int) -> Result<
    u128,
    MathError,
> {
    if d == 0 {
        Err(MathError::DivByZero)
    } else {
        checked((a * b + c * e) / d)
    }
}

/// `floor((a * b - c * e) / d)`, an underflow when the difference is negative.
pub open spec fn mul_sub_mul_div_spec(a: int, b: int, c: int, e: int, d: int) -> Result<
    u128,
    MathError,
> {
    if d == 0 {
        Err(MathError::DivByZero)
    } else if a * b < c * e {
        Err(MathError::Underflow)
    } else {
        checked((a * b - c * e) / d)
    }
}

/// `a + b`, checked.
pub fn checked_sum(a: u128, b: u128) -> (r: Result<u128, MathError>)
    ensures
        r == checked(a + b),
{
    match a.checked_add(b) {
        Some(v) => Ok(v),
        None => Err(MathError::Overflow),
    }
}

/// `a - b`, checked.
pub fn checked_diff(a: u128, b: u128) -> (r: Result<u128, MathError>)
    ensures
        r == checked(a - b),
{
    match a.checked_sub(b) {
        Some(v) => Ok(v),
        None => Err(MathError::Underflow),
    }
}

/// `a * b`, checked.
pub fn checked_product(a: u128, b: u128) -> (r: Result<u128, MathError>)
    ensures
        r == checked(a * b),
{
    proof {
        lemma_product_fits_wide(a as int, b as int);
    }
    match a.checked_mul(b) {
        Some(v) => Ok(v),
        None => Err(MathError::Overflow),
    }
}

proof fn lemma_quotient_of_wide_overflow(n: int, d: int)
    requires
        n >= two128() * two128(),
        0 < d <= u128::MAX,
    ensures
        n / d > u128::MAX,
{
    assert(d * two128() <= n) by (nonlinear_arith)
        requires
            n >= two128() * two128(),
            0 < d <= two128(),
    ;
    lemma_div_is_ordered(d * two128(), n, d);
    lemma_div_multiples_vanish(two128(), d);
}

fn narrow_quotient(n: &Wide, d: u128) -> (r: Result<u128, MathError>)
    requires
        d > 0,
        n@ >= 0,
    ensures
        r == checked(n@ / (d as int)),
{
    let (q, _) = n.div_rem(d);
    proof {
        vstd::arithmetic::div_mod::lemma_div_pos_is_pos(n@, d as int);
    }
    match q.to_u128() {
        Some(v) => Ok(v),
        None => Err(MathError::Overflow),
    }
}

/// `floor(a * b / d)` with a 256-bit product.
pub fn mul_div(a: u128, b: u128, d: u128) -> (r: Result<u128, MathError>)
    ensures
        r == mul_div_spec(a as int, b as int, d as int),
{
    if d == 0 {
        return Err(MathError::DivByZero);
    }
    let n = wide_mul(a, b);
    proof {
        lemma_product_fits_wide(a as int, b as int);
    }
    narrow_quotient(&n, d)
}

/// `floor((a * b + c * e) / d)` with 256-bit products.
pub fn mul_add_mul_div(a: u128, b: u128, c: u128, e: u128, d: u128) -> (r: Result<
    u128,
    MathError,
>)
    ensures
        r == mul_add_mul_div_spec(a as int, b as int, c as int, e as int, d as int),
{
    if d == 0 {
        return Err(MathError::DivByZero);
    }
    let x = wide_mul(a, b);
    let y = wide_mul(c, e);
    proof {
        lemma_product_fits_wide(a as int, b as int);
        lemma_product_fits_wide(c as int, e as int);
    }
    match x.checked_add(&y) {
        Some(n) => narrow_quotient(&n, d),
        None => {
            proof {
                lemma_quotient_of_wide_overflow(a * b + c * e, d as int);
            }
            Err(MathError::Overflow)
        },
    }
}

/// `floor((a * b - c * e) / d)` with 256-bit products.
pub fn mul_sub_mul_div(a: u128, b: u128, c: u128, e: u128, d: u128) -> (r: Result<
    u128,
    MathError,
>)
    ensures
        r == mul_sub_mul_div_spec(a as int, b as int, c as int, e as int, d as int),
{
    if d == 0 {
        return Err(MathError::DivByZero);
    }
    let x = wide_mul(a, b);
    let y = wide_mul(c, e);
    match x.checked_sub(&y) {
        Some(n) => narrow_quotient(&n, d),
        None => Err(MathError::Underflow),
    }
}

} // verus!
