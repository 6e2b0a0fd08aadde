//! Rounding binary64 arithmetic on bit patterns.
//!
//! The engine never performs floating-point arithmetic itself: every
//! operation is delegated to a software implementation of IEEE-754 binary64
//! arithmetic that works on bit patterns held in integers.  Each operation is
//! a pure function of its argument patterns, so its result is given a name
//! (an uninterpreted spec function), and a small trusted wrapper states that
//! the call returns that named result.  All contracts of the numeric code in
//! this crate are exact relative to these names.

use vstd::prelude::*;

verus! {

/// The correctly rounded (round-to-nearest, ties-to-even) sum of the two
/// binary64 values encoded by `a` and `b`.
pub uninterp spec fn fadd(a: u64, b: u64) -> u64;

/// The correctly rounded difference of the encoded values.
pub uninterp spec fn fsub(a: u64, b: u64) -> u64;

/// The correctly rounded product of the encoded values.
pub uninterp spec fn fmul(a: u64, b: u64) -> u64;

/// The correctly rounded quotient of the encoded values.
pub uninterp spec fn fdiv(a: u64, b: u64) -> u64;

/// The correctly rounded square root of the encoded value.
pub uninterp spec fn fsqrt(a: u64) -> u64;

/// The encoded value rounded to the nearest integral value, ties away from
/// zero (the rounding used by `round` in the C math library).
pub uninterp spec fn fround(a: u64) -> u64;

/// The encoded value raised to the integer power `n` by binary
/// exponentiation with intermediate rounding.
pub uninterp spec fn fpowi(a: u64, n: i32) -> u64;

/// The binary64 value nearest to the unsigned integer `n` (ties to even).
pub uninterp spec fn ffrom_uint(n: u64) -> u64;

/// Relies on `const_soft_float::soft_f64::SoftF64::add`, the software port of
/// IEEE-754 binary64 addition: the result depends on the bit patterns alone.
#[verifier::external_body]
pub fn add_bits(a: u64, b: u64) -> (r: u64)
    ensures
        r == fadd(a, b),
{
    const_soft_float::soft_f64::SoftF64::from_bits(a).add(
        const_soft_float::soft_f64::SoftF64::from_bits(b),
    ).to_bits()
}

/// Relies on `const_soft_float::soft_f64::SoftF64::sub` (addition of the
/// negated operand, as IEEE-754 defines subtraction): a function of the bit
/// patterns alone.
#[verifier::external_body]
pub fn sub_bits(a: u64, b: u64) -> (r: u64)
    ensures
        r == fsub(a, b),
{
    const_soft_float::soft_f64::SoftF64::from_bits(a).sub(
        const_soft_float::soft_f64::SoftF64::from_bits(b),
    ).to_bits()
}

/// Relies on `const_soft_float::soft_f64::SoftF64::mul`, the software port of
/// IEEE-754 binary64 multiplication: a function of the bit patterns alone.
#[verifier::external_body]
pub fn mul_bits(a: u64, b: u64) -> (r: u64)
    ensures
        r == fmul(a, b),
{
    const_soft_float::soft_f64::SoftF64::from_bits(a).mul(
        const_soft_float::soft_f64::SoftF64::from_bits(b),
    ).to_bits()
}

/// Relies on `const_soft_float::soft_f64::SoftF64::div`, the software port of
/// IEEE-754 binary64 division: a function of the bit patterns alone.
#[verifier::external_body]
pub fn div_bits(a: u64, b: u64) -> (r: u64)
    ensures
        r == fdiv(a, b),
{
    const_soft_float::soft_f64::SoftF64::from_bits(a).div(
        const_soft_float::soft_f64::SoftF64::from_bits(b),
    ).to_bits()
}

/// Relies on `const_soft_float::soft_f64::SoftF64::sqrt`, the correctly
/// rounded binary64 square root: a function of the bit pattern alone.
#[verifier::external_body]
pub fn sqrt_bits(a: u64) -> (r: u64)
    ensures
        r == fsqrt(a),
{
    const_soft_float::soft_f64::SoftF64::from_bits(a).sqrt().to_bits()
}

/// Relies on `const_soft_float::soft_f64::SoftF64::round` (round to nearest
/// integral value, ties away from zero): a function of the bit pattern alone.
#[verifier::external_body]
pub fn round_bits(a: u64) -> (r: u64)
    ensures
        r == fround(a),
{
    const_soft_float::soft_f64::SoftF64::from_bits(a).round().to_bits()
}

/// Relies on `const_soft_float::soft_f64::SoftF64::powi` (integer powers by
/// binary exponentiation): a function of the bit pattern and exponent alone.
#[verifier::external_body]
pub fn powi_bits(a: u64, n: i32) -> (r: u64)
    ensures
        r == fpowi(a, n),
{
    const_soft_float::soft_f64::SoftF64::from_bits(a).powi(n).to_bits()
}

/// Relies on `rustc_apfloat::ieee::Double::from_u128` (conversion from an
/// unsigned integer, round-to-nearest-ties-to-even): a function of the
/// integer alone.
#[verifier::external_body]
pub fn uint_bits(n: u64) -> (r: u64)
    ensures
        r == ffrom_uint(n),
{
    let d = <rustc_apfloat::ieee::Double as rustc_apfloat::Float>::from_u128(n as u128).value;
    rustc_apfloat::Float::to_bits(d) as u64
}

} // verus!
