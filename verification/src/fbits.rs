//! Comparisons and classification of IEEE-754 binary64 values, carried out
//! directly on their bit patterns.
//!
//! Every matrix entry in this crate is the bit pattern of a binary64 value,
//! held in a `u64`.  Equality and ordering of the encoded values are pure
//! functions of the bit patterns, so they are defined here as ordinary
//! integer logic and verified: no floating-point instruction is involved.

use vstd::prelude::*;

verus! {

/// Bit pattern of +0.0.
pub const POS_ZERO: u64 = 0;
/// Bit pattern of -0.0 (only the sign bit set).
pub const NEG_ZERO: u64 = 0x8000_0000_0000_0000;
/// Bit pattern of 1.0.
pub const ONE_BITS: u64 = 0x3ff0_0000_0000_0000;
/// Bit pattern of -1.0.
pub const NEG_ONE_BITS: u64 = 0xbff0_0000_0000_0000;
/// Bit pattern of 0.5.
pub const HALF_BITS: u64 = 0x3fe0_0000_0000_0000;
/// Bit pattern of 10.0.
pub const TEN_BITS: u64 = 0x4024_0000_0000_0000;

/// Sign bit of a binary64 bit pattern: 0 for positive, 1 for negative.
pub open spec fn sign_bit(x: u64) -> u64 {
    x / 0x8000_0000_0000_0000
}

/// Biased exponent field (11 bits).
pub open spec fn exp_field(x: u64) -> u64 {
    (x / 0x10_0000_0000_0000) % 0x800
}

/// Fraction field (52 bits).
pub open spec fn frac_field(x: u64) -> u64 {
    x % 0x10_0000_0000_0000
}

/// The pattern encodes a NaN: exponent all ones, fraction non-zero.
pub open spec fn is_nan_bits(x: u64) -> bool {
    exp_field(x) == 0x7ff && frac_field(x) != 0
}

/// The pattern encodes +0.0 or -0.0.
pub open spec fn is_zero_bits(x: u64) -> bool {
    x == POS_ZERO || x == NEG_ZERO
}

/// Identify -0.0 with +0.0; every other pattern is kept as it is.
pub open spec fn norm_zero(x: u64) -> u64 {
    if x == NEG_ZERO {
        POS_ZERO
    } else {
        x
    }
}

/// Order-preserving key: maps bit patterns to `u64` such that the IEEE-754
/// `totalOrder` predicate on the encoded values agrees with `<=` on the keys.
/// Negative patterns are reflected (most negative first), positive patterns
/// are shifted above them.
pub open spec fn total_key(x: u64) -> u64 {
    if sign_bit(x) == 1 {
        (0xffff_ffff_ffff_ffffu64 - x) as u64
    } else {
        (x + 0x8000_0000_0000_0000) as u64
    }
}

/// IEEE-754 equality of the encoded values: NaN is equal to nothing, the two
/// zeros are equal to each other, and any other pair of distinct bit patterns
/// encodes distinct values.
pub open spec fn feq(a: u64, b: u64) -> bool {
    !is_nan_bits(a) && !is_nan_bits(b) && norm_zero(a) == norm_zero(b)
}

/// IEEE-754 `<` on the encoded values: false whenever either side is NaN,
/// and otherwise the sign-reflected order of the patterns with the two zeros
/// identified.
pub open spec fn flt(a: u64, b: u64) -> bool {
    !is_nan_bits(a) && !is_nan_bits(b) && total_key(norm_zero(a)) < total_key(norm_zero(b))
}

/// IEEE-754 `<=` on the encoded values.
pub open spec fn fle(a: u64, b: u64) -> bool {
    !is_nan_bits(a) && !is_nan_bits(b) && total_key(norm_zero(a)) <= total_key(norm_zero(b))
}

/// Runtime test of `is_nan_bits`.
pub fn bits_is_nan(x: u64) -> (r: bool)
    ensures
        r == is_nan_bits(x),
{
    let e: u64 = (x / 0x10_0000_0000_0000) % 0x800;
    let f: u64 = x % 0x10_0000_0000_0000;
    e == 0x7ff && f != 0
}

/// Runtime normalization of -0.0 to +0.0.
pub fn bits_norm_zero(x: u64) -> (r: u64)
    ensures
        r == norm_zero(x),
{
    if x == NEG_ZERO {
        POS_ZERO
    } else {
        x
    }
}

/// Runtime computation of `total_key`.
pub fn bits_total_key(x: u64) -> (r: u64)
    ensures
        r == total_key(x),
{
    let s: u64 = x / 0x8000_0000_0000_0000;
    if s == 1 {
        0xffff_ffff_ffff_ffffu64 - x
    } else {
        assert(x < 0x8000_0000_0000_0000) by {
            assert(x / 0x8000_0000_0000_0000 == 0);
        }
        x + 0x8000_0000_0000_0000
    }
}

/// Equality of the encoded binary64 values.
pub fn bits_eq(a: u64, b: u64) -> (r: bool)
    ensures
        r == feq(a, b),
{
    if bits_is_nan(a) || bits_is_nan(b) {
        false
    } else {
        bits_norm_zero(a) == bits_norm_zero(b)
    }
}

/// Strict order of the encoded binary64 values.
pub fn bits_lt(a: u64, b: u64) -> (r: bool)
    ensures
        r == flt(a, b),
{
    if bits_is_nan(a) || bits_is_nan(b) {
        false
    } else {
        bits_total_key(bits_norm_zero(a)) < bits_total_key(bits_norm_zero(b))
    }
}

/// Non-strict order of the encoded binary64 values.
pub fn bits_le(a: u64, b: u64) -> (r: bool)
    ensures
        r == fle(a, b),
{
    if bits_is_nan(a) || bits_is_nan(b) {
        false
    } else {
        bits_total_key(bits_norm_zero(a)) <= bits_total_key(bits_norm_zero(b))
    }
}

} // verus!
