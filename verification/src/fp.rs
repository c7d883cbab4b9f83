//! IEEE-754 double-precision bit patterns.
//!
//! Prices cross this crate as the 64 raw bits of a double. The verifier
//! admits no floating-point arithmetic, but the classification of a bit
//! pattern (finite, NaN) and the numeric order of two non-NaN patterns
//! are plain functions of the bits, so they are defined and proved here.
//! Callers that own real doubles convert with `f64::to_bits`, whose
//! encoding these definitions follow.

use vstd::prelude::*;

verus! {

/// The bit pattern of the quiet NaN that `f64::NAN` carries.
pub const NAN_BITS: u64 = 0x7ff8000000000000;

/// 2^52, the weight of the lowest exponent bit.
pub const EXP_UNIT: u64 = 0x10000000000000;

/// 2^63, the weight of the sign bit.
pub const SIGN_UNIT: u64 = 0x8000000000000000;

/// The 11 exponent bits of `b`.
pub open spec fn exp_bits(b: u64) -> int {
    (b as int / 0x10000000000000) % 0x800
}

/// The 52 fraction bits of `b`.
pub open spec fn frac_bits(b: u64) -> int {
    b as int % 0x10000000000000
}

/// The sign bit of `b`.
pub open spec fn sign_bit(b: u64) -> bool {
    b as int / 0x8000000000000000 == 1
}

/// Magnitude: the 63 bits of `b` below the sign.
pub open spec fn mag_bits(b: u64) -> int {
    b as int % 0x8000000000000000
}

/// Whether `b` encodes a finite double: exponent not all ones.
pub open spec fn is_finite_bits(b: u64) -> bool {
    exp_bits(b) != 0x7ff
}

/// Whether `b` encodes a NaN: exponent all ones, fraction non-zero.
pub open spec fn is_nan_bits(b: u64) -> bool {
    exp_bits(b) == 0x7ff && frac_bits(b) != 0
}

/// The signed magnitude that orders non-NaN doubles: within one sign the
/// encoding is monotone in its magnitude bits, and the two zeros share
/// the key 0.
pub open spec fn float_key(b: u64) -> int {
    if sign_bit(b) {
        -mag_bits(b)
    } else {
        mag_bits(b)
    }
}

/// The IEEE `<` on two bit patterns: false when either is NaN.
pub open spec fn float_lt(a: u64, b: u64) -> bool {
    !is_nan_bits(a) && !is_nan_bits(b) && float_key(a) < float_key(b)
}

/// Computes `is_finite_bits`.
pub fn bits_is_finite(b: u64) -> (r: bool)
    ensures
        r == is_finite_bits(b),
{
    (b / EXP_UNIT) % 0x800 != 0x7ff
}

/// Computes `is_nan_bits`.
pub fn bits_is_nan(b: u64) -> (r: bool)
    ensures
        r == is_nan_bits(b),
{
    (b / EXP_UNIT) % 0x800 == 0x7ff && b % EXP_UNIT != 0
}

/// Computes the IEEE `<` of two bit patterns.
pub fn bits_lt(a: u64, b: u64) -> (r: bool)
    ensures
        r == float_lt(a, b),
{
    if bits_is_nan(a) || bits_is_nan(b) {
        return false;
    }
    let neg_a = a / SIGN_UNIT == 1;
    let neg_b = b / SIGN_UNIT == 1;
    let mag_a = a % SIGN_UNIT;
    let mag_b = b % SIGN_UNIT;
    if !neg_a && !neg_b {
        mag_a < mag_b
    } else if neg_a && neg_b {
        mag_b < mag_a
    } else if neg_a {
        // a <= -0.0 <= +0.0 <= b: strict unless both are zeros
        !(mag_a == 0 && mag_b == 0)
    } else {
        false
    }
}

/// Computes the IEEE `>` of two bit patterns.
pub fn bits_gt(a: u64, b: u64) -> (r: bool)
    ensures
        r == float_lt(b, a),
{
    bits_lt(b, a)
}

} // verus!
