//! Binary64 floating-point values held as their IEEE-754 bit patterns.
//!
//! The library never computes with floating-point values: it stores, compares
//! and orders them.  A value is kept as the 64 bits of its binary64 encoding,
//! and the few relations the logic needs (is it zero, are two values equal,
//! which is smaller) are stated and decided on those bits.
use vstd::prelude::*;

verus! {

/// The sign bit of a binary64 value.
pub const SIGN_BIT: u64 = 0x8000_0000_0000_0000u64;

/// The exponent field of a binary64 value.
pub const EXPONENT_MASK: u64 = 0x7ff0_0000_0000_0000u64;

/// The fraction field of a binary64 value.
pub const FRACTION_MASK: u64 = 0x000f_ffff_ffff_ffffu64;

/// The bit pattern is that of a zero, positive or negative.
pub open spec fn spec_is_zero(bits: u64) -> bool {
    bits == 0 || bits == SIGN_BIT
}

/// The bit pattern is that of a NaN: all exponent bits set and a non-zero fraction.
pub open spec fn spec_is_nan(bits: u64) -> bool {
    (bits & EXPONENT_MASK) == EXPONENT_MASK && (bits & FRACTION_MASK) != 0
}

/// Two bit patterns denote equal values under IEEE-754 comparison: neither is a
/// NaN, and they are identical or both zeros.
pub open spec fn spec_float_eq(a: u64, b: u64) -> bool {
    !spec_is_nan(a) && !spec_is_nan(b) && (a == b || (spec_is_zero(a) && spec_is_zero(b)))
}

/// A key whose unsigned order is the IEEE-754 total order of the values:
/// negative values have all bits flipped, the others have the sign bit set.
pub open spec fn spec_order_key(bits: u64) -> u64 {
    if bits & SIGN_BIT != 0 {
        !bits
    } else {
        bits | SIGN_BIT
    }
}

/// Distinct bit patterns have distinct order keys.
pub proof fn lemma_order_key_injective(a: u64, b: u64)
    ensures
        spec_order_key(a) == spec_order_key(b) ==> a == b,
{
    assert((a & 0x8000_0000_0000_0000u64) != 0 && (b & 0x8000_0000_0000_0000u64) != 0 && !a == !b
        ==> a == b) by (bit_vector);
    assert((a & 0x8000_0000_0000_0000u64) == 0 && (b & 0x8000_0000_0000_0000u64) == 0
        && (a | 0x8000_0000_0000_0000u64) == (b | 0x8000_0000_0000_0000u64) ==> a == b)
        by (bit_vector);
    assert((a & 0x8000_0000_0000_0000u64) != 0 && (b & 0x8000_0000_0000_0000u64) == 0
        ==> !a != (b | 0x8000_0000_0000_0000u64)) by (bit_vector);
    assert((a & 0x8000_0000_0000_0000u64) == 0 && (b & 0x8000_0000_0000_0000u64) != 0
        ==> (a | 0x8000_0000_0000_0000u64) != !b) by (bit_vector);
}

/// The order keys order values as IEEE-754 orders them: among values without
/// the sign bit a larger bit pattern is a larger value, among values with it a
/// larger bit pattern is a more negative value, and every value with the sign
/// bit comes before every value without it.
pub proof fn lemma_order_key_orders(a: u64, b: u64)
    ensures
        (a & SIGN_BIT) == 0 && (b & SIGN_BIT) == 0 && a < b ==> spec_order_key(a) < spec_order_key(b),
        (a & SIGN_BIT) != 0 && (b & SIGN_BIT) != 0 && a < b ==> spec_order_key(b) < spec_order_key(a),
        (a & SIGN_BIT) != 0 && (b & SIGN_BIT) == 0 ==> spec_order_key(a) < spec_order_key(b),
{
    assert((a & 0x8000_0000_0000_0000u64) == 0 && (b & 0x8000_0000_0000_0000u64) == 0 && a < b
        ==> (a | 0x8000_0000_0000_0000u64) < (b | 0x8000_0000_0000_0000u64)) by (bit_vector);
    assert((a & 0x8000_0000_0000_0000u64) != 0 && (b & 0x8000_0000_0000_0000u64) != 0 && a < b
        ==> !b < !a) by (bit_vector);
    assert((a & 0x8000_0000_0000_0000u64) != 0 && (b & 0x8000_0000_0000_0000u64) == 0
        ==> !a < (b | 0x8000_0000_0000_0000u64)) by (bit_vector);
}

/// IEEE-754 equality on bit patterns: the two zeros are equal, a value that
/// is no NaN equals itself, a NaN equals nothing (not even itself), equality
/// is symmetric, and two different patterns other than the two zeros are
/// never equal.  All-ones exponent with a zero fraction (an infinity) is no
/// NaN; with a non-zero fraction it is one.
pub proof fn lemma_float_eq_facts(a: u64, b: u64)
    ensures
        spec_float_eq(0, SIGN_BIT),
        !spec_is_nan(a) ==> spec_float_eq(a, a),
        spec_is_nan(a) ==> !spec_float_eq(a, b) && !spec_float_eq(b, a),
        spec_float_eq(a, b) ==> spec_float_eq(b, a),
        a != b && !(spec_is_zero(a) && spec_is_zero(b)) ==> !spec_float_eq(a, b),
        !spec_is_nan(0x7ff0_0000_0000_0000u64),
        spec_is_nan(0x7ff8_0000_0000_0000u64),
        !spec_is_nan(0),
        !spec_is_nan(SIGN_BIT),
{
    assert((0u64 & 0x7ff0_0000_0000_0000u64) != 0x7ff0_0000_0000_0000u64) by (bit_vector);
    assert((0x8000_0000_0000_0000u64 & 0x7ff0_0000_0000_0000u64) != 0x7ff0_0000_0000_0000u64)
        by (bit_vector);
    assert((0x7ff0_0000_0000_0000u64 & 0x000f_ffff_ffff_ffffu64) == 0) by (bit_vector);
    assert((0x7ff8_0000_0000_0000u64 & 0x7ff0_0000_0000_0000u64) == 0x7ff0_0000_0000_0000u64
        && (0x7ff8_0000_0000_0000u64 & 0x000f_ffff_ffff_ffffu64) != 0) by (bit_vector);
}

/// Whether the bit pattern is that of a zero (`+0.0` or `-0.0`).
pub fn is_zero(bits: u64) -> (r: bool)
    ensures
        r == spec_is_zero(bits),
{
    bits == 0 || bits == SIGN_BIT
}

/// Whether the bit pattern is that of a NaN.
pub fn is_nan(bits: u64) -> (r: bool)
    ensures
        r == spec_is_nan(bits),
{
    (bits & EXPONENT_MASK) == EXPONENT_MASK && (bits & FRACTION_MASK) != 0
}

/// IEEE-754 equality of two values given by their bit patterns.
pub fn float_eq(a: u64, b: u64) -> (r: bool)
    ensures
        r == spec_float_eq(a, b),
{
    !is_nan(a) && !is_nan(b) && (a == b || (is_zero(a) && is_zero(b)))
}

/// The order key of a value (see [`spec_order_key`]).
pub fn order_key(bits: u64) -> (r: u64)
    ensures
        r == spec_order_key(bits),
{
    if bits & SIGN_BIT != 0 {
        !bits
    } else {
        bits | SIGN_BIT
    }
}

} // verus!
