//! Order and range of IEEE 754 binary32 values, decided on their bit patterns.
//!
//! A pattern is a sign bit followed by 31 bits of exponent and fraction. Among
//! patterns with the same sign the encoded value grows with those 31 bits
//! read as an integer, up to infinity at `0x7F80_0000`; whatever lies above
//! infinity is a NaN. The two zeros are equal, and a NaN is neither below nor
//! above anything.

use vstd::prelude::*;

verus! {

/// The sign bit of a pattern.
pub const SIGN_BIT: u32 = 0x8000_0000;

/// Positive infinity. A pattern whose lower 31 bits exceed this is a NaN.
pub const INFINITY: u32 = 0x7F80_0000;

/// Positive zero.
pub const ZERO: u32 = 0;

/// The lower 31 bits of a pattern: exponent and fraction without the sign.
pub open spec fn magnitude_bits(bits: u32) -> int {
    if bits >= SIGN_BIT {
        bits - SIGN_BIT
    } else {
        bits as int
    }
}

/// Whether a pattern encodes a NaN.
pub open spec fn is_nan(bits: u32) -> bool {
    magnitude_bits(bits) > INFINITY
}

/// Where a pattern that is no NaN stands on the number line, counted in
/// representable steps from zero. Both zeros stand at 0.
pub open spec fn rank(bits: u32) -> int {
    if bits >= SIGN_BIT {
        -magnitude_bits(bits)
    } else {
        bits as int
    }
}

/// `a < b` as IEEE 754 orders the two encoded values.
pub open spec fn less_than(a: u32, b: u32) -> bool {
    !is_nan(a) && !is_nan(b) && rank(a) < rank(b)
}

/// What clamping `value` to the closed range from `lower` to `upper` gives:
/// the bound that `value` lies beyond, else `value` itself. A NaN lies beyond
/// neither bound and stays as it is.
pub open spec fn clamped(value: u32, lower: u32, upper: u32) -> u32 {
    if less_than(value, lower) {
        lower
    } else if less_than(upper, value) {
        upper
    } else {
        value
    }
}

fn signed_rank(bits: u32) -> (r: i64)
    ensures
        r == rank(bits),
{
    if bits >= SIGN_BIT {
        -((bits - SIGN_BIT) as i64)
    } else {
        bits as i64
    }
}

/// Tells whether a pattern encodes a NaN.
pub fn nan(bits: u32) -> (r: bool)
    ensures
        r == is_nan(bits),
{
    let magnitude: u32 = if bits >= SIGN_BIT {
        bits - SIGN_BIT
    } else {
        bits
    };
    magnitude > INFINITY
}

/// Compares two patterns as the values they encode.
pub fn lt(a: u32, b: u32) -> (r: bool)
    ensures
        r == less_than(a, b),
{
    !nan(a) && !nan(b) && signed_rank(a) < signed_rank(b)
}

/// Clamps `value` to the closed range from `lower` to `upper`.
pub fn clamp(value: u32, lower: u32, upper: u32) -> (r: u32)
    ensures
        r == clamped(value, lower, upper),
{
    if lt(value, lower) {
        lower
    } else if lt(upper, value) {
        upper
    } else {
        value
    }
}

/// `less_than` is a strict order: nothing is below itself, and the relation
/// is transitive.
pub proof fn lemma_less_than_is_strict(a: u32, b: u32, c: u32)
    ensures
        !less_than(a, a),
        less_than(a, b) ==> !less_than(b, a),
        less_than(a, b) && less_than(b, c) ==> less_than(a, c),
{
}

/// A clamped value that is no NaN lies within the range, provided the range
/// is not empty; and clamping twice changes nothing more.
pub proof fn lemma_clamped_is_in_range(value: u32, lower: u32, upper: u32)
    requires
        !is_nan(lower),
        !is_nan(upper),
        !less_than(upper, lower),
    ensures
        !is_nan(value) ==> !less_than(clamped(value, lower, upper), lower),
        !is_nan(value) ==> !less_than(upper, clamped(value, lower, upper)),
        clamped(clamped(value, lower, upper), lower, upper) == clamped(value, lower, upper),
{
}

} // verus!
