//! IEEE-754 binary64 semantics over bit patterns.
//!
//! A value of type `u64` here is the bit pattern of an `f64`. The spec
//! functions give the meaning of the standard predicates and of the `<=`
//! comparison on such patterns.

use vstd::prelude::*;

verus! {

/// Bit pattern of the sign bit.
pub const SIGN_MASK: u64 = 0x8000_0000_0000_0000;

/// Bit pattern of positive infinity; every larger magnitude is a NaN.
pub const INFINITY_BITS: u64 = 0x7ff0_0000_0000_0000;

/// Bit pattern of `1.0`.
pub const ONE_BITS: u64 = 0x3ff0_0000_0000_0000;

/// Bit pattern of `+0.0`.
pub const ZERO_BITS: u64 = 0;

/// The sign bit is set (negative numbers, `-0.0`, `-inf` and some NaNs).
pub open spec fn sign_set(b: u64) -> bool {
    b >= SIGN_MASK
}

/// The pattern with its sign bit cleared.
pub open spec fn magnitude(b: u64) -> u64 {
    if sign_set(b) {
        (b - SIGN_MASK) as u64
    } else {
        b
    }
}

/// `f64::is_nan`.
pub open spec fn nan(b: u64) -> bool {
    magnitude(b) > INFINITY_BITS
}

/// `f64::is_finite`.
pub open spec fn finite(b: u64) -> bool {
    magnitude(b) < INFINITY_BITS
}

/// `+0.0` or `-0.0`.
pub open spec fn zero(b: u64) -> bool {
    magnitude(b) == 0
}

/// The comparison `a <= b` on the two values: false when either is a NaN,
/// true for two zeros of any sign.
pub open spec fn le(a: u64, b: u64) -> bool {
    &&& !nan(a)
    &&& !nan(b)
    &&& if zero(a) && zero(b) {
        true
    } else if sign_set(a) {
        !sign_set(b) || magnitude(b) <= magnitude(a)
    } else {
        !sign_set(b) && a <= b
    }
}

/// The comparison `a < b` on the two values.
pub open spec fn lt(a: u64, b: u64) -> bool {
    le(a, b) && !le(b, a)
}

/// `<=` is transitive.
pub proof fn lemma_le_transitive(a: u64, b: u64, c: u64)
    requires
        le(a, b),
        le(b, c),
    ensures
        le(a, c),
{
}

/// `<=` is reflexive on every value but a NaN.
pub proof fn lemma_le_reflexive(a: u64)
    requires
        !nan(a),
    ensures
        le(a, a),
{
}

/// Whether `b` is a NaN.
pub fn is_nan(b: u64) -> (r: bool)
    ensures
        r == nan(b),
{
    let m: u64 = if b >= SIGN_MASK { b - SIGN_MASK } else { b };
    m > INFINITY_BITS
}

/// Whether `b` is neither infinite nor a NaN.
pub fn is_finite(b: u64) -> (r: bool)
    ensures
        r == finite(b),
{
    let m: u64 = if b >= SIGN_MASK { b - SIGN_MASK } else { b };
    m < INFINITY_BITS
}

/// The comparison `a <= b`.
pub fn less_or_equal(a: u64, b: u64) -> (r: bool)
    ensures
        r == le(a, b),
{
    let ma: u64 = if a >= SIGN_MASK { a - SIGN_MASK } else { a };
    let mb: u64 = if b >= SIGN_MASK { b - SIGN_MASK } else { b };
    if ma > INFINITY_BITS || mb > INFINITY_BITS {
        false
    } else if ma == 0 && mb == 0 {
        true
    } else if a >= SIGN_MASK {
        b < SIGN_MASK || mb <= ma
    } else {
        b < SIGN_MASK && a <= b
    }
}

} // verus!
