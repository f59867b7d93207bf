//! Binary64 values as raw bit patterns, with the IEEE-754 comparisons.

use vstd::prelude::*;

verus! {

/// The sign bit of a binary64 pattern.
pub const SIGN_BIT: u64 = 0x8000_0000_0000_0000;

/// Positive infinity; every larger magnitude is a NaN.
pub const INFINITY: u64 = 0x7FF0_0000_0000_0000;

/// `0.0`
pub const ZERO: u64 = 0;

/// `1.0`
pub const ONE: u64 = 0x3FF0_0000_0000_0000;

/// `-1.0`
pub const NEG_ONE: u64 = 0xBFF0_0000_0000_0000;

/// The pattern without its sign bit.
pub open spec fn magnitude(bits: u64) -> int {
    if bits >= SIGN_BIT {
        bits - SIGN_BIT
    } else {
        bits as int
    }
}

/// Whether the pattern encodes a NaN.
pub open spec fn is_nan(bits: u64) -> bool {
    magnitude(bits) > INFINITY
}

/// An integer that orders the non-NaN patterns as their values are ordered.
/// Both zeros share the key 0.
pub open spec fn order_key(bits: u64) -> int {
    if bits >= SIGN_BIT {
        -magnitude(bits)
    } else {
        magnitude(bits)
    }
}

/// IEEE-754 `<`: false as soon as one side is a NaN.
pub open spec fn less(a: u64, b: u64) -> bool {
    !is_nan(a) && !is_nan(b) && order_key(a) < order_key(b)
}

/// IEEE-754 `==`: a NaN equals nothing, and `-0.0` equals `0.0`.
pub open spec fn same(a: u64, b: u64) -> bool {
    !is_nan(a) && !is_nan(b) && order_key(a) == order_key(b)
}

pub fn nan(bits: u64) -> (r: bool)
    ensures
        r == is_nan(bits),
{
    if bits >= SIGN_BIT {
        bits - SIGN_BIT > INFINITY
    } else {
        bits > INFINITY
    }
}

fn key(bits: u64) -> (k: i64)
    ensures
        k == order_key(bits),
{
    if bits >= SIGN_BIT {
        let m: u64 = bits - SIGN_BIT;
        -(m as i64)
    } else {
        bits as i64
    }
}

/// `a < b` on the encoded values.
pub fn lt(a: u64, b: u64) -> (r: bool)
    ensures
        r == less(a, b),
{
    !nan(a) && !nan(b) && key(a) < key(b)
}

/// `a == b` on the encoded values.
pub fn eq(a: u64, b: u64) -> (r: bool)
    ensures
        r == same(a, b),
{
    !nan(a) && !nan(b) && key(a) == key(b)
}

/// Among the non-NaN patterns `less` is a strict total order up to `same`.
pub proof fn law_less_is_a_strict_order(a: u64, b: u64, c: u64)
    ensures
        !less(a, a),
        less(a, b) && less(b, c) ==> less(a, c),
        !is_nan(a) && !is_nan(b) ==> less(a, b) || same(a, b) || less(b, a),
        !(less(a, b) && less(b, a)),
{
}

} // verus!
