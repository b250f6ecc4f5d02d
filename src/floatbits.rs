//! Ordering of IEEE-754 doubles given by their 64-bit patterns.
use vstd::prelude::*;

verus! {

/// The sign bit of a double's pattern.
pub const SIGN_BIT: u64 = 0x8000_0000_0000_0000;

/// The pattern of positive infinity; larger magnitudes are NaNs.
pub const INFINITY_BITS: u64 = 0x7ff0_0000_0000_0000;

/// The pattern with its sign bit cleared.
pub open spec fn magnitude(x: u64) -> int {
    (x % SIGN_BIT) as int
}

/// The sign bit is set.
pub open spec fn sign_set(x: u64) -> bool {
    x >= SIGN_BIT
}

/// The pattern is a NaN: all exponent bits set and a non-zero fraction.
pub open spec fn is_nan(x: u64) -> bool {
    magnitude(x) > INFINITY_BITS
}

/// An integer that orders non-NaN doubles as their values are ordered; both
/// zeros get the key 0.
pub open spec fn order_key(x: u64) -> int {
    if sign_set(x) {
        -magnitude(x)
    } else {
        magnitude(x)
    }
}

/// `a > b` on the doubles that the patterns stand for (false if either is NaN).
pub open spec fn float_gt_spec(a: u64, b: u64) -> bool {
    !is_nan(a) && !is_nan(b) && order_key(a) > order_key(b)
}

/// Computes `order_key`.
pub fn order_key_of(x: u64) -> (r: i64)
    ensures
        r == order_key(x),
{
    let m: u64 = x % SIGN_BIT;
    if x >= SIGN_BIT {
        -(m as i64)
    } else {
        m as i64
    }
}

/// Whether the pattern is a NaN.
pub fn is_nan_bits(x: u64) -> (r: bool)
    ensures
        r == is_nan(x),
{
    x % SIGN_BIT > INFINITY_BITS
}

/// `a > b` on the doubles that the patterns stand for.
pub fn float_gt(a: u64, b: u64) -> (r: bool)
    ensures
        r == float_gt_spec(a, b),
{
    !is_nan_bits(a) && !is_nan_bits(b) && order_key_of(a) > order_key_of(b)
}

} // verus!
