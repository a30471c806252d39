//! Ordering of IEEE-754 binary32 values given by their bit patterns.
use vstd::prelude::*;

verus! {

/// The bit pattern of `0.0`, which a feature vector also reads as "missing".
pub const ZERO_BITS: u32 = 0;

/// The magnitude bits of a pattern: everything but the sign.
pub open spec fn magnitude(x: u32) -> u32 {
    x & 0x7fff_ffff
}

/// Whether a pattern encodes a NaN: all exponent bits set and a non-zero fraction.
pub open spec fn is_nan(x: u32) -> bool {
    magnitude(x) > 0x7f80_0000
}

/// Whether a pattern encodes `+0.0` or `-0.0`.
pub open spec fn is_zero(x: u32) -> bool {
    magnitude(x) == 0
}

/// A number ordered as the value the pattern encodes (for patterns that are
/// not NaN): the magnitude bits grow with the absolute value, and the sign
/// bit flips the order. Both zeros have key 0.
pub open spec fn order_key(x: u32) -> int {
    if x >> 31u32 == 1 {
        -(magnitude(x) as int)
    } else {
        magnitude(x) as int
    }
}

/// `a < b` on the two binary32 values: false when either is NaN.
pub open spec fn lt(a: u32, b: u32) -> bool {
    !is_nan(a) && !is_nan(b) && order_key(a) < order_key(b)
}

/// Whether the value with pattern `x` equals `0.0` (true of `-0.0` as well).
pub fn is_zero_bits(x: u32) -> (r: bool)
    ensures
        r == is_zero(x),
{
    x & 0x7fff_ffff == 0
}

fn key_of(x: u32) -> (r: i64)
    ensures
        r as int == order_key(x),
{
    let m = x & 0x7fff_ffff;
    if x >> 31u32 == 1 {
        -(m as i64)
    } else {
        m as i64
    }
}

/// The `<` comparison of two binary32 values given by their bit patterns.
pub fn lt_bits(a: u32, b: u32) -> (r: bool)
    ensures
        r == lt(a, b),
{
    if (a & 0x7fff_ffff) > 0x7f80_0000 || (b & 0x7fff_ffff) > 0x7f80_0000 {
        false
    } else {
        key_of(a) < key_of(b)
    }
}

} // verus!
