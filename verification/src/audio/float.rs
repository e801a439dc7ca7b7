//! Single precision samples as bit patterns.
//!
//! A sample is the `u32` that holds the bits of an IEEE 754 binary32 number: one sign bit, eight
//! exponent bits, 23 fraction bits. Order, clamping and the class of a number can be read off the
//! bits; arithmetic is left to an [`Arithmetic`].
use vstd::prelude::*;

verus! {

/// The bits of 0.0.
pub const ZERO: u32 = 0;

/// The bits of 0.5.
pub const HALF: u32 = 0x3f00_0000;

/// The bits of 1.0.
pub const ONE: u32 = 0x3f80_0000;

/// The bits of -1.0.
pub const MINUS_ONE: u32 = 0xbf80_0000;

/// The bits of infinity: what lies above, sign aside, is not a number.
pub const INFINITY: u32 = 0x7f80_0000;

/// The sign bit.
pub const SIGN: u32 = 0x8000_0000;

/// Floating point arithmetic on bit patterns: each operation rounds as the machine does, so
/// nothing is promised here of its result. A count is converted to the nearest sample, loudness
/// is a binary64 bit pattern.
pub trait Arithmetic {
    fn sum(a: u32, b: u32) -> u32;

    fn difference(a: u32, b: u32) -> u32;

    fn product(a: u32, b: u32) -> u32;

    fn quotient(a: u32, b: u32) -> u32;

    fn square_root(a: u32) -> u32;

    fn count(n: usize) -> u32;

    /// The factor by which a volume in percent scales a sample.
    fn volume_multiplier(volume: usize) -> u32;

    /// How loud a chunk is, from 0 to 1.
    fn loudness(samples: &[u32]) -> u64;
}

/// The bits without the sign.
pub open spec fn spec_magnitude(bits: u32) -> u32 {
    if bits >= SIGN {
        (bits - SIGN) as u32
    } else {
        bits
    }
}

/// The absolute value.
#[verifier::when_used_as_spec(spec_magnitude)]
pub fn magnitude(bits: u32) -> (m: u32)
    ensures
        m == spec_magnitude(bits),
{
    if bits >= SIGN {
        bits - SIGN
    } else {
        bits
    }
}

pub open spec fn spec_is_nan(bits: u32) -> bool {
    spec_magnitude(bits) > INFINITY
}

#[verifier::when_used_as_spec(spec_is_nan)]
pub fn is_nan(bits: u32) -> (b: bool)
    ensures
        b == spec_is_nan(bits),
{
    magnitude(bits) > INFINITY
}

pub open spec fn spec_is_finite(bits: u32) -> bool {
    spec_magnitude(bits) < INFINITY
}

#[verifier::when_used_as_spec(spec_is_finite)]
pub fn is_finite(bits: u32) -> (b: bool)
    ensures
        b == spec_is_finite(bits),
{
    magnitude(bits) < INFINITY
}

/// The place of a number in the order of the reals: both zeros at 0, each next greater number one
/// further.
pub open spec fn rank(bits: u32) -> int {
    if bits >= SIGN {
        -(bits - SIGN)
    } else {
        bits as int
    }
}

/// `a < b` as numbers: false as soon as one is not a number.
pub open spec fn spec_less(a: u32, b: u32) -> bool {
    !spec_is_nan(a) && !spec_is_nan(b) && rank(a) < rank(b)
}

#[verifier::when_used_as_spec(spec_less)]
pub fn less(a: u32, b: u32) -> (r: bool)
    ensures
        r == spec_less(a, b),
{
    if is_nan(a) || is_nan(b) {
        return false;
    }
    if a >= SIGN {
        if b >= SIGN {
            a > b
        } else {
            a > SIGN || b > 0
        }
    } else {
        b < SIGN && a < b
    }
}

/// `a <= b` as numbers: false as soon as one is not a number.
pub open spec fn spec_at_most(a: u32, b: u32) -> bool {
    !spec_is_nan(a) && !spec_is_nan(b) && rank(a) <= rank(b)
}

#[verifier::when_used_as_spec(spec_at_most)]
pub fn at_most(a: u32, b: u32) -> (r: bool)
    ensures
        r == spec_at_most(a, b),
{
    !is_nan(a) && !is_nan(b) && !less(b, a)
}

/// The nearest number in -1 ..= 1; what is not a number stays as it is.
pub open spec fn spec_clamp_unit(bits: u32) -> u32 {
    if spec_less(bits, MINUS_ONE) {
        MINUS_ONE
    } else if spec_less(ONE, bits) {
        ONE
    } else {
        bits
    }
}

#[verifier::when_used_as_spec(spec_clamp_unit)]
pub fn clamp_unit(bits: u32) -> (r: u32)
    ensures
        r == spec_clamp_unit(bits),
{
    if less(bits, MINUS_ONE) {
        MINUS_ONE
    } else if less(ONE, bits) {
        ONE
    } else {
        bits
    }
}

/// Clamping bounds every number and changes none that was in bounds.
pub proof fn clamp_unit_bounds(bits: u32)
    ensures
        !is_nan(bits) ==> at_most(MINUS_ONE, clamp_unit(bits)) && at_most(clamp_unit(bits), ONE),
        at_most(MINUS_ONE, bits) && at_most(bits, ONE) ==> clamp_unit(bits) == bits,
        is_nan(bits) ==> clamp_unit(bits) == bits,
        clamp_unit(clamp_unit(bits)) == clamp_unit(bits),
{
}

} // verus!
