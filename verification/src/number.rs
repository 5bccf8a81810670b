//! Numbers are carried as IEEE-754 binary64 bit patterns. The few questions the
//! evaluator has to answer about a number without computing with it are
//! answered here, on the bits.

use vstd::prelude::*;

verus! {

/// The bit that holds the sign of a binary64 value.
pub const SIGN_BIT: u64 = 0x8000_0000_0000_0000;

/// The magnitude bits of positive infinity; every larger magnitude is a NaN.
pub const INFINITY_BITS: u64 = 0x7ff0_0000_0000_0000;

/// The bit pattern with its sign cleared.
pub open spec fn magnitude(bits: u64) -> int {
    if bits >= SIGN_BIT {
        bits - SIGN_BIT
    } else {
        bits as int
    }
}

/// Positive or negative zero.
pub open spec fn is_zero(bits: u64) -> bool {
    magnitude(bits) == 0
}

/// Not a number: an all-ones exponent with a non-zero fraction.
pub open spec fn is_nan(bits: u64) -> bool {
    magnitude(bits) > INFINITY_BITS
}

/// Numeric equality of two binary64 values: a NaN equals nothing, the two
/// zeros equal each other, and everything else is equal exactly when the bit
/// patterns are.
pub open spec fn numbers_equal(left: u64, right: u64) -> bool {
    &&& !is_nan(left)
    &&& !is_nan(right)
    &&& (left == right || (is_zero(left) && is_zero(right)))
}

fn magnitude_of(bits: u64) -> (result: u64)
    ensures
        result == magnitude(bits),
{
    if bits >= SIGN_BIT {
        bits - SIGN_BIT
    } else {
        bits
    }
}

/// Whether the number is positive or negative zero.
pub fn zero(bits: u64) -> (result: bool)
    ensures
        result == is_zero(bits),
{
    magnitude_of(bits) == 0
}

/// Whether the number is a NaN.
pub fn nan(bits: u64) -> (result: bool)
    ensures
        result == is_nan(bits),
{
    magnitude_of(bits) > INFINITY_BITS
}

/// Numeric equality on bit patterns.
pub fn equal(left: u64, right: u64) -> (result: bool)
    ensures
        result == numbers_equal(left, right),
{
    !nan(left) && !nan(right) && (left == right || (zero(left) && zero(right)))
}

/// Numeric equality is symmetric.
pub proof fn numbers_equal_symmetric(left: u64, right: u64)
    ensures
        numbers_equal(left, right) == numbers_equal(right, left),
{
}

/// A number that is not a NaN equals itself.
pub proof fn numbers_equal_reflexive(bits: u64)
    ensures
        numbers_equal(bits, bits) == !is_nan(bits),
{
}

} // verus!
