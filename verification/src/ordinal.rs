//! Ordinals: 64-bit integers that stand for real numbers by their order.
//!
//! The tracer's geometry is computed in IEEE 754 binary64 by the caller. This
//! crate never does arithmetic on such numbers: it only compares them, picks
//! among them and flips their sign. For that, a number is handed over as its
//! *ordinal*: the magnitude bits of its binary64 pattern read as an integer,
//! negated when the sign bit is set. The map is strictly increasing on the
//! extended real line, sends both zeros to `0`, and turns negation of the
//! number into negation of the integer. Patterns beyond the infinities are the
//! NaNs; every comparison here treats them as binary64 does.

use vstd::prelude::*;

verus! {

/// The ordinal of a binary64 number.
pub type Ordinal = i64;

/// The ordinal of `0`.
pub const ZERO: Ordinal = 0;

/// The ordinal of `1`.
pub const ONE: Ordinal = 0x3FF0_0000_0000_0000;

/// The ordinal of positive infinity.
pub const INFINITY: Ordinal = 0x7FF0_0000_0000_0000;

/// The ordinal of negative infinity.
pub const NEG_INFINITY: Ordinal = -0x7FF0_0000_0000_0000;

/// The sign bit of a binary64 pattern.
pub const SIGN_BIT: u64 = 0x8000_0000_0000_0000;

/// An ordinal that some bit pattern has: every `i64` but the least.
pub open spec fn is_ordinal(a: Ordinal) -> bool {
    a > i64::MIN
}

/// An ordinal beyond the infinities stands for no number.
pub open spec fn is_nan(a: Ordinal) -> bool {
    a > INFINITY || a < NEG_INFINITY
}

/// An ordinal of one of the two infinities.
pub open spec fn is_infinite(a: Ordinal) -> bool {
    a == INFINITY || a == NEG_INFINITY
}

/// An ordinal of a real number.
pub open spec fn is_finite(a: Ordinal) -> bool {
    NEG_INFINITY < a < INFINITY
}

/// `a < b` as binary64 decides it: false as soon as either side is a NaN.
pub open spec fn lt(a: Ordinal, b: Ordinal) -> bool {
    !is_nan(a) && !is_nan(b) && a < b
}

/// `a <= b` as binary64 decides it: false as soon as either side is a NaN.
pub open spec fn le(a: Ordinal, b: Ordinal) -> bool {
    !is_nan(a) && !is_nan(b) && a <= b
}

/// The lesser of two ordinals, where a NaN yields to the other side.
pub open spec fn min(a: Ordinal, b: Ordinal) -> Ordinal {
    if is_nan(a) {
        b
    } else if is_nan(b) {
        a
    } else if a <= b {
        a
    } else {
        b
    }
}

/// The greater of two ordinals, where a NaN yields to the other side.
pub open spec fn max(a: Ordinal, b: Ordinal) -> Ordinal {
    if is_nan(a) {
        b
    } else if is_nan(b) {
        a
    } else if a >= b {
        a
    } else {
        b
    }
}

/// An ordinal held between two bounds; a NaN stays what it is.
pub open spec fn clamped(a: Ordinal, low: Ordinal, high: Ordinal) -> Ordinal {
    if is_nan(a) {
        a
    } else if a < low {
        low
    } else if a > high {
        high
    } else {
        a
    }
}

/// The ordinal that a bit pattern stands for.
pub open spec fn ordinal_of(bits: u64) -> Ordinal {
    if bits >= SIGN_BIT {
        (-(bits - SIGN_BIT)) as i64
    } else {
        bits as i64
    }
}

/// The bit pattern of an ordinal, with the positive zero for `0`.
pub open spec fn bits_of(a: Ordinal) -> u64 {
    if a >= 0 {
        a as u64
    } else {
        (SIGN_BIT - a) as u64
    }
}

/// Reads a binary64 bit pattern as an ordinal.
pub fn from_bits(bits: u64) -> (ordinal: Ordinal)
    ensures
        ordinal == ordinal_of(bits),
        is_ordinal(ordinal),
{
    if bits >= SIGN_BIT {
        let magnitude: u64 = bits - SIGN_BIT;
        -(magnitude as i64)
    } else {
        bits as i64
    }
}

/// Writes an ordinal back as a binary64 bit pattern.
pub fn to_bits(a: Ordinal) -> (bits: u64)
    requires
        is_ordinal(a),
    ensures
        bits == bits_of(a),
        ordinal_of(bits) == a,
{
    if a >= 0 {
        a as u64
    } else {
        let magnitude: u64 = (-a) as u64;
        SIGN_BIT + magnitude
    }
}

/// Tells whether an ordinal stands for no number.
pub fn check_nan(a: Ordinal) -> (nan: bool)
    ensures
        nan == is_nan(a),
{
    a > INFINITY || a < NEG_INFINITY
}

/// Tells whether an ordinal is that of an infinity.
pub fn check_infinite(a: Ordinal) -> (infinite: bool)
    ensures
        infinite == is_infinite(a),
{
    a == INFINITY || a == NEG_INFINITY
}

/// Tells whether an ordinal is that of a real number.
pub fn check_finite(a: Ordinal) -> (finite: bool)
    ensures
        finite == is_finite(a),
{
    NEG_INFINITY < a && a < INFINITY
}

/// Decides `a < b`.
pub fn less(a: Ordinal, b: Ordinal) -> (holds: bool)
    ensures
        holds == lt(a, b),
{
    !check_nan(a) && !check_nan(b) && a < b
}

/// Decides `a <= b`.
pub fn less_eq(a: Ordinal, b: Ordinal) -> (holds: bool)
    ensures
        holds == le(a, b),
{
    !check_nan(a) && !check_nan(b) && a <= b
}

/// Picks the lesser of two ordinals.
pub fn lesser(a: Ordinal, b: Ordinal) -> (least: Ordinal)
    ensures
        least == min(a, b),
{
    if check_nan(a) {
        b
    } else if check_nan(b) {
        a
    } else if a <= b {
        a
    } else {
        b
    }
}

/// Picks the greater of two ordinals.
pub fn greater(a: Ordinal, b: Ordinal) -> (greatest: Ordinal)
    ensures
        greatest == max(a, b),
{
    if check_nan(a) {
        b
    } else if check_nan(b) {
        a
    } else if a >= b {
        a
    } else {
        b
    }
}

/// Holds an ordinal between two bounds.
pub fn clamp(a: Ordinal, low: Ordinal, high: Ordinal) -> (held: Ordinal)
    requires
        !is_nan(low),
        !is_nan(high),
        low <= high,
    ensures
        held == clamped(a, low, high),
        !is_nan(a) ==> low <= held <= high,
{
    if check_nan(a) {
        a
    } else if a < low {
        low
    } else if a > high {
        high
    } else {
        a
    }
}

/// Flips the sign of the number that an ordinal stands for.
pub fn negate(a: Ordinal) -> (negated: Ordinal)
    requires
        is_ordinal(a),
    ensures
        negated == -a,
        is_nan(negated) == is_nan(a),
{
    -a
}

/// Reading a pattern and writing it back changes nothing but the sign of a
/// negative zero.
pub proof fn lemma_bits_round_trip(bits: u64)
    ensures
        bits != SIGN_BIT ==> bits_of(ordinal_of(bits)) == bits,
        bits == SIGN_BIT ==> bits_of(ordinal_of(bits)) == 0,
{
}

/// The map from patterns to ordinals is increasing on the non-negative
/// patterns and decreasing on the negative ones, as the numbers are.
pub proof fn lemma_ordinal_monotone(a: u64, b: u64)
    ensures
        a < b < SIGN_BIT ==> ordinal_of(a) < ordinal_of(b),
        SIGN_BIT <= a < b ==> ordinal_of(a) > ordinal_of(b),
        a < SIGN_BIT <= b ==> ordinal_of(b) <= ordinal_of(a),
{
}

} // verus!
