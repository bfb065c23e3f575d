//! Coordinates and factors: 32-bit floating-point numbers, held as their bits.
//!
//! The bits are a sign, eight bits of exponent and twenty-three of fraction
//! (IEEE 754). Without the sign they order as the numbers do, so comparing
//! numbers is comparing integers.

use vstd::prelude::*;

verus! {

/// The bits of the number one.
pub const ONE: u32 = 0x3f80_0000;

/// The bits without the sign.
pub open spec fn magnitude(bits: u32) -> int {
    bits as int % 0x8000_0000
}

/// Whether the bits stand for no number.
pub open spec fn is_nan(bits: u32) -> bool {
    magnitude(bits) > 0x7f80_0000
}

/// An integer that orders as the number does; both zeros have the same.
pub open spec fn rank(bits: u32) -> int {
    if bits >= 0x8000_0000 {
        -magnitude(bits)
    } else {
        magnitude(bits)
    }
}

/// Whether the number of `a` is less than that of `b`.
pub open spec fn less(a: u32, b: u32) -> bool {
    !is_nan(a) && !is_nan(b) && rank(a) < rank(b)
}

/// Whether `a` and `b` stand for the same number.
pub open spec fn equal(a: u32, b: u32) -> bool {
    !is_nan(a) && !is_nan(b) && rank(a) == rank(b)
}

/// `bits` moved into the range from `low` to `high`.
pub open spec fn clamped(bits: u32, low: u32, high: u32) -> u32 {
    if less(bits, low) {
        low
    } else if less(high, bits) {
        high
    } else {
        bits
    }
}

fn order_key(bits: u32) -> (key: i64)
    ensures
        key == rank(bits),
{
    let size: i64 = (bits % 0x8000_0000) as i64;
    if bits >= 0x8000_0000 {
        -size
    } else {
        size
    }
}

/// Whether the number of `a` is less than that of `b`.
pub fn is_less(a: u32, b: u32) -> (yes: bool)
    ensures
        yes == less(a, b),
{
    a % 0x8000_0000 <= 0x7f80_0000 && b % 0x8000_0000 <= 0x7f80_0000 && order_key(a) < order_key(b)
}

/// Whether `a` and `b` stand for the same number.
pub fn is_equal(a: u32, b: u32) -> (yes: bool)
    ensures
        yes == equal(a, b),
{
    a % 0x8000_0000 <= 0x7f80_0000 && b % 0x8000_0000 <= 0x7f80_0000 && order_key(a) == order_key(b)
}

/// `bits` moved into the range from `low` to `high`; what is no number stays.
pub fn clamp(bits: u32, low: u32, high: u32) -> (result: u32)
    requires
        !is_nan(low),
        !is_nan(high),
        !less(high, low),
    ensures
        result == clamped(bits, low, high),
{
    if is_less(bits, low) {
        low
    } else if is_less(high, bits) {
        high
    } else {
        bits
    }
}

/// No number is less than itself, and what is less than a lesser number is less.
pub proof fn less_is_an_order(a: u32, b: u32, c: u32)
    ensures
        !less(a, a),
        less(a, b) ==> !less(b, a),
        less(a, b) && less(b, c) ==> less(a, c),
{
}

/// A number that was moved into a range lies in it, and stays where it is when
/// it is moved there again.
pub proof fn clamping_twice_is_clamping_once(bits: u32, low: u32, high: u32)
    requires
        !is_nan(low),
        !is_nan(high),
        !less(high, low),
    ensures
        clamped(clamped(bits, low, high), low, high) == clamped(bits, low, high),
        !less(clamped(bits, low, high), low),
        !less(high, clamped(bits, low, high)),
{
}

/// Numbers without a sign are ordered as their bits, numbers with one the other
/// way round, and those with a sign come before those without; both zeros are equal.
pub proof fn numbers_are_ordered_by_bits(a: u32, b: u32)
    ensures
        a <= 0x7f80_0000 && b <= 0x7f80_0000 ==> (less(a, b) <==> a < b) && (equal(a, b) <==> a
            == b),
        0x8000_0000 <= a <= 0xff80_0000 && 0x8000_0000 <= b <= 0xff80_0000 ==> (less(a, b) <==> a
            > b) && (equal(a, b) <==> a == b),
        0x8000_0000 < a <= 0xff80_0000 && b <= 0x7f80_0000 ==> less(a, b) && !less(b, a),
        equal(0, 0x8000_0000) && !less(0, 0x8000_0000) && !less(0x8000_0000, 0),
        is_nan(a) <==> 0x7f80_0000 < a < 0x8000_0000 || a > 0xff80_0000,
        is_nan(a) || is_nan(b) ==> !less(a, b) && !equal(a, b),
{
}

/// A number within the range stays; one below becomes the lower end, one above the upper end.
pub proof fn clamping_moves_to_the_nearer_end(bits: u32, low: u32, high: u32)
    requires
        !is_nan(low),
        !is_nan(high),
        !less(high, low),
    ensures
        less(bits, low) ==> clamped(bits, low, high) == low,
        less(high, bits) ==> clamped(bits, low, high) == high,
        !less(bits, low) && !less(high, bits) ==> clamped(bits, low, high) == bits,
{
}

} // verus!
