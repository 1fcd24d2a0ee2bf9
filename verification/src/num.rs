//! Saturating arithmetic on signed coordinates.

use vstd::prelude::*;

verus! {

/// The 32-bit number closest to `x`.
pub open spec fn saturated(x: int) -> int {
    if x < i32::MIN {
        i32::MIN as int
    } else if x > i32::MAX {
        i32::MAX as int
    } else {
        x
    }
}

pub fn saturate(x: i64) -> (y: i32)
    ensures
        y == saturated(x as int),
{
    if x < -0x8000_0000 {
        i32::MIN
    } else if x > 0x7fff_ffff {
        i32::MAX
    } else {
        x as i32
    }
}

/// The sum of two coordinates, kept within 32 bits.
pub fn plus(a: i32, b: i32) -> (sum: i32)
    ensures
        sum == saturated(a + b),
{
    saturate(a as i64 + b as i64)
}

/// The difference of two coordinates, kept within 32 bits.
pub fn minus(a: i32, b: i32) -> (difference: i32)
    ensures
        difference == saturated(a - b),
{
    saturate(a as i64 - b as i64)
}

/// The product of two numbers, kept within 32 bits.
pub fn times(a: i32, b: i32) -> (product: i32)
    ensures
        product == saturated(a * b),
{
    assert(-0x4000_0000_0000_0000 <= a * b <= 0x4000_0000_0000_0000) by (nonlinear_arith)
        requires
            -0x8000_0000 <= a <= 0x7fff_ffff,
            -0x8000_0000 <= b <= 0x7fff_ffff,
    ;
    saturate(a as i64 * b as i64)
}

pub open spec fn larger(a: int, b: int) -> int {
    if a >= b {
        a
    } else {
        b
    }
}

pub open spec fn smaller(a: int, b: int) -> int {
    if a <= b {
        a
    } else {
        b
    }
}

pub fn max_i32(a: i32, b: i32) -> (m: i32)
    ensures
        m == larger(a as int, b as int),
{
    if a >= b {
        a
    } else {
        b
    }
}

pub fn min_i32(a: i32, b: i32) -> (m: i32)
    ensures
        m == smaller(a as int, b as int),
{
    if a <= b {
        a
    } else {
        b
    }
}

/// `x` moved into the range from `low` to `high`.
pub open spec fn clamped(x: int, low: int, high: int) -> int {
    if x < low {
        low
    } else if x > high {
        high
    } else {
        x
    }
}

pub open spec fn magnitude(x: int) -> nat {
    if x < 0 {
        (-x) as nat
    } else {
        x as nat
    }
}

pub fn magnitude_of(x: i64) -> (m: u64)
    ensures
        m == magnitude(x as int),
{
    if x < 0 {
        (-(x as i128)) as u64
    } else {
        x as u64
    }
}

// ---- laws ------------------------------------------------------------------------------

/// Saturation keeps every 32-bit number and moves any other to the nearer end
/// of the range.
pub proof fn saturation_moves_to_the_nearest(x: int, other: int)
    requires
        i32::MIN <= other <= i32::MAX,
    ensures
        i32::MIN <= saturated(x) <= i32::MAX,
        i32::MIN <= x <= i32::MAX ==> saturated(x) == x,
        magnitude(x - saturated(x)) <= magnitude(x - other),
{
}

/// The larger and the smaller of two numbers are those numbers, in order.
pub proof fn extremes_are_of_the_two(a: int, b: int)
    ensures
        larger(a, b) >= a && larger(a, b) >= b && (larger(a, b) == a || larger(a, b) == b),
        smaller(a, b) <= a && smaller(a, b) <= b && (smaller(a, b) == a || smaller(a, b) == b),
        larger(a, b) + smaller(a, b) == a + b,
{
}

/// Clamping keeps what is in the range and moves anything else to its end.
pub proof fn clamping_keeps_the_range(x: int, low: int, high: int)
    requires
        low <= high,
    ensures
        low <= clamped(x, low, high) <= high,
        low <= x <= high ==> clamped(x, low, high) == x,
        x < low ==> clamped(x, low, high) == low,
        x > high ==> clamped(x, low, high) == high,
        magnitude(x) == magnitude(-x),
        x >= 0 ==> magnitude(x) == x,
{
}

} // verus!
