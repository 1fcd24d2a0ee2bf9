//! IEEE 754 binary64 numbers, held as their bit patterns.
//!
//! Scales, pointer coordinates and gesture deltas arrive as floating-point
//! numbers. Here each is the 64-bit pattern of its encoding, and what is
//! computed from it is stated over integers: a finite number is
//! `significand * 2^(exponent - 1075)`, with its sign.

use crate::num::saturated;
use vstd::arithmetic::power2::*;
use crate::sizes::{half_even, half_even_of};
use vstd::prelude::*;

verus! {

pub const HALF: u64 = 0x3fe0_0000_0000_0000;

pub const ONE: u64 = 0x3ff0_0000_0000_0000;

pub const FOUR: u64 = 0x4010_0000_0000_0000;

pub open spec fn negative(bits: u64) -> bool {
    bits >= 0x8000_0000_0000_0000
}

/// The pattern without its sign.
pub open spec fn unsigned(bits: u64) -> int {
    if negative(bits) {
        bits - 0x8000_0000_0000_0000
    } else {
        bits as int
    }
}

/// The exponent field.
pub open spec fn exponent_field(bits: u64) -> int {
    unsigned(bits) / 0x10_0000_0000_0000
}

/// The fraction field.
pub open spec fn fraction_field(bits: u64) -> int {
    unsigned(bits) % 0x10_0000_0000_0000
}

pub open spec fn finite(bits: u64) -> bool {
    exponent_field(bits) != 2047
}

pub open spec fn not_a_number(bits: u64) -> bool {
    exponent_field(bits) == 2047 && fraction_field(bits) != 0
}

/// The exponent of a finite number, counted so that the number is
/// `significand * 2^(exponent - 1075)`.
pub open spec fn exponent(bits: u64) -> int {
    if exponent_field(bits) == 0 {
        1
    } else {
        exponent_field(bits)
    }
}

pub open spec fn significand(bits: u64) -> int {
    if exponent_field(bits) == 0 {
        fraction_field(bits)
    } else {
        fraction_field(bits) + 0x10_0000_0000_0000
    }
}

/// The place of a number in the order of all numbers: of two that are not
/// NaN, the smaller has the smaller ordinal, and equal ones have the same.
pub open spec fn ordinal(bits: u64) -> int {
    if negative(bits) {
        -unsigned(bits)
    } else {
        unsigned(bits)
    }
}

/// Equality of the numbers: NaN equals nothing, and both zeros are one.
pub open spec fn equal(a: u64, b: u64) -> bool {
    !not_a_number(a) && !not_a_number(b) && ordinal(a) == ordinal(b)
}

/// `bits` moved into the range from `low` to `high`.
pub open spec fn within(bits: u64, low: u64, high: u64) -> u64 {
    if ordinal(bits) < ordinal(low) {
        low
    } else if ordinal(bits) > ordinal(high) {
        high
    } else {
        bits
    }
}

pub fn is_negative(bits: u64) -> (yes: bool)
    ensures
        yes == negative(bits),
{
    bits >= 0x8000_0000_0000_0000
}

fn unsigned_of(bits: u64) -> (magnitude: u64)
    ensures
        magnitude == unsigned(bits),
        magnitude < 0x8000_0000_0000_0000,
{
    if bits >= 0x8000_0000_0000_0000 {
        bits - 0x8000_0000_0000_0000
    } else {
        bits
    }
}

pub fn is_finite(bits: u64) -> (yes: bool)
    ensures
        yes == finite(bits),
{
    unsigned_of(bits) / 0x10_0000_0000_0000 != 2047
}

pub fn is_nan(bits: u64) -> (yes: bool)
    ensures
        yes == not_a_number(bits),
{
    let magnitude: u64 = unsigned_of(bits);
    magnitude / 0x10_0000_0000_0000 == 2047 && magnitude % 0x10_0000_0000_0000 != 0
}

fn ordinal_of(bits: u64) -> (place: i64)
    ensures
        place == ordinal(bits),
{
    if is_negative(bits) {
        -(unsigned_of(bits) as i64)
    } else {
        unsigned_of(bits) as i64
    }
}

pub fn is_equal(a: u64, b: u64) -> (yes: bool)
    ensures
        yes == equal(a, b),
{
    !is_nan(a) && !is_nan(b) && ordinal_of(a) == ordinal_of(b)
}

/// `bits` moved into the range from `low` to `high`.
pub fn clamp(bits: u64, low: u64, high: u64) -> (result: u64)
    ensures
        result == within(bits, low, high),
{
    if ordinal_of(bits) < ordinal_of(low) {
        low
    } else if ordinal_of(bits) > ordinal_of(high) {
        high
    } else {
        bits
    }
}

fn power_of_two(e: u32) -> (power: u128)
    requires
        e < 128,
    ensures
        power == pow2(e as nat),
        power > 0,
{
    let mut power: u128 = 1;
    let mut i: u32 = 0;
    proof {
        lemma2_to64();
        power_of_two_fits();
    }
    while i < e
        invariant
            i <= e < 128,
            power == pow2(i as nat),
            pow2(127) == 0x8000_0000_0000_0000_0000_0000_0000_0000,
        decreases e - i,
    {
        proof {
            lemma_pow2_unfold((i + 1) as nat);
            if i + 1 < 127 {
                lemma_pow2_strictly_increases((i + 1) as nat, 127);
            }
        }
        power = power * 2;
        i += 1;
    }
    proof {
        lemma_pow2_pos(e as nat);
    }
    power
}

proof fn power_of_two_fits()
    ensures
        pow2(127) == 0x8000_0000_0000_0000_0000_0000_0000_0000,
{
    lemma2_to64_rest();
    lemma2_to64();
    lemma_pow2_adds(64, 63);
    assert(0x1_0000_0000_0000_0000 * 0x8000_0000_0000_0000
        == 0x8000_0000_0000_0000_0000_0000_0000_0000) by (nonlinear_arith);
}

// ---- a length divided by a scale ----------------------------------------

/// The largest power of two that is at most `n`, for a positive `n`.
pub open spec fn top_power(n: nat) -> nat
    decreases n,
{
    if n < 2 {
        1
    } else {
        2 * top_power(n / 2)
    }
}

/// The ceiling of the binary64 quotient `over / under`, as a 32-bit number.
///
/// The quotient is first rounded to 53 significant bits. An exact whole number
/// stays; one that exceeds a whole number by at most half a unit in its last
/// place is rounded to that number, and any other goes up to the next.
pub open spec fn rounded_up(over: nat, under: nat) -> int {
    let whole = over / under;
    let rest = over % under;
    let up = if rest == 0 {
        whole as int
    } else if whole > 0 && rest * 0x20_0000_0000_0000 <= under * top_power(whole) {
        whole as int
    } else {
        (whole + 1) as int
    };
    saturated(up)
}

/// `ceil(length / scale)` in binary64 arithmetic, as a 32-bit number of at
/// least one, for a positive whole `length`.
pub open spec fn scaled_length(length: int, scale: u64) -> int {
    if !finite(scale) || negative(scale) {
        1
    } else if significand(scale) == 0 {
        i32::MAX as int
    } else {
        let power = exponent(scale) - 1075;
        if power < 0 {
            rounded_up(
                (length * pow2((-power) as nat)) as nat,
                significand(scale) as nat,
            )
        } else {
            rounded_up(length as nat, (significand(scale) * pow2(power as nat)) as nat)
        }
    }
}

pub fn top_power_of(n: u64) -> (power: u64)
    ensures
        power == top_power(n as nat),
        n > 0 ==> power <= n,
    decreases n,
{
    if n < 2 {
        1
    } else {
        let half: u64 = top_power_of(n / 2);
        2 * half
    }
}

/// `ceil(length / scale)` as a 32-bit number of at least one.
pub fn scale_length(length: i32, scale: u64) -> (result: i32)
    requires
        length > 0,
    ensures
        result == (if scaled_length(length as int, scale) < 1 {
            1
        } else {
            scaled_length(length as int, scale)
        }),
{
    if !is_finite(scale) || is_negative(scale) {
        return 1;
    }
    let field: u64 = scale / 0x10_0000_0000_0000;
    let fraction: u64 = scale % 0x10_0000_0000_0000;
    let exponent_value: u64 = if field == 0 {
        1
    } else {
        field
    };
    let digits: u64 = if field == 0 {
        fraction
    } else {
        fraction + 0x10_0000_0000_0000
    };
    assert(digits == significand(scale));
    assert(exponent_value == exponent(scale));
    if digits == 0 {
        return i32::MAX;
    }
    if exponent_value >= 1075 {
        proof {
            lemma_pow2_pos((exponent(scale) - 1075) as nat);
            let under = significand(scale) * pow2((exponent(scale) - 1075) as nat);
            assert(under >= 0x10_0000_0000_0000) by (nonlinear_arith)
                requires
                    under == significand(scale) * pow2((exponent(scale) - 1075) as nat),
                    significand(scale) >= 0x10_0000_0000_0000,
                    pow2((exponent(scale) - 1075) as nat) >= 1,
            ;
            assert(length as int / under == 0 && length as int % under == length) by (nonlinear_arith)
                requires
                    0 < length < under,
            ;
        }
        return 1;
    }
    let shift: u64 = 1075 - exponent_value;
    if shift >= 85 {
        proof {
            let over = length * pow2(shift as nat);
            lemma_pow2_adds(64, 21);
            lemma2_to64();
            lemma2_to64_rest();
            if shift > 85 {
                lemma_pow2_strictly_increases(85, shift as nat);
            }
            assert(over >= pow2(85)) by (nonlinear_arith)
                requires
                    over == length * pow2(shift as nat),
                    length >= 1,
                    pow2(shift as nat) >= pow2(85),
            ;
            assert(pow2(85) == 0x20_0000_0000_0000 * 0x1_0000_0000) by (nonlinear_arith)
                requires
                    pow2(85) == 0x1_0000_0000_0000_0000 * 0x20_0000,
            ;
            assert(over / significand(scale) >= 0x1_0000_0000) by (nonlinear_arith)
                requires
                    over >= 0x20_0000_0000_0000 * 0x1_0000_0000,
                    0 < significand(scale) < 0x20_0000_0000_0000,
            ;
        }
        return i32::MAX;
    }
    let power: u128 = power_of_two(shift as u32);
    proof {
        lemma_pow2_strictly_increases(shift as nat, 85);
        lemma_pow2_adds(64, 21);
        lemma2_to64();
        lemma2_to64_rest();
        assert(length * power < 0x1_0000_0000_0000_0000_0000_0000_0000_0000) by (nonlinear_arith)
            requires
                0 < length <= 0x7fff_ffff,
                0 < power < 0x1_0000_0000_0000_0000 * 0x20_0000,
        ;
        assert(length * power < 0x8000_0000 * (0x1_0000_0000_0000_0000 * 0x20_0000))
            by (nonlinear_arith)
            requires
                0 < length <= 0x7fff_ffff,
                0 < power < 0x1_0000_0000_0000_0000 * 0x20_0000,
        ;
    }
    let over: u128 = length as u128 * power;
    let result: i32 = round_up(over, digits);
    if result < 1 {
        1
    } else {
        result
    }
}

fn round_up(over: u128, under: u64) -> (result: i32)
    requires
        0 < under < 0x20_0000_0000_0000,
    ensures
        result == rounded_up(over as nat, under as nat),
{
    let whole: u128 = over / (under as u128);
    let rest: u64 = (over % (under as u128)) as u64;
    if whole > 0x7fff_ffff {
        return i32::MAX;
    }
    let whole: u64 = whole as u64;
    if rest == 0 {
        return whole as i32;
    }
    let top: u64 = top_power_of(whole);
    proof {
        assert(rest * 0x20_0000_0000_0000 < 0x20_0000_0000_0000 * 0x20_0000_0000_0000)
            by (nonlinear_arith)
            requires
                0 <= rest < 0x20_0000_0000_0000,
        ;
        assert(whole > 0 ==> under * top < 0x20_0000_0000_0000 * 0x8000_0000) by (nonlinear_arith)
            requires
                0 < under < 0x20_0000_0000_0000,
                whole > 0 ==> top <= 0x7fff_ffff,
                top >= 0,
        ;
    }
    if whole > 0 && rest as u128 * 0x20_0000_0000_0000 <= under as u128 * top as u128 {
        whole as i32
    } else if whole == 0x7fff_ffff {
        i32::MAX
    } else {
        (whole + 1) as i32
    }
}

// ---- rounding to a whole number ------------------------------------------

/// The whole number nearest to the size of a finite number, halves going up.
pub open spec fn rounded_size(bits: u64) -> int {
    let power = exponent(bits) - 1075;
    if power >= 0 {
        significand(bits) * pow2(power as nat)
    } else {
        ((2 * significand(bits) + pow2((-power) as nat)) / (2 * pow2((-power) as nat)) as int) as int
    }
}

/// A finite number rounded to the nearest whole one, halves going away from
/// zero.
pub open spec fn rounded(bits: u64) -> int {
    if negative(bits) {
        -rounded_size(bits)
    } else {
        rounded_size(bits)
    }
}

/// A finite number, rounded and kept within 32 bits.
pub fn round_to_i32(bits: u64) -> (result: i32)
    requires
        finite(bits),
    ensures
        result == saturated(rounded(bits)),
{
    let magnitude: u64 = unsigned_of(bits);
    let field: u64 = magnitude / 0x10_0000_0000_0000;
    let fraction: u64 = magnitude % 0x10_0000_0000_0000;
    let exponent_value: u64 = if field == 0 {
        1
    } else {
        field
    };
    let digits: u64 = if field == 0 {
        fraction
    } else {
        fraction + 0x10_0000_0000_0000
    };
    assert(digits == significand(bits));
    assert(exponent_value == exponent(bits));
    if exponent_value >= 1075 {
        proof {
            lemma_pow2_pos((exponent(bits) - 1075) as nat);
            assert(significand(bits) * pow2((exponent(bits) - 1075) as nat) >= 0x10_0000_0000_0000)
                by (nonlinear_arith)
                requires
                    significand(bits) >= 0x10_0000_0000_0000,
                    pow2((exponent(bits) - 1075) as nat) >= 1,
            ;
        }
        return if is_negative(bits) {
            i32::MIN
        } else {
            i32::MAX
        };
    }
    let shift: u64 = 1075 - exponent_value;
    if shift >= 55 {
        proof {
            lemma2_to64();
            lemma2_to64_rest();
            if shift > 55 {
                lemma_pow2_strictly_increases(55, shift as nat);
            }
            let over = 2 * significand(bits) + pow2(shift as nat);
            let under = 2 * pow2(shift as nat);
            assert(over / under as int == 0) by (nonlinear_arith)
                requires
                    0 <= over < under,
            ;
        }
        return 0;
    }
    let power: u128 = power_of_two(shift as u32);
    proof {
        lemma2_to64();
        lemma2_to64_rest();
        lemma_pow2_strictly_increases(shift as nat, 55);
    }
    let size: u128 = (2 * (digits as u128) + power) / (2 * power);
    proof {
        let over = 2 * digits + power;
        assert(over / (2 * power) <= over) by (nonlinear_arith)
            requires
                over >= 0,
                power >= 1,
        ;
    }
    if is_negative(bits) {
        if size >= 0x8000_0000 {
            i32::MIN
        } else {
            (-(size as i64)) as i32
        }
    } else {
        if size >= 0x7fff_ffff {
            i32::MAX
        } else {
            size as i32
        }
    }
}

// ---- whole numbers ---------------------------------------------------------------------

/// The weight of the last of the 53 bits that `n` keeps.
pub open spec fn unit53(n: nat) -> nat
    decreases n,
{
    if n < 0x20_0000_0000_0000 {
        1
    } else {
        2 * unit53(n / 2)
    }
}

/// `n` with 53 significant bits, ties to the even neighbour.
pub open spec fn rounded53(n: nat) -> nat {
    half_even(n, unit53(n)) * unit53(n)
}

/// The binary64 value nearest to a whole number.
pub fn round53(n: u64) -> (result: u128)
    ensures
        result == rounded53(n as nat),
        result <= 2 * n,
        n < 0x20_0000_0000_0000 ==> result == n,
{
    let mut rest: u64 = n;
    let mut unit: u64 = 1;
    while rest >= 0x20_0000_0000_0000
        invariant
            unit >= 1,
            unit * unit53(rest as nat) == unit53(n as nat),
            rest * unit <= n,
            rest >= 1 || unit == 1,
            n < 0x20_0000_0000_0000 ==> unit == 1 && rest == n,
        decreases rest,
    {
        assert(unit * (2 * unit53((rest / 2) as nat)) == (unit * 2) * unit53((rest / 2) as nat))
            by (nonlinear_arith);
        assert((rest / 2) * (unit * 2) <= rest * unit) by (nonlinear_arith)
            requires
                rest >= 0,
                unit >= 0,
        ;
        assert(unit * 2 <= n) by (nonlinear_arith)
            requires
                rest * unit <= n,
                rest >= 2,
                unit >= 1,
        ;
        rest = rest / 2;
        unit = unit * 2;
    }
    proof {
        assert(unit53(rest as nat) == 1);
        assert(unit * unit53(rest as nat) == unit) by (nonlinear_arith)
            requires
                unit53(rest as nat) == 1,
        ;
        let whole = n as int / unit as int;
        assert(whole * unit <= n) by (nonlinear_arith)
            requires
                whole == n as int / unit as int,
                unit > 0,
        ;
        assert((whole + 1) * unit == whole * unit + unit) by (nonlinear_arith);
        if unit == 1 {
            assert(n as int / 1 == n && n as int % 1 == 0);
        }
        assert(unit <= n || unit == 1) by (nonlinear_arith)
            requires
                rest * unit <= n,
                unit >= 1,
                rest >= 1 || unit == 1,
        ;
    }
    let kept: u128 = half_even_of(n as u128, unit as u128);
    proof {
        assert(kept * unit <= (n as int / unit as int + 1) * unit) by (nonlinear_arith)
            requires
                kept <= n as int / unit as int + 1,
                unit > 0,
        ;
    }
    kept * unit as u128
}

// ---- laws ------------------------------------------------------------------------------

/// Which bit patterns are finite, infinite and no numbers, on either side of
/// zero; and how numbers are ordered.
pub proof fn patterns_are_these(bits: u64, a: u64, b: u64)
    ensures
        negative(bits) <==> bits >= 0x8000_0000_0000_0000,
        finite(bits) <==> bits < 0x7ff0_0000_0000_0000 || 0x8000_0000_0000_0000 <= bits
            < 0xfff0_0000_0000_0000,
        not_a_number(bits) <==> 0x7ff0_0000_0000_0000 < bits < 0x8000_0000_0000_0000 || bits
            > 0xfff0_0000_0000_0000,
        a < b < 0x8000_0000_0000_0000 ==> ordinal(a) < ordinal(b),
        0x8000_0000_0000_0000 < a < b ==> ordinal(a) > ordinal(b),
        ordinal(0) == 0 && ordinal(0x8000_0000_0000_0000) == 0,
        equal(bits, bits) <==> !not_a_number(bits),
        equal(a, b) ==> a == b || (unsigned(a) == 0 && unsigned(b) == 0),
{
}

/// A clamped number lies between its limits, and one that lay there stays.
pub proof fn clamped_numbers_lie_between(bits: u64, low: u64, high: u64)
    requires
        ordinal(low) <= ordinal(high),
    ensures
        ordinal(low) <= ordinal(within(bits, low, high)) <= ordinal(high),
        ordinal(low) <= ordinal(bits) <= ordinal(high) ==> within(bits, low, high) == bits,
        ordinal(bits) < ordinal(low) ==> within(bits, low, high) == low,
        ordinal(bits) > ordinal(high) ==> within(bits, low, high) == high,
{
}

/// A number of 52 fraction bits is rounded to the nearest whole number, halves
/// away from zero, and its sign is kept.
pub proof fn rounding_goes_to_the_nearest(bits: u64)
    ensures
        ({
            let power = exponent(bits) - 1075;
            let size = rounded_size(bits);
            &&& rounded(bits) == (if negative(bits) {
                -size
            } else {
                size
            })
            &&& power >= 0 ==> size == significand(bits) * pow2(power as nat)
            &&& power < 0 ==> {
                let one = pow2((-power) as nat) as int;
                (2 * size - 1) * one <= 2 * significand(bits) < (2 * size + 1) * one
            }
        }),
{
    let power = exponent(bits) - 1075;
    if power < 0 {
        let one = pow2((-power) as nat) as int;
        lemma_pow2_pos((-power) as nat);
        let over = 2 * significand(bits) + one;
        let size = rounded_size(bits);
        vstd::arithmetic::div_mod::lemma_fundamental_div_mod(over, 2 * one);
        vstd::arithmetic::div_mod::lemma_mod_bound(over, 2 * one);
        assert(size == over / (2 * one));
        assert((2 * one) * size <= over < (2 * one) * size + 2 * one);
        assert((2 * size - 1) * one == (2 * one) * size - one) by (nonlinear_arith);
        assert((2 * size + 1) * one == (2 * one) * size + one) by (nonlinear_arith);
    }
}

/// A quotient that is rounded up is the whole one where it divides, and else at
/// most one more; it stays within 32 bits.
pub proof fn rounding_up_adds_at_most_one(over: nat, under: nat)
    requires
        under > 0,
        over / under < i32::MAX,
    ensures
        over % under == 0 ==> rounded_up(over, under) == over / under,
        over / under <= rounded_up(over, under) <= over / under + 1,
        over < under && over > 0 ==> rounded_up(over, under) == 1,
{
    if over < under {
        vstd::arithmetic::div_mod::lemma_basic_div(over as int, under as int);
        vstd::arithmetic::div_mod::lemma_small_mod(over, under);
    }
}

/// A length is kept at scale one, doubled at scale one half, and at scale two
/// halved and rounded up.
pub proof fn lengths_are_divided_by_their_scale(length: int)
    requires
        0 < length <= 0x3fff_ffff,
    ensures
        scaled_length(length, 0x3ff0_0000_0000_0000) == length,
        scaled_length(length, 0x3fe0_0000_0000_0000) == 2 * length,
        scaled_length(length, 0x4000_0000_0000_0000) == (length + 1) / 2,
{
    lemma2_to64();
    lemma2_to64_rest();
    let one: u64 = 0x3ff0_0000_0000_0000;
    let half: u64 = 0x3fe0_0000_0000_0000;
    let two: u64 = 0x4000_0000_0000_0000;
    let under: nat = 0x10_0000_0000_0000;
    assert(exponent(one) == 1023 && significand(one) == under);
    assert(exponent(half) == 1022 && significand(half) == under);
    assert(exponent(two) == 1024 && significand(two) == under);
    let same = (length * 0x10_0000_0000_0000) as nat;
    assert(same / under == length && same % under == 0);
    assert(scaled_length(length, one) == rounded_up(same, under));
    let twice = (length * 0x20_0000_0000_0000) as nat;
    assert(twice / under == 2 * length && twice % under == 0);
    assert(scaled_length(length, half) == rounded_up(twice, under));
    let less = (length * 0x8_0000_0000_0000) as nat;
    let whole = less / under;
    assert(whole == length / 2 && less % under == (length % 2) * 0x8_0000_0000_0000);
    assert(scaled_length(length, two) == rounded_up(less, under));
    if whole > 0 {
        top_powers_are_no_more(whole);
    }
}

proof fn top_powers_are_no_more(n: nat)
    requires
        n > 0,
    ensures
        top_power(n) <= n,
    decreases n,
{
    if n >= 2 {
        top_powers_are_no_more(n / 2);
    }
}

} // verus!
