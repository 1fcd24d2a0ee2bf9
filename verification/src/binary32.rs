//! Whole numbers rounded as binary32 rounds them: to 24 significant bits, ties
//! to the even neighbour. A binary32 value that is a multiple of some power of
//! two is held here as that many units of it.

use crate::sizes::{half_even, half_even_of};
use vstd::arithmetic::div_mod::*;
use vstd::arithmetic::mul::*;
use vstd::prelude::*;

verus! {

/// The weight of the last of the 24 bits that `n` keeps.
pub open spec fn unit24(n: nat) -> nat
    decreases n,
{
    if n < 0x100_0000 {
        1
    } else {
        2 * unit24(n / 2)
    }
}

/// `n` with 24 significant bits.
pub open spec fn rounded24(n: nat) -> nat {
    half_even(n, unit24(n)) * unit24(n)
}

/// A signed number with 24 significant bits.
pub open spec fn signed24(n: int) -> int {
    if n < 0 {
        -(rounded24((-n) as nat) as int)
    } else {
        rounded24(n as nat) as int
    }
}

/// The kept bits are 24 where there are so many.
pub proof fn unit24_bounds(n: nat)
    ensures
        1 <= unit24(n),
        n < 0x100_0000 * unit24(n),
        n >= 0x100_0000 ==> 0x80_0000 * unit24(n) <= n,
    decreases n,
{
    if n >= 0x100_0000 {
        unit24_bounds(n / 2);
        if n / 2 < 0x100_0000 {
            assert(unit24(n / 2) == 1);
        }
    }
}

/// Numbers below two to the 24th are kept as they are.
pub proof fn small_numbers_are_exact(n: nat)
    requires
        n < 0x100_0000,
    ensures
        rounded24(n) == n,
{
    assert(unit24(n) == 1);
    assert(n as int / 1 == n && n as int % 1 == 0);
    assert(half_even(n, 1) == n);
    assert(n * 1 == n);
}

/// Rounding adds at most the weight of the last bit.
pub proof fn rounded24_bound(n: nat)
    ensures
        rounded24(n) <= n + unit24(n),
        rounded24(n) <= n + n / 0x80_0000,
{
    unit24_bounds(n);
    let u = unit24(n);
    let whole = n / u;
    assert(whole * u <= n) by (nonlinear_arith)
        requires
            whole == n / u,
            u > 0,
    ;
    assert((whole + 1) * u == whole * u + u) by (nonlinear_arith);
    if n < 0x100_0000 {
        small_numbers_are_exact(n);
    }
}

/// Rounds to 24 significant bits.
pub fn round24(n: u128) -> (result: u128)
    requires
        n < 0x10_0000_0000_0000_0000_0000_0000_0000,
    ensures
        result == rounded24(n as nat),
        result <= n + n / 0x80_0000,
{
    let mut rest: u128 = n;
    let mut unit: u128 = 1;
    while rest >= 0x100_0000
        invariant
            unit >= 1,
            unit * unit24(rest as nat) == unit24(n as nat),
            rest * unit <= n,
            n < 0x10_0000_0000_0000_0000_0000_0000_0000,
        decreases rest,
    {
        assert(unit * (2 * unit24((rest / 2) as nat)) == (unit * 2) * unit24((rest / 2) as nat))
            by (nonlinear_arith);
        assert((rest / 2) * (unit * 2) <= rest * unit) by (nonlinear_arith)
            requires
                rest >= 0,
                unit >= 0,
        ;
        assert(unit * 2 <= n) by (nonlinear_arith)
            requires
                rest * unit <= n,
                rest >= 2,
                unit >= 1,
        ;
        rest = rest / 2;
        unit = unit * 2;
    }
    proof {
        unit24_bounds(n as nat);
        rounded24_bound(n as nat);
        assert(unit24(rest as nat) == 1);
        assert(unit * unit24(rest as nat) == unit) by (nonlinear_arith)
            requires
                unit24(rest as nat) == 1,
        ;
        if n < 0x100_0000 {
            assert(unit == 1);
        }
    }
    let kept: u128 = half_even_of(n, unit);
    kept * unit
}

/// Rounds a signed number to 24 significant bits.
pub fn round_signed24(n: i128) -> (result: i128)
    requires
        -0x10_0000_0000_0000_0000_0000_0000_0000 < n < 0x10_0000_0000_0000_0000_0000_0000_0000,
    ensures
        result == signed24(n as int),
        n <= 0 ==> n - (-n) / 0x80_0000 <= result <= 0,
        n >= 0 ==> 0 <= result <= n + n as int / 0x80_0000,
{
    if n < 0 {
        let size: u128 = round24((-n) as u128);
        -(size as i128)
    } else {
        round24(n as u128) as i128
    }
}

// ---- square roots ----------------------------------------------------------------------

pub open spec fn is_root(n: nat, r: nat) -> bool {
    r * r <= n < (r + 1) * (r + 1)
}

/// The largest number whose square is at most `n`.
pub open spec fn floor_root(n: nat) -> nat {
    choose|r: nat| is_root(n, r)
}

proof fn root_is_unique(n: nat, a: nat, b: nat)
    requires
        is_root(n, a),
        is_root(n, b),
    ensures
        a == b,
{
    if a < b {
        assert((a + 1) * (a + 1) <= b * b) by (nonlinear_arith)
            requires
                a + 1 <= b,
        ;
    }
    if b < a {
        assert((b + 1) * (b + 1) <= a * a) by (nonlinear_arith)
            requires
                b + 1 <= a,
        ;
    }
}

/// The largest number whose square is at most `n`.
pub fn root(n: u128) -> (r: u128)
    requires
        n < 0x40_0000_0000_0000_0000_0000_0000_0000,
    ensures
        r == floor_root(n as nat),
        is_root(n as nat, r as nat),
        r < 0x800_0000_0000_0000,
{
    let mut low: u128 = 0;
    let mut high: u128 = 0x800_0000_0000_0000;
    assert(high * high == 0x40_0000_0000_0000_0000_0000_0000_0000) by (nonlinear_arith)
        requires
            high == 0x800_0000_0000_0000,
    ;
    while high - low > 1
        invariant
            low < high <= 0x800_0000_0000_0000,
            low * low <= n,
            n < high * high,
        decreases high - low,
    {
        let middle: u128 = low + (high - low) / 2;
        assert(middle * middle < 0x40_0000_0000_0000_0000_0000_0000_0000) by (nonlinear_arith)
            requires
                0 <= middle < 0x800_0000_0000_0000,
        ;
        if middle * middle <= n {
            low = middle;
        } else {
            high = middle;
        }
    }
    assert(is_root(n as nat, low as nat));
    assert(is_root(n as nat, floor_root(n as nat)));
    proof {
        root_is_unique(n as nat, low as nat, floor_root(n as nat));
    }
    low
}

/// The square root of `quarters` quarters with 24 significant bits, in units
/// of two to the power of minus 24.
pub open spec fn root24(quarters: nat) -> nat {
    let twice = floor_root(quarters * 0x1_0000_0000_0000);
    let unit = unit24(twice / 2);
    ((twice / unit + 1) / 2) * unit
}

/// The root of a number of quarters.
pub fn root_of_quarters(quarters: u128) -> (result: u128)
    requires
        quarters <= 0x20_0000_0000_0000_0000,
    ensures
        result == root24(quarters as nat),
        result <= 0x1000_0000_0000_0000,
{
    let scaled: u128 = quarters * 0x1_0000_0000_0000;
    let twice: u128 = root(scaled);
    let mut rest: u128 = twice / 2;
    let ghost half = rest as nat;
    let mut unit: u128 = 1;
    while rest >= 0x100_0000
        invariant
            unit >= 1,
            unit * unit24(rest as nat) == unit24(half),
            rest * unit <= half,
            half < 0x800_0000_0000_0000,
        decreases rest,
    {
        assert(unit * (2 * unit24((rest / 2) as nat)) == (unit * 2) * unit24((rest / 2) as nat))
            by (nonlinear_arith);
        assert((rest / 2) * (unit * 2) <= rest * unit) by (nonlinear_arith)
            requires
                rest >= 0,
                unit >= 0,
        ;
        assert(unit * 2 <= half) by (nonlinear_arith)
            requires
                rest * unit <= half,
                rest >= 2,
                unit >= 1,
        ;
        rest = rest / 2;
        unit = unit * 2;
    }
    assert(unit24(rest as nat) == 1);
    assert(unit * unit24(rest as nat) == unit) by (nonlinear_arith)
        requires
            unit24(rest as nat) == 1,
    ;
    proof {
        unit24_bounds(half);
        let kept = (twice / unit + 1) / 2;
        let whole = twice / unit;
        assert(whole * unit <= twice) by (nonlinear_arith)
            requires
                whole == twice / unit,
                unit > 0,
        ;
        assert(kept <= whole + 1);
        assert(kept * unit <= (whole + 1) * unit) by (nonlinear_arith)
            requires
                kept <= whole + 1,
                unit > 0,
        ;
        assert((whole + 1) * unit == whole * unit + unit) by (nonlinear_arith);
        assert(unit <= 0x800_0000_0000_0000);
    }
    ((twice / unit + 1) / 2) * unit
}

} // verus!
