//! Arithmetic on decimal digits, most significant digit first.

use crate::output_discovery::power_of_ten;
use vstd::arithmetic::power2::*;
use vstd::prelude::*;

verus! {

/// The number that digits write.
pub open spec fn written(digits: Seq<u8>) -> nat
    decreases digits.len(),
{
    if digits.len() == 0 {
        0
    } else {
        written(digits.drop_last()) * 10 + digits.last() as nat
    }
}

pub open spec fn are_digits(digits: Seq<u8>) -> bool {
    forall|i: int| 0 <= i < digits.len() ==> #[trigger] digits[i] <= 9
}

pub proof fn powers_are_positive(n: nat)
    ensures
        power_of_ten(n) >= 1,
    decreases n,
{
    if n > 0 {
        powers_are_positive((n - 1) as nat);
    }
}

pub proof fn powers_multiply(a: nat, b: nat)
    ensures
        power_of_ten(a + b) == power_of_ten(a) * power_of_ten(b),
    decreases a,
{
    if a > 0 {
        powers_multiply((a - 1) as nat, b);
        assert(10 * (power_of_ten((a - 1) as nat) * power_of_ten(b)) == (10 * power_of_ten(
            (a - 1) as nat,
        )) * power_of_ten(b)) by (nonlinear_arith);
    }
}

pub proof fn powers_grow(a: nat, b: nat)
    requires
        a <= b,
    ensures
        power_of_ten(a) <= power_of_ten(b),
{
    powers_multiply(a, (b - a) as nat);
    powers_are_positive(a);
    powers_are_positive((b - a) as nat);
    assert(power_of_ten(a) <= power_of_ten(a) * power_of_ten((b - a) as nat)) by (nonlinear_arith)
        requires
            power_of_ten(a) >= 1,
            power_of_ten((b - a) as nat) >= 1,
    ;
}

pub proof fn powers_of_two_are_less(n: nat)
    ensures
        pow2(n) <= power_of_ten(n),
    decreases n,
{
    if n == 0 {
        lemma2_to64();
    } else {
        lemma_pow2_unfold(n);
        powers_of_two_are_less((n - 1) as nat);
    }
}

pub proof fn digits_are_below_their_power(digits: Seq<u8>)
    requires
        are_digits(digits),
    ensures
        written(digits) < power_of_ten(digits.len()),
    decreases digits.len(),
{
    if digits.len() > 0 {
        let rest = digits.drop_last();
        assert forall|i: int| 0 <= i < rest.len() implies #[trigger] rest[i] <= 9 by {
            assert(rest[i] == digits[i]);
        }
        digits_are_below_their_power(rest);
        assert(digits.last() == digits[digits.len() - 1]);
    }
}

/// Digits written behind one another.
pub proof fn joined_digits(a: Seq<u8>, b: Seq<u8>)
    ensures
        written(a + b) == written(a) * power_of_ten(b.len()) + written(b),
    decreases b.len(),
{
    if b.len() == 0 {
        assert(a + b =~= a);
    } else {
        let rest = b.drop_last();
        joined_digits(a, rest);
        assert((a + b).drop_last() =~= a + rest);
        assert((a + b).last() == b.last());
        let power = power_of_ten(rest.len());
        assert((written(a) * power) * 10 == written(a) * (10 * power)) by (nonlinear_arith);
    }
}

pub open spec fn zeros(count: nat) -> Seq<u8> {
    Seq::new(count, |i: int| 0u8)
}

pub proof fn zeros_write_zero(count: nat)
    ensures
        written(zeros(count)) == 0,
    decreases count,
{
    if count > 0 {
        zeros_write_zero((count - 1) as nat);
        assert(zeros(count).drop_last() =~= zeros((count - 1) as nat));
        assert(zeros(count).last() == 0);
    }
}

/// A number whose first digit is not zero is at least that power of ten.
pub proof fn first_digits_count(digits: Seq<u8>)
    requires
        digits.len() > 0,
        digits[0] >= 1,
    ensures
        written(digits) >= power_of_ten((digits.len() - 1) as nat),
{
    let first = digits.subrange(0, 1);
    let rest = digits.subrange(1, digits.len() as int);
    joined_digits(first, rest);
    assert(digits =~= first + rest);
    assert(first.drop_last() =~= Seq::<u8>::empty());
    assert(first.last() == digits[0]);
    assert(written(first.drop_last()) == 0);
    assert(written(first) == digits[0] as nat);
    powers_are_positive(rest.len());
    assert(written(first) * power_of_ten(rest.len()) >= power_of_ten(rest.len())) by (nonlinear_arith)
        requires
            written(first) >= 1,
            power_of_ten(rest.len()) >= 1,
    ;
}

/// Only zeros write zero.
pub fn is_zero(digits: &Vec<u8>) -> (yes: bool)
    ensures
        yes == (written(digits@) == 0),
{
    let mut i: usize = 0;
    while i < digits.len()
        invariant
            i <= digits.len(),
            written(digits@.subrange(0, i as int)) == 0,
        decreases digits.len() - i,
    {
        let ghost next = digits@.subrange(0, i + 1);
        assert(next.drop_last() =~= digits@.subrange(0, i as int));
        assert(next.last() == digits@[i as int]);
        if digits[i] != 0 {
            proof {
                let rest = digits@.subrange(i + 1, digits@.len() as int);
                joined_digits(next, rest);
                assert(digits@ =~= next + rest);
                powers_are_positive(rest.len());
                assert(written(next) * power_of_ten(rest.len()) >= 1) by (nonlinear_arith)
                    requires
                        written(next) >= 1,
                        power_of_ten(rest.len()) >= 1,
                ;
            }
            return false;
        }
        i += 1;
    }
    assert(digits@.subrange(0, i as int) =~= digits@);
    true
}

/// Multiplies the digits in place; what does not fit comes back.
pub fn multiply(digits: &mut Vec<u8>, factor: u64) -> (carry: u64)
    requires
        1 <= factor <= 0x1_0000_0000_0000,
        are_digits(old(digits)@),
    ensures
        final(digits)@.len() == old(digits)@.len(),
        are_digits(final(digits)@),
        carry * power_of_ten(old(digits)@.len()) + written(final(digits)@) == written(old(digits)@)
            * factor,
        carry < factor,
{
    let ghost all = digits@;
    let ghost len = all.len();
    let mut i: usize = digits.len();
    let mut carry: u64 = 0;
    assert(all.subrange(len as int, len as int) =~= Seq::<u8>::empty());
    assert(written(Seq::<u8>::empty()) == 0);
    while i > 0
        invariant
            i <= digits.len(),
            digits.len() == len,
            all.len() == len,
            1 <= factor <= 0x1_0000_0000_0000,
            carry < factor,
            are_digits(all),
            are_digits(digits@),
            forall|k: int| 0 <= k < i ==> #[trigger] digits@[k] == all[k],
            carry * power_of_ten((len - i) as nat) + written(digits@.subrange(i as int, len as int))
                == written(all.subrange(i as int, len as int)) * factor,
        decreases i,
    {
        let ghost before = digits@;
        let ghost tail = digits@.subrange(i as int, len as int);
        let ghost rest = all.subrange(i as int, len as int);
        let at: usize = i - 1;
        let digit: u64 = digits[at] as u64;
        assert(digit == all[at as int]);
        assert(digit * factor <= 9 * factor) by (nonlinear_arith)
            requires
                digit <= 9,
        ;
        let product: u64 = digit * factor + carry;
        let low: u8 = (product % 10) as u8;
        digits.set(at, low);
        proof {
            let power = power_of_ten((len - i) as nat);
            let first = seq![low];
            let head = seq![all[at as int]];
            assert(first.drop_last() =~= Seq::<u8>::empty());
            assert(head.drop_last() =~= Seq::<u8>::empty());
            assert(written(Seq::<u8>::empty()) == 0);
            assert(first.last() == low && head.last() == all[at as int]);
            assert(written(first) == low as nat);
            assert(written(head) == all[at as int] as nat);
            assert(digits@.subrange(at as int, len as int) =~= first + tail);
            assert(all.subrange(at as int, len as int) =~= head + rest);
            joined_digits(first, tail);
            joined_digits(head, rest);
            assert(power_of_ten((len - at) as nat) == 10 * power);
            let next = product / 10;
            assert(next * (10 * power) + low * power == product * power) by (nonlinear_arith)
                requires
                    product == 10 * next + low,
            ;
            assert(product * power == (digit * power) * factor + carry * power)
                by (nonlinear_arith)
                requires
                    product == digit * factor + carry,
            ;
            assert((digit * power + written(rest)) * factor == (digit * power) * factor
                + written(rest) * factor) by (nonlinear_arith);
        }
        carry = product / 10;
        i = at;
    }
    assert(digits@.subrange(0, len as int) =~= digits@);
    assert(all.subrange(0, len as int) =~= all);
    carry
}

/// Doubles the digits in place; whether one does not fit comes back.
pub fn double(digits: &mut Vec<u8>) -> (carry: bool)
    requires
        are_digits(old(digits)@),
    ensures
        final(digits)@.len() == old(digits)@.len(),
        are_digits(final(digits)@),
        written(final(digits)@) + (if carry {
            power_of_ten(old(digits)@.len())
        } else {
            0
        }) == 2 * written(old(digits)@),
{
    let carry: u64 = multiply(digits, 2);
    proof {
        if carry == 1 {
            assert(carry * power_of_ten(old(digits)@.len()) == power_of_ten(old(digits)@.len()));
        } else {
            assert(carry * power_of_ten(old(digits)@.len()) == 0);
        }
    }
    carry == 1
}

/// Doubles a fraction `count` times; the whole part of the product comes back.
pub fn shift(digits: &mut Vec<u8>, count: u32) -> (whole: u64)
    requires
        are_digits(old(digits)@),
        count <= 60,
    ensures
        final(digits)@.len() == old(digits)@.len(),
        are_digits(final(digits)@),
        whole * power_of_ten(old(digits)@.len()) + written(final(digits)@) == written(old(digits)@)
            * pow2(count as nat),
        whole < pow2(count as nat),
{
    let ghost start = digits@;
    let ghost power = power_of_ten(start.len());
    let mut whole: u64 = 0;
    let mut i: u32 = 0;
    proof {
        lemma2_to64();
        lemma2_to64_rest();
    }
    while i < count
        invariant
            i <= count <= 60,
            are_digits(digits@),
            digits@.len() == start.len(),
            power == power_of_ten(start.len()),
            whole * power + written(digits@) == written(start) * pow2(i as nat),
            whole < pow2(i as nat),
            pow2(60) == 0x1000_0000_0000_0000,
        decreases count - i,
    {
        proof {
            lemma_pow2_unfold((i + 1) as nat);
            if i < 60 {
                lemma_pow2_strictly_increases(i as nat, 60);
            }
            assert(written(start) * (2 * pow2(i as nat)) == 2 * (written(start) * pow2(i as nat)))
                by (nonlinear_arith);
            assert((2 * whole) * power == 2 * (whole * power)) by (nonlinear_arith);
            assert((2 * whole + 1) * power == 2 * (whole * power) + power) by (nonlinear_arith);
        }
        let carry = double(digits);
        whole = if carry {
            2 * whole + 1
        } else {
            2 * whole
        };
        i += 1;
    }
    whole
}

/// Whether a fraction times two to the power `count` is more than one.
#[verifier::loop_isolation(false)]
pub fn exceeds_one(fraction: Vec<u8>, count: u32) -> (yes: bool)
    requires
        are_digits(fraction@),
        count >= 1,
    ensures
        yes == (written(fraction@) * pow2(count as nat) > power_of_ten(fraction@.len())),
{
    let ghost start = fraction@;
    let ghost power = power_of_ten(start.len());
    let mut digits = fraction;
    let mut i: u32 = 0;
    proof {
        lemma2_to64();
        digits_are_below_their_power(start);
    }
    while i < count
        invariant
            i <= count,
            are_digits(digits@),
            digits@.len() == start.len(),
            power == power_of_ten(start.len()),
            written(digits@) < power,
            written(digits@) == written(start) * pow2(i as nat),
        decreases count - i,
    {
        let ghost before = written(digits@);
        proof {
            lemma_pow2_unfold((i + 1) as nat);
            assert(written(start) * (2 * pow2(i as nat)) == 2 * (written(start) * pow2(i as nat)))
                by (nonlinear_arith);
        }
        let carry = double(&mut digits);
        proof {
            digits_are_below_their_power(digits@);
        }
        if carry {
            if i + 1 < count {
                proof {
                    let more = (count - i - 1) as nat;
                    lemma_pow2_adds((i + 1) as nat, more);
                    lemma_pow2_unfold(more);
                    lemma_pow2_pos((more - 1) as nat);
                    powers_are_positive(start.len());
                    let now = written(start) * pow2((i + 1) as nat);
                    assert(written(start) * (pow2((i + 1) as nat) * pow2(more)) == now * pow2(more))
                        by (nonlinear_arith)
                        requires
                            now == written(start) * pow2((i + 1) as nat),
                    ;
                    assert(now * pow2(more) >= 2 * power) by (nonlinear_arith)
                        requires
                            now >= power,
                            pow2(more) >= 2,
                            power >= 1,
                    ;
                }
                return true;
            }
            return !is_zero(&digits);
        }
        i += 1;
    }
    false
}

} // verus!
