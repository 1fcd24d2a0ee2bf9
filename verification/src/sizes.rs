//! Sizes as people write them, such as `2 MiB`.

use crate::binary64::{top_power, top_power_of};
use crate::decimals::{
    are_digits, digits_are_below_their_power, double, exceeds_one, first_digits_count, is_zero,
    joined_digits, multiply, powers_are_positive, powers_grow, powers_multiply,
    powers_of_two_are_less, shift, written, zeros, zeros_write_zero,
};
use crate::output_discovery::power_of_ten;
use crate::text::{
    chars_of, cut, cut_text, cuts_are_at_the_first_separator, cutting_undoes_joining, decimal,
    digits_value, is_digit, is_digits, lacks, lower_text, lowered,
    numbers_are_written_in_digits, parse_number, parsed, parsing_undoes_decimal, same, split_words,
    trim, trimmed, views, words,
};
use vstd::arithmetic::div_mod::*;
use vstd::arithmetic::power2::*;
use vstd::prelude::*;
use vstd::string::*;

verus! {

pub const KIBIBYTE: u64 = 1024;

pub const MEBIBYTE: u64 = 1_048_576;

pub const GIBIBYTE: u64 = 1_073_741_824;

pub const TEBIBYTE: u64 = 1_099_511_627_776;

/// How many bytes a unit stands for. Decimal and binary names mean the same.
pub open spec fn unit_bytes(unit: Seq<char>) -> Option<u64> {
    if unit == "b"@ || unit == "byte"@ || unit == "bytes"@ {
        Some(1)
    } else if unit == "kb"@ || unit == "kib"@ {
        Some(KIBIBYTE)
    } else if unit == "mb"@ || unit == "mib"@ {
        Some(MEBIBYTE)
    } else if unit == "gb"@ || unit == "gib"@ {
        Some(GIBIBYTE)
    } else if unit == "tb"@ || unit == "tib"@ {
        Some(TEBIBYTE)
    } else {
        None
    }
}

fn bytes_of_unit(unit: &str) -> (bytes: Option<u64>)
    ensures
        bytes == unit_bytes(unit@),
{
    if same(unit, "b") || same(unit, "byte") || same(unit, "bytes") {
        Some(1)
    } else if same(unit, "kb") || same(unit, "kib") {
        Some(KIBIBYTE)
    } else if same(unit, "mb") || same(unit, "mib") {
        Some(MEBIBYTE)
    } else if same(unit, "gb") || same(unit, "gib") {
        Some(GIBIBYTE)
    } else if same(unit, "tb") || same(unit, "tib") {
        Some(TEBIBYTE)
    } else {
        None
    }
}

/// A decimal number: its digits without the point, the power of ten that they
/// count, and whether a minus sign precedes them.
pub struct Numeral {
    pub digits: Seq<char>,
    pub scale: int,
    pub minus: bool,
}

pub open spec fn is_signed(s: Seq<char>) -> bool {
    s.len() > 0 && (s[0] == '+' || s[0] == '-')
}

pub open spec fn without_sign(s: Seq<char>) -> Seq<char> {
    if is_signed(s) {
        s.drop_first()
    } else {
        s
    }
}

pub open spec fn has_minus(s: Seq<char>) -> bool {
    s.len() > 0 && s[0] == '-'
}

/// The whole number that `s` writes, which a sign may precede.
pub open spec fn exponent_of(s: Seq<char>) -> Option<int> {
    let body = without_sign(s);
    if is_digits(body) {
        Some(
            if has_minus(s) {
                -(digits_value(body) as int)
            } else {
                digits_value(body) as int
            },
        )
    } else {
        None
    }
}

/// The decimal number that `s` writes: digits with at most one point among
/// them, which a sign may precede and an exponent may follow.
pub open spec fn numeral(s: Seq<char>) -> Option<Numeral> {
    let body = lowered(without_sign(s));
    let (mantissa, exponent) = match cut(body, 'e') {
        Some((head, tail)) => (head, exponent_of(tail)),
        None => (body, Some(0int)),
    };
    let (whole, fraction) = match cut(mantissa, '.') {
        Some(parts) => parts,
        None => (mantissa, Seq::empty()),
    };
    let digits = whole + fraction;
    match exponent {
        Some(power) if is_digits(digits) => Some(
            Numeral { digits, scale: power - fraction.len(), minus: has_minus(s) },
        ),
        _ => None,
    }
}

/// The quotient rounded to the nearest whole number, halves to the even one.
pub open spec fn half_even(over: nat, under: nat) -> nat {
    let whole = over / under;
    let rest = over % under;
    if 2 * rest > under || (2 * rest == under && whole % 2 == 1) {
        whole + 1
    } else {
        whole
    }
}

/// The quotient rounded to 53 significant bits, halves to the even number,
/// and then to the nearest whole number, halves up.
pub open spec fn doubly_rounded(over: nat, under: nat) -> nat {
    let whole = over / under;
    let top = top_power(whole);
    if whole == 0 {
        if over * 0x80_0000_0000_0000 >= under * 0x3f_ffff_ffff_ffff {
            1
        } else {
            0
        }
    } else if top > 0x10_0000_0000_0000 {
        let unit = top / 0x10_0000_0000_0000;
        half_even(over, under * unit) * unit
    } else {
        let steps = 0x10_0000_0000_0000nat / top;
        (2 * half_even(over * steps, under) + steps) / (2 * steps)
    }
}

/// A number of bytes that fits in 64 bits; two to the 64th counts as the
/// largest.
pub open spec fn bytes_within_limit(bytes: nat) -> Option<u64> {
    if bytes > 0x1_0000_0000_0000_0000 {
        None
    } else if bytes == 0x1_0000_0000_0000_0000 {
        Some(u64::MAX)
    } else {
        Some(bytes as u64)
    }
}

/// Ten to the power `n`, or one below that.
pub open spec fn raised(n: int) -> nat {
    if n > 0 {
        power_of_ten(n as nat) as nat
    } else {
        1
    }
}

/// The bytes in `value` times ten to the power `scale` units. The number is
/// read as the nearest binary64 number, so a negative one counts as zero where
/// it is at most two to the power -1075, and is refused above.
pub open spec fn scaled_size(value: nat, scale: int, minus: bool, unit: u64) -> Option<u64> {
    if minus && value * raised(scale) * pow2(1075) > raised(-scale) {
        None
    } else {
        bytes_within_limit(doubly_rounded(value * raised(scale) * unit as nat, raised(-scale)))
    }
}

pub open spec fn sized(number: Numeral, unit: u64) -> Option<u64> {
    scaled_size(digits_value(number.digits), number.scale, number.minus, unit)
}

/// The number of bytes that `s` writes: a whole number of bytes, or a decimal
/// number and a unit.
pub open spec fn size_of(s: Seq<char>) -> Option<u64> {
    let value = trimmed(s);
    match parsed(value, u64::MAX as nat) {
        Some(bytes) => Some(bytes as u64),
        None => {
            let parts = words(value);
            if parts.len() < 2 {
                None
            } else {
                match (numeral(parts[0]), unit_bytes(lowered(parts[1]))) {
                    (Some(number), Some(unit)) => sized(number, unit),
                    _ => None,
                }
            }
        },
    }
}

/// Beyond this power of ten only the sign of an exponent counts.
pub const FAR: i128 = 0x1_0000_0000_0000_0000_0000;

/// Whether a scale is exact, or both are far out on the same side.
pub open spec fn scale_tells(given: i128, exact: int) -> bool {
    ||| given == exact
    ||| given >= FAR && exact >= FAR
    ||| given <= -FAR && exact <= -FAR
}

fn minus_before(chars: &Vec<char>) -> (yes: bool)
    ensures
        yes == has_minus(chars@),
{
    chars.len() > 0 && chars[0] == '-'
}

fn drop_sign(chars: &Vec<char>) -> (body: Vec<char>)
    ensures
        body@ == without_sign(chars@),
{
    let from: usize = if chars.len() > 0 && (chars[0] == '+' || chars[0] == '-') {
        1
    } else {
        0
    };
    let body = crate::text::piece(chars.as_slice(), from, chars.len());
    assert(body@ =~= without_sign(chars@));
    body
}

/// The values of a run of digits.
fn read_digits(chars: &Vec<char>) -> (digits: Option<Vec<u8>>)
    ensures
        match digits {
            Some(list) => is_digits(chars@) && are_digits(list@) && list@.len() == chars@.len()
                && written(list@) == digits_value(chars@),
            None => !is_digits(chars@),
        },
{
    if chars.len() == 0 {
        return None;
    }
    let mut list: Vec<u8> = Vec::new();
    let mut i: usize = 0;
    while i < chars.len()
        invariant
            i <= chars.len(),
            list@.len() == i,
            are_digits(list@),
            written(list@) == digits_value(chars@.subrange(0, i as int)),
            forall|k: int| 0 <= k < i ==> is_digit(#[trigger] chars@[k]),
        decreases chars.len() - i,
    {
        let c = chars[i];
        if !('0' <= c && c <= '9') {
            assert(!is_digit(chars@[i as int]));
            return None;
        }
        let ghost next = chars@.subrange(0, i + 1);
        assert(next.drop_last() =~= chars@.subrange(0, i as int));
        assert(next.last() == c);
        let ghost before = list@;
        let digit: u8 = c as u8 - 48;
        list.push(digit);
        assert(list@.drop_last() =~= before);
        i += 1;
    }
    assert(chars@.subrange(0, i as int) =~= chars@);
    Some(list)
}

/// Reads an exponent; one that is far out may come back as another.
fn read_exponent(text: &str) -> (exponent: Option<i128>)
    ensures
        match exponent {
            Some(power) => exponent_of(text@) matches Some(exact) && (power == exact || (power
                >= 2 * FAR && exact >= 2 * FAR) || (power <= -2 * FAR && exact <= -2 * FAR))
                && -0x100 * FAR <= power <= 0x100 * FAR,
            None => exponent_of(text@) is None,
        },
{
    let chars = chars_of(text);
    let minus = minus_before(&chars);
    let body = drop_sign(&chars);
    let digits = match read_digits(&body) {
        Some(digits) => digits,
        None => return None,
    };
    let mut value: i128 = 0;
    let mut i: usize = 0;
    assert(digits@.subrange(0, 0) =~= Seq::<u8>::empty());
    while i < digits.len()
        invariant
            i <= digits.len(),
            are_digits(digits@),
            0 <= value <= 0x100 * FAR,
            value == written(digits@.subrange(0, i as int)) || (value >= 2 * FAR && written(
                digits@.subrange(0, i as int),
            ) >= 2 * FAR),
        decreases digits.len() - i,
    {
        let ghost next = digits@.subrange(0, i + 1);
        assert(next.drop_last() =~= digits@.subrange(0, i as int));
        assert(next.last() == digits@[i as int]);
        if value < 2 * FAR {
            value = value * 10 + digits[i] as i128;
        }
        i += 1;
    }
    assert(digits@.subrange(0, i as int) =~= digits@);
    Some(
        if minus {
            -value
        } else {
            value
        },
    )
}

/// The digits of a decimal number, the power of ten that they count, and
/// whether a minus sign precedes them.
fn parse_numeral(text: &str) -> (number: Option<(Vec<u8>, i128, bool)>)
    ensures
        match (number, numeral(text@)) {
            (Some((digits, scale, minus)), Some(expected)) => {
                &&& are_digits(digits@)
                &&& written(digits@) == digits_value(expected.digits)
                &&& scale_tells(scale, expected.scale)
                &&& -0x200 * FAR <= scale <= 0x200 * FAR
                &&& minus == expected.minus
            },
            (None, None) => true,
            _ => false,
        },
{
    let chars = chars_of(text);
    let minus = minus_before(&chars);
    let unsigned = crate::text::string_of(drop_sign(&chars).as_slice());
    let body = lower_text(unsigned.as_str());
    let (mantissa, power) = match cut_text(body.as_str(), 'e') {
        Some(parts) => match read_exponent(parts.1.as_str()) {
            Some(power) => (parts.0, power),
            None => return None,
        },
        None => (body, 0i128),
    };
    let parts = match cut_text(mantissa.as_str(), '.') {
        Some(parts) => parts,
        None => {
            let none = String::new();
            assert(none@ =~= Seq::empty());
            (mantissa, none)
        },
    };
    let digits = crate::text::concat2(parts.0.as_str(), parts.1.as_str());
    let fraction: usize = chars_of(parts.1.as_str()).len();
    match read_digits(&chars_of(digits.as_str())) {
        Some(list) => Some((list, power - fraction as i128, minus)),
        None => None,
    }
}

pub fn half_even_of(over: u128, under: u128) -> (result: u128)
    requires
        0 < under < 0x8000_0000_0000_0000_0000_0000_0000_0000,
    ensures
        result == half_even(over as nat, under as nat),
        result <= over / under + 1,
{
    let whole: u128 = over / under;
    let rest: u128 = over % under;
    proof {
        if under == 1 {
            assert(rest == 0);
        } else {
            assert(whole < 0x8000_0000_0000_0000_0000_0000_0000_0000) by (nonlinear_arith)
                requires
                    whole == over / under,
                    under >= 2,
                    0 <= over < 0x1_0000_0000_0000_0000_0000_0000_0000_0000,
            ;
        }
    }
    if 2 * rest > under || (2 * rest == under && whole % 2 == 1) {
        whole + 1
    } else {
        whole
    }
}

proof fn top_power_is_a_power(n: nat) -> (k: nat)
    ensures
        top_power(n) == pow2(k),
    decreases n,
{
    if n < 2 {
        lemma2_to64();
        0
    } else {
        let k = top_power_is_a_power(n / 2);
        lemma_pow2_unfold(k + 1);
        k + 1
    }
}

proof fn parts_divide(whole: nat, part: nat, under: nat)
    requires
        part < under,
    ensures
        (whole * under + part) / under == whole,
        (whole * under + part) % under == part,
{
    lemma_fundamental_div_mod_converse(
        (whole * under + part) as int,
        under as int,
        whole as int,
        part as int,
    );
}

/// Rounds a number above two to the 53rd to a multiple of `unit`.
fn round_large(whole: u128, fraction: &Vec<u8>, unit: u128) -> (rounded: u128)
    requires
        are_digits(fraction@),
        2 <= unit,
        unit % 2 == 0,
    ensures
        rounded == half_even(
            whole as nat * power_of_ten(fraction@.len()) as nat + written(fraction@),
            power_of_ten(fraction@.len()) as nat * unit as nat,
        ),
        rounded <= whole / unit + 1,
{
    let quotient: u128 = whole / unit;
    let rest: u128 = whole % unit;
    let half: u128 = unit / 2;
    let none = is_zero(fraction);
    proof {
        let under = power_of_ten(fraction@.len()) as nat;
        let part = written(fraction@);
        powers_are_positive(fraction@.len());
        digits_are_below_their_power(fraction@);
        lemma_fundamental_div_mod(whole as int, unit as int);
        let over = whole as nat * under + part;
        let left = rest as nat * under + part;
        assert(over == (under * unit as nat) * quotient as nat + left) by (nonlinear_arith)
            requires
                whole == unit * quotient + rest,
                over == whole as nat * under + part,
                left == rest as nat * under + part,
        ;
        assert(left < under * unit as nat) by (nonlinear_arith)
            requires
                rest + 1 <= unit,
                part < under,
                left == rest as nat * under + part,
        ;
        assert((under * unit as nat) * quotient as nat == quotient as int * (under * unit))
            by (nonlinear_arith);
        lemma_fundamental_div_mod_converse(
            over as int,
            (under * unit as nat) as int,
            quotient as int,
            left as int,
        );
        assert(unit == 2 * half);
        if rest > half {
            assert(2 * left > under * unit as nat) by (nonlinear_arith)
                requires
                    left == rest as nat * under + part,
                    rest >= half + 1,
                    unit == 2 * half,
                    under >= 1,
            ;
        } else if rest == half {
            assert(2 * left == under * unit as nat + 2 * part) by (nonlinear_arith)
                requires
                    left == rest as nat * under + part,
                    rest == half,
                    unit == 2 * half,
            ;
        } else {
            assert(2 * left < under * unit as nat) by (nonlinear_arith)
                requires
                    left == rest as nat * under + part,
                    rest + 1 <= half,
                    unit == 2 * half,
                    part < under,
            ;
        }
        assert(quotient <= whole / 2) by (nonlinear_arith)
            requires
                quotient == whole / unit,
                unit >= 2,
                whole >= 0,
        ;
    }
    if rest > half || (rest == half && (!none || quotient % 2 == 1)) {
        quotient + 1
    } else {
        quotient
    }
}

/// Rounds a number times two to the power `count`.
fn round_small(whole: u64, fraction: Vec<u8>, count: u32) -> (rounded: u128)
    requires
        are_digits(fraction@),
        count <= 60,
        whole * pow2(count as nat) <= 0x20_0000_0000_0000,
    ensures
        rounded == half_even(
            (whole as nat * power_of_ten(fraction@.len()) as nat + written(fraction@)) * pow2(
                count as nat,
            ),
            power_of_ten(fraction@.len()) as nat,
        ),
        rounded <= whole * pow2(count as nat) + pow2(count as nat),
{
    let ghost start = fraction@;
    let mut digits = fraction;
    let more: u64 = shift(&mut digits, count);
    let ghost part = written(digits@);
    let steps: u64 = power_of_two(count);
    proof {
        lemma2_to64_rest();
        if count < 60 {
            lemma_pow2_strictly_increases(count as nat, 60);
        }
    }
    assert(whole * steps <= 0x20_0000_0000_0000);
    let quotient: u64 = whole * steps + more;
    proof {
        let under = power_of_ten(start.len()) as nat;
        powers_are_positive(start.len());
        digits_are_below_their_power(digits@);
        let over = (whole as nat * under + written(start)) * steps as nat;
        assert(over == quotient as nat * under + part) by (nonlinear_arith)
            requires
                over == (whole as nat * under + written(start)) * steps as nat,
                more as nat * under + part == written(start) * steps as nat,
                quotient as nat == whole as nat * steps as nat + more as nat,
        ;
        parts_divide(quotient as nat, part, under);
    }
    let half = double(&mut digits);
    let none = is_zero(&digits);
    proof {
        digits_are_below_their_power(digits@);
    }
    if half && (!none || quotient % 2 == 1) {
        quotient as u128 + 1
    } else {
        quotient as u128
    }
}

fn power_of_two(count: u32) -> (power: u64)
    requires
        count <= 60,
    ensures
        power == pow2(count as nat),
{
    let mut power: u64 = 1;
    let mut i: u32 = 0;
    proof {
        lemma2_to64();
        lemma2_to64_rest();
    }
    while i < count
        invariant
            i <= count <= 60,
            power == pow2(i as nat),
            pow2(60) == 0x1000_0000_0000_0000,
        decreases count - i,
    {
        proof {
            lemma_pow2_unfold((i + 1) as nat);
            lemma_pow2_strictly_increases(i as nat, 60);
        }
        power = 2 * power;
        i += 1;
    }
    power
}

/// How many doublings lead from a power of two to two to the 52nd.
fn doublings(top: u64) -> (count: u32)
    requires
        1 <= top <= 0x10_0000_0000_0000,
        exists|k: nat| top == #[trigger] pow2(k),
    ensures
        count <= 52,
        top * pow2(count as nat) == 0x10_0000_0000_0000,
{
    let mut reached: u64 = top;
    let mut count: u32 = 0;
    let ghost k = choose|k: nat| top == #[trigger] pow2(k);
    proof {
        lemma2_to64();
        lemma2_to64_rest();
        if k > 52 {
            lemma_pow2_strictly_increases(52, k);
        }
    }
    while reached < 0x10_0000_0000_0000
        invariant
            k + count <= 52,
            reached == pow2((k + count) as nat),
            top == pow2(k),
            pow2(52) == 0x10_0000_0000_0000,
        decreases 52 - k - count,
    {
        proof {
            if k + count == 52 {
                assert(false);
            }
            lemma_pow2_unfold((k + count + 1) as nat);
            lemma_pow2_strictly_increases((k + count) as nat, 52);
        }
        reached = 2 * reached;
        count += 1;
    }
    proof {
        lemma_pow2_adds(k, count as nat);
        if k + count < 52 {
            lemma_pow2_strictly_increases((k + count) as nat, 52);
        }
    }
    count
}

/// Rounds a number with a fraction to binary64, and then to a whole number.
fn doubly_round(whole: u128, fraction: Vec<u8>) -> (result: Option<u128>)
    requires
        are_digits(fraction@),
    ensures
        ({
            let under = power_of_ten(fraction@.len()) as nat;
            let exact = doubly_rounded(whole as nat * under + written(fraction@), under);
            match result {
                Some(bytes) => bytes == exact,
                None => exact > 0x1_0000_0000_0000_0000,
            }
        }),
{
    let ghost start = fraction@;
    let ghost under = power_of_ten(start.len()) as nat;
    let ghost over = whole as nat * under + written(start);
    proof {
        powers_are_positive(start.len());
        digits_are_below_their_power(start);
        parts_divide(whole as nat, written(start), under);
        lemma2_to64();
        lemma2_to64_rest();
    }
    if whole == 0 {
        let mut digits = fraction;
        let bits: u64 = shift(&mut digits, 55);
        proof {
            digits_are_below_their_power(digits@);
            assert(over == written(start));
            if bits >= 0x3f_ffff_ffff_ffff {
                assert(bits * under >= 0x3f_ffff_ffff_ffff * under) by (nonlinear_arith)
                    requires
                        bits >= 0x3f_ffff_ffff_ffff,
                ;
            } else {
                assert((bits + 1) * under <= 0x3f_ffff_ffff_ffff * under) by (nonlinear_arith)
                    requires
                        bits + 1 <= 0x3f_ffff_ffff_ffff,
                ;
                assert((bits + 1) * under == bits * under + under) by (nonlinear_arith);
            }
        }
        return Some(
            if bits >= 0x3f_ffff_ffff_ffff {
                1
            } else {
                0
            },
        );
    }
    if whole >= 0x2_0000_0000_0000_0000 {
        proof {
            large_quotients_stay_large(over, under);
        }
        return None;
    }
    // The whole part has at most 65 bits; its half fits in 64.
    let half: u64 = (whole / 2) as u64;
    let top: u128 = if whole < 2 {
        1
    } else {
        2 * (top_power_of(half) as u128)
    };
    assert(top == top_power(whole as nat));
    let ghost k: nat = 0;
    proof {
        top_power_bounds(whole as nat);
        k = top_power_is_a_power(whole as nat);
    }
    if top > 0x10_0000_0000_0000 {
        let unit: u128 = top / 0x10_0000_0000_0000;
        proof {
            if k <= 52 {
                if k < 52 {
                    lemma_pow2_strictly_increases(k, 52);
                }
                assert(false);
            }
            lemma_pow2_adds(52, (k - 52) as nat);
            lemma_pow2_unfold((k - 52) as nat);
            let rest = pow2((k - 52) as nat);
            assert(unit == rest) by (nonlinear_arith)
                requires
                    unit == top / 0x10_0000_0000_0000,
                    top == 0x10_0000_0000_0000 * rest,
            ;
            lemma_pow2_pos((k - 53) as nat);
            assert(unit <= 0x2000) by (nonlinear_arith)
                requires
                    unit == top / 0x10_0000_0000_0000,
                    top <= 0x1_0000_0000_0000_0000,
            ;
        }
        let rounded: u128 = round_large(whole, &fraction, unit);
        proof {
            assert(rounded * unit <= (whole + 1) * 0x2000) by (nonlinear_arith)
                requires
                    0 <= rounded <= whole + 1,
                    0 <= unit <= 0x2000,
            ;
            assert(whole / unit <= whole) by (nonlinear_arith)
                requires
                    unit >= 1,
                    whole >= 0,
            ;
        }
        return Some(rounded * unit);
    }
    let count: u32 = doublings(top as u64);
    let steps: u64 = power_of_two(count);
    proof {
        assert(0x10_0000_0000_0000nat / top as nat == steps) by (nonlinear_arith)
            requires
                top * steps == 0x10_0000_0000_0000,
                top >= 1,
        ;
        assert(whole * steps <= 2 * (top * steps)) by (nonlinear_arith)
            requires
                whole < 2 * top,
                steps >= 0,
        ;
        assert(1 <= steps <= 0x10_0000_0000_0000) by (nonlinear_arith)
            requires
                top * steps == 0x10_0000_0000_0000,
                top >= 1,
        ;
    }
    let rounded: u128 = round_small(whole as u64, fraction, count);
    Some((2 * rounded + steps as u128) / (2 * steps as u128))
}

proof fn top_power_bounds(n: nat)
    requires
        n > 0,
    ensures
        top_power(n) <= n < 2 * top_power(n),
        top_power(n) >= 1,
        n < 0x2_0000_0000_0000_0000 ==> top_power(n) <= 0x1_0000_0000_0000_0000,
    decreases n,
{
    if n >= 2 {
        top_power_bounds(n / 2);
        if n < 0x2_0000_0000_0000_0000 {
            lemma2_to64();
            lemma2_to64_rest();
            top_power_limit(n, 64);
        }
    }
}

proof fn top_power_limit(n: nat, e: nat)
    requires
        0 < n < 2 * pow2(e),
    ensures
        top_power(n) <= pow2(e),
    decreases n,
{
    lemma_pow2_pos(e);
    if n >= 2 && e > 0 {
        lemma_pow2_unfold(e);
        top_power_limit(n / 2, (e - 1) as nat);
    } else if n >= 2 {
        lemma2_to64();
    }
}

/// A quotient of at least two to the 65th stays above two to the 64th when it
/// is rounded.
proof fn large_quotients_stay_large(over: nat, under: nat)
    requires
        under > 0,
        over / under >= 0x2_0000_0000_0000_0000,
    ensures
        doubly_rounded(over, under) > 0x1_0000_0000_0000_0000,
{
    let whole = over / under;
    let top = top_power(whole);
    top_power_bounds(whole);
    let unit = top / 0x10_0000_0000_0000;
    assert(unit * 0x10_0000_0000_0000 <= top);
    assert(unit >= 1 && top < unit * 0x10_0000_0000_0000 + 0x10_0000_0000_0000) by (nonlinear_arith)
        requires
            unit == top / 0x10_0000_0000_0000,
            top > 0x10_0000_0000_0000,
    ;
    let q = over / (under * unit);
    assert(under * unit > 0) by (nonlinear_arith)
        requires
            under > 0,
            unit >= 1,
    ;
    vstd::arithmetic::div_mod::lemma_div_denominator(over as int, under as int, unit as int);
    assert(q == whole / unit);
    assert(q * unit > whole - unit) by (nonlinear_arith)
        requires
            q == whole / unit,
            unit >= 1,
    ;
    assert(half_even(over, under * unit) * unit >= q * unit) by (nonlinear_arith)
        requires
            half_even(over, under * unit) >= q,
            unit >= 1,
    ;
    assert(whole - unit >= 0x1_0000_0000_0000_0000) by (nonlinear_arith)
        requires
            unit * 0x10_0000_0000_0000 <= top,
            top <= whole,
            whole >= 0x2_0000_0000_0000_0000,
    ;
}

proof fn nothing_rounds_to_zero(under: nat)
    requires
        under >= 1,
    ensures
        doubly_rounded(0, under) == 0,
{
    lemma_div_of0(under as int);
    assert(under * 0x3f_ffff_ffff_ffff >= 1) by (nonlinear_arith)
        requires
            under >= 1,
    ;
}

/// What is at most two to the power -1075 is no byte in any unit.
proof fn vanishing_sizes(value: nat, under: nat, unit: u64)
    requires
        under >= 1,
        unit <= TEBIBYTE,
        value * pow2(1075) <= under,
    ensures
        doubly_rounded(value * unit as nat, under) == 0,
{
    if value == 0 {
        nothing_rounds_to_zero(under);
    } else {
        lemma2_to64();
        lemma2_to64_rest();
        lemma_pow2_strictly_increases(64, 1075);
        lemma_pow2_adds(64, 1011);
        lemma_pow2_strictly_increases(40, 1011);
        let wide = pow2(1075);
        assert(wide >= 0x1_0000_0000_0000_0000 * 0x100_0000_0000) by (nonlinear_arith)
            requires
                wide == 0x1_0000_0000_0000_0000 * pow2(1011),
                pow2(1011) >= 0x100_0000_0000,
        ;
        let over = value * unit as nat;
        assert(over * 0x80_0000_0000_0000 < value * wide) by (nonlinear_arith)
            requires
                over == value * unit as nat,
                unit <= 0x100_0000_0000,
                wide >= 0x1_0000_0000_0000_0000 * 0x100_0000_0000,
                value >= 1,
        ;
        assert(over < under);
        lemma_basic_div(over as int, under as int);
        assert(under * 0x3f_ffff_ffff_ffff >= under) by (nonlinear_arith);
    }
}

/// Twenty-one digits before the point are more than 64 bits.
proof fn large_sizes(value: nat, len: nat, scale: int, unit: u64)
    requires
        value >= power_of_ten((len - 1) as nat),
        len >= 1,
        len + scale >= 21,
        unit >= 1,
    ensures
        doubly_rounded(value * raised(scale) * unit as nat, raised(-scale))
            > 0x1_0000_0000_0000_0000,
        value * raised(scale) >= raised(-scale),
{
    let over = value * raised(scale);
    let under = raised(-scale);
    let limit = power_of_ten(20) as nat;
    assert(limit >= 0x2_0000_0000_0000_0000) by {
        reveal_with_fuel(power_of_ten, 21);
    }
    assert(over >= limit * under) by {
        if scale > 0 {
            powers_multiply((len - 1) as nat, scale as nat);
            powers_grow(20, (len - 1 + scale) as nat);
            powers_are_positive(scale as nat);
            assert(over >= power_of_ten((len - 1) as nat) * power_of_ten(scale as nat))
                by (nonlinear_arith)
                requires
                    over == value * power_of_ten(scale as nat) as nat,
                    value >= power_of_ten((len - 1) as nat),
                    power_of_ten(scale as nat) >= 1,
            ;
            assert(under == 1);
            assert(over >= power_of_ten(20));
            powers_are_positive(20);
            assert(limit * 1 == limit);
        } else {
            let behind = (-scale) as nat;
            powers_are_positive(behind);
            powers_are_positive(20);
            powers_multiply(20, behind);
            powers_grow(20 + behind, (len - 1) as nat);
            assert(power_of_ten(0) == 1);
            assert(under == power_of_ten(behind));
            assert(over == value * 1);
            assert(over >= power_of_ten(20) * power_of_ten(behind));
            assert(limit * under == power_of_ten(20) * power_of_ten(behind));
        }
    }
    powers_are_positive((-scale) as nat);
    let bytes = over * unit as nat;
    assert(bytes >= limit * under) by (nonlinear_arith)
        requires
            bytes == over * unit as nat,
            unit >= 1,
            over >= limit * under,
    ;
    assert(bytes / under >= limit) by (nonlinear_arith)
        requires
            bytes >= limit * under,
            under >= 1,
    ;
    assert(over >= under) by (nonlinear_arith)
        requires
            over >= limit * under,
            limit >= 1,
    ;
    large_quotients_stay_large(bytes, under);
}

/// What begins more than a thousand places behind the point vanishes.
proof fn small_sizes(digits: Seq<u8>, scale: int)
    requires
        are_digits(digits),
        digits.len() + scale <= -1075,
    ensures
        raised(scale) == 1,
        written(digits) * pow2(1075) <= raised(-scale),
{
    let behind = (-scale) as nat;
    digits_are_below_their_power(digits);
    powers_of_two_are_less(1075);
    powers_multiply(digits.len(), 1075);
    powers_grow(digits.len() + 1075, behind);
    lemma_pow2_pos(1075);
    assert(written(digits) * pow2(1075) <= power_of_ten(digits.len()) * power_of_ten(1075))
        by (nonlinear_arith)
        requires
            written(digits) <= power_of_ten(digits.len()),
            pow2(1075) <= power_of_ten(1075),
            0 <= written(digits),
            0 < pow2(1075),
    ;
}

/// The digits from the first that is not zero.
fn significant(digits: &Vec<u8>) -> (rest: Vec<u8>)
    requires
        are_digits(digits@),
    ensures
        are_digits(rest@),
        written(rest@) == written(digits@),
        rest@.len() > 0 ==> rest@[0] >= 1,
{
    let mut from: usize = 0;
    assert(zeros(0) =~= digits@.subrange(0, 0));
    while from < digits.len() && digits[from] == 0
        invariant
            from <= digits.len(),
            digits@.subrange(0, from as int) == zeros(from as nat),
        decreases digits.len() - from,
    {
        assert(digits@.subrange(0, from + 1) =~= zeros((from + 1) as nat));
        from += 1;
    }
    let mut rest: Vec<u8> = Vec::new();
    let mut i: usize = from;
    while i < digits.len()
        invariant
            from <= i <= digits.len(),
            rest@ =~= digits@.subrange(from as int, i as int),
        decreases digits.len() - i,
    {
        rest.push(digits[i]);
        i += 1;
    }
    proof {
        assert(digits@ =~= zeros(from as nat) + rest@);
        joined_digits(zeros(from as nat), rest@);
        zeros_write_zero(from as nat);
        assert(written(zeros(from as nat)) * power_of_ten(rest@.len()) == 0);
        assert forall|k: int| 0 <= k < rest@.len() implies #[trigger] rest@[k] <= 9 by {
            assert(rest@[k] == digits@[from + k]);
        }
    }
    rest
}

/// The digits behind the point of a number below one.
fn below_one(digits: &Vec<u8>, scale: i128) -> (fraction: Vec<u8>)
    requires
        are_digits(digits@),
        -1075 < digits@.len() + scale < 0,
    ensures
        are_digits(fraction@),
        fraction@.len() == -scale,
        written(fraction@) == written(digits@),
{
    let places: i128 = digits.len() as i128 + scale;
    let mut fraction: Vec<u8> = Vec::new();
    let count: usize = (-places) as usize;
    let mut z: usize = 0;
    while z < count
        invariant
            z <= count,
            fraction@ =~= zeros(z as nat),
        decreases count - z,
    {
        fraction.push(0);
        z += 1;
    }
    let mut i: usize = 0;
    while i < digits.len()
        invariant
            i <= digits.len(),
            fraction@ =~= zeros(count as nat) + digits@.subrange(0, i as int),
        decreases digits.len() - i,
    {
        fraction.push(digits[i]);
        i += 1;
    }
    proof {
        assert(fraction@ =~= zeros(count as nat) + digits@);
        joined_digits(zeros(count as nat), digits@);
        zeros_write_zero(count as nat);
        assert(written(zeros(count as nat)) * power_of_ten(digits@.len()) == 0);
        assert forall|k: int| 0 <= k < fraction@.len() implies #[trigger] fraction@[k] <= 9 by {
            if k >= count {
                assert(fraction@[k] == digits@[k - count]);
            }
        }
    }
    fraction
}

proof fn twenty_places()
    ensures
        power_of_ten(20) == 100_000_000_000_000_000_000,
{
    reveal_with_fuel(power_of_ten, 21);
}

/// The number that the first digits write, with zeros where they end.
fn leading(digits: &Vec<u8>, count: usize) -> (whole: u128)
    requires
        are_digits(digits@),
        count <= 20,
    ensures
        whole < 100_000_000_000_000_000_000,
        count <= digits@.len() ==> whole == written(digits@.subrange(0, count as int)),
        count >= digits@.len() ==> whole == written(digits@) * power_of_ten(
            (count - digits@.len()) as nat,
        ),
{
    let ghost spare: nat = if count > digits@.len() {
        (count - digits@.len()) as nat
    } else {
        0
    };
    let ghost padded = digits@ + zeros(spare);
    let mut whole: u128 = 0;
    let mut i: usize = 0;
    proof {
        twenty_places();
        assert forall|k: int| 0 <= k < padded.len() implies #[trigger] padded[k] <= 9 by {
            if k < digits@.len() {
                assert(padded[k] == digits@[k]);
            }
        }
        assert(padded.subrange(0, 0) =~= Seq::<u8>::empty());
    }
    while i < count
        invariant
            i <= count <= padded.len(),
            count <= 20,
            are_digits(padded),
            padded == digits@ + zeros(spare),
            whole == written(padded.subrange(0, i as int)),
            whole < power_of_ten(i as nat),
            power_of_ten(20) == 100_000_000_000_000_000_000,
        decreases count - i,
    {
        let ghost next = padded.subrange(0, i + 1);
        assert(next.drop_last() =~= padded.subrange(0, i as int));
        assert(next.last() == padded[i as int]);
        let digit: u8 = if i < digits.len() {
            digits[i]
        } else {
            0
        };
        assert(digit == padded[i as int]);
        proof {
            powers_grow(i as nat, 20);
        }
        whole = whole * 10 + digit as u128;
        i += 1;
    }
    proof {
        powers_grow(count as nat, 20);
        joined_digits(digits@, zeros(spare));
        zeros_write_zero(spare);
        if count <= digits@.len() {
            assert(padded.subrange(0, count as int) =~= digits@.subrange(0, count as int));
        }
        if count >= digits@.len() {
            assert(padded.subrange(0, count as int) =~= padded);
        }
    }
    whole
}

/// Parts a number of at most twenty places before the point into its whole
/// part and the digits behind the point.
fn part(digits: &Vec<u8>, scale: i128) -> (parts: (u128, Vec<u8>))
    requires
        are_digits(digits@),
        -1075 < digits@.len() + scale <= 20,
    ensures
        are_digits(parts.1@),
        parts.0 < 100_000_000_000_000_000_000,
        raised(-(scale as int)) == power_of_ten(parts.1@.len()),
        parts.0 as nat * power_of_ten(parts.1@.len()) as nat + written(parts.1@) == written(digits@)
            * raised(scale as int),
{
    let places: i128 = digits.len() as i128 + scale;
    if places < 0 {
        let fraction = below_one(digits, scale);
        proof {
            powers_are_positive(fraction@.len());
        }
        assert(0 * power_of_ten(fraction@.len()) == 0);
        assert(written(digits@) * 1 == written(digits@));
        assert(fraction@.len() as int == -(scale as int));
        return (0, fraction);
    }
    let before: usize = places as usize;
    let whole: u128 = leading(digits, before);
    let mut fraction: Vec<u8> = Vec::new();
    if before >= digits.len() {
        assert(written(fraction@) == 0);
        assert(power_of_ten(0) == 1);
        assert(whole as nat * 1 == whole as nat);
        proof {
            powers_are_positive(scale as nat);
            assert(written(digits@) * 1 == written(digits@));
        }
        return (whole, fraction);
    }
    let mut k: usize = before;
    while k < digits.len()
        invariant
            before <= k <= digits.len(),
            fraction@ =~= digits@.subrange(before as int, k as int),
        decreases digits.len() - k,
    {
        fraction.push(digits[k]);
        k += 1;
    }
    proof {
        assert(digits@ =~= digits@.subrange(0, before as int) + fraction@);
        joined_digits(digits@.subrange(0, before as int), fraction@);
        assert forall|j: int| 0 <= j < fraction@.len() implies #[trigger] fraction@[j] <= 9 by {
            assert(fraction@[j] == digits@[before + j]);
        }
        assert(fraction@.len() as int == -(scale as int));
        assert(written(digits@) * 1 == written(digits@));
        powers_are_positive(fraction@.len());
    }
    (whole, fraction)
}

/// The bytes in a decimal number of units.
fn size_from(digits: &Vec<u8>, scale: i128, minus: bool, unit: u64) -> (bytes: Option<u64>)
    requires
        are_digits(digits@),
        1 <= unit <= TEBIBYTE,
        -0x200 * FAR <= scale <= 0x200 * FAR,
    ensures
        forall|exact: int| #[trigger]
            scale_tells(scale, exact) ==> bytes == scaled_size(
                written(digits@),
                exact,
                minus,
                unit,
            ),
{
    let ghost value = written(digits@);
    let rest = significant(digits);
    if rest.len() == 0 {
        proof {
            assert(value == 0);
            assert forall|exact: int| #[trigger] scale_tells(scale, exact) implies Some(0u64)
                == scaled_size(value, exact, minus, unit) by {
                powers_are_positive((-exact) as nat);
                assert(0 * raised(exact) == 0 && 0 * raised(exact) * pow2(1075) == 0
                    && 0 * raised(exact) * unit as nat == 0) by (nonlinear_arith);
                nothing_rounds_to_zero(raised(-exact));
            }
        }
        return Some(0);
    }
    let places: i128 = rest.len() as i128 + scale;
    if places >= 21 {
        proof {
            assert forall|exact: int| #[trigger] scale_tells(scale, exact) implies scaled_size(
                value,
                exact,
                minus,
                unit,
            ) is None by {
                first_digits_count(rest@);
                large_sizes(value, rest@.len(), exact, unit);
                let over = value * raised(exact);
                lemma2_to64();
                lemma_pow2_strictly_increases(1, 1075);
                powers_are_positive((-exact) as nat);
                assert(over * pow2(1075) > raised(-exact)) by (nonlinear_arith)
                    requires
                        over >= raised(-exact),
                        raised(-exact) >= 1,
                        pow2(1075) >= 2,
                ;
            }
        }
        return None;
    }
    if places <= -1075 {
        proof {
            assert forall|exact: int| #[trigger] scale_tells(scale, exact) implies Some(0u64)
                == scaled_size(value, exact, minus, unit) by {
                small_sizes(rest@, exact);
                powers_are_positive((-exact) as nat);
                assert(value * 1 == value);
                vanishing_sizes(value, raised(-exact), unit);
            }
        }
        return Some(0);
    }
    assert(forall|exact: int| #[trigger] scale_tells(scale, exact) ==> exact == scale);
    let (whole, fraction) = part(&rest, scale);
    let ghost under = power_of_ten(fraction@.len()) as nat;
    proof {
        powers_are_positive(fraction@.len());
    }
    if minus {
        if whole >= 1 {
            proof {
                let over = value * raised(scale as int);
                lemma2_to64();
                lemma_pow2_strictly_increases(1, 1075);
                assert(whole as nat * under >= under) by (nonlinear_arith)
                    requires
                        whole >= 1,
                ;
                assert(over * pow2(1075) > under) by (nonlinear_arith)
                    requires
                        over >= under,
                        under >= 1,
                        pow2(1075) >= 2,
                ;
            }
            return None;
        }
        let ghost small = written(fraction@);
        assert(value * raised(scale as int) == small) by {
            assert(0 * under == 0);
        }
        if exceeds_one(fraction, 1075) {
            return None;
        }
        proof {
            vanishing_sizes(small, under, unit);
        }
        return Some(0);
    }
    let ghost start = fraction@;
    let mut digits_left = fraction;
    let carry: u64 = multiply(&mut digits_left, unit);
    assert(whole * unit < 100_000_000_000_000_000_000 * 0x100_0000_0000) by (nonlinear_arith)
        requires
            0 <= whole < 100_000_000_000_000_000_000,
            1 <= unit <= 0x100_0000_0000,
    ;
    let total: u128 = whole * unit as u128 + carry as u128;
    proof {
        let over = value * raised(scale as int) * unit as nat;
        assert(total as nat * under + written(digits_left@) == over) by (nonlinear_arith)
            requires
                total as nat == whole as nat * unit as nat + carry as nat,
                carry as nat * under + written(digits_left@) == written(start) * unit as nat,
                over == (whole as nat * under + written(start)) * unit as nat,
        ;
    }
    match doubly_round(total, digits_left) {
        None => None,
        Some(bytes) => if bytes > 0x1_0000_0000_0000_0000 {
            None
        } else if bytes == 0x1_0000_0000_0000_0000 {
            Some(u64::MAX)
        } else {
            Some(bytes as u64)
        },
    }
}

/// Reads a size: a whole number of bytes, or a decimal number and a unit.
pub fn parse_size_bytes(value: &str) -> (bytes: Option<u64>)
    ensures
        bytes == size_of(value@),
{
    let value = trim(value);
    match parse_number(value.as_str(), u64::MAX) {
        Some(bytes) => return Some(bytes),
        None => {},
    }
    let parts = split_words(value.as_str());
    assert(views(parts@).len() == parts@.len());
    if parts.len() < 2 {
        return None;
    }
    assert(views(parts@)[0] == parts@[0]@);
    assert(views(parts@)[1] == parts@[1]@);
    let number = parse_numeral(parts[0].as_str());
    let unit = bytes_of_unit(lower_text(parts[1].as_str()).as_str());
    match (number, unit) {
        (Some((digits, scale, minus)), Some(unit)) => size_from(&digits, scale, minus, unit),
        _ => None,
    }
}

// ---- laws ------------------------------------------------------------------------------

/// How many bytes a unit stands for: each is 1024 of the one before it, whether
/// it is written the decimal or the binary way.
pub proof fn units_are_these(unit: Seq<char>)
    ensures
        unit_bytes(unit) == Some(1u64) ==> unit == "b"@ || unit == "byte"@ || unit == "bytes"@,
        unit_bytes("b"@) == Some(1u64) && unit_bytes("byte"@) == Some(1u64) && unit_bytes("bytes"@)
            == Some(1u64),
        unit == "kb"@ || unit == "kib"@ <==> unit_bytes(unit) == Some(1024u64),
        unit == "mb"@ || unit == "mib"@ <==> unit_bytes(unit) == Some(1_048_576u64),
        unit == "gb"@ || unit == "gib"@ <==> unit_bytes(unit) == Some(1_073_741_824u64),
        unit == "tb"@ || unit == "tib"@ <==> unit_bytes(unit) == Some(1_099_511_627_776u64),
{
    reveal_strlit("b");
    reveal_strlit("byte");
    reveal_strlit("bytes");
    reveal_strlit("kb");
    reveal_strlit("kib");
    reveal_strlit("mb");
    reveal_strlit("mib");
    reveal_strlit("gb");
    reveal_strlit("gib");
    reveal_strlit("tb");
    reveal_strlit("tib");
    assert("kb"@.len() == 2 && "mb"@.len() == 2 && "gb"@.len() == 2 && "tb"@.len() == 2);
    assert("kib"@.len() == 3 && "mib"@.len() == 3 && "gib"@.len() == 3 && "tib"@.len() == 3);
    assert("kb"@[0] == 'k' && "mb"@[0] == 'm' && "gb"@[0] == 'g' && "tb"@[0] == 't');
    assert("kib"@[0] == 'k' && "mib"@[0] == 'm' && "gib"@[0] == 'g' && "tib"@[0] == 't');
    assert("b"@.len() == 1 && "byte"@.len() == 4 && "bytes"@.len() == 5);
}

/// A quotient is rounded to the nearest whole number, and a half to the even one.
pub proof fn halves_go_to_the_even(over: nat, under: nat)
    requires
        under > 0,
    ensures
        ({
            let near = half_even(over, under) as int;
            &&& 2 * near * under <= 2 * over + under
            &&& 2 * over <= 2 * near * under + under
            &&& 2 * over == 2 * near * under + under || 2 * over + under == 2 * near * under ==> near
                % 2 == 0
            &&& over % under == 0 ==> near == over / under
        }),
{
    let whole = over / under;
    let rest = over % under;
    lemma_fundamental_div_mod(over as int, under as int);
    lemma_mod_bound(over as int, under as int);
    let near = half_even(over, under);
    assert(under * whole + rest == over);
    assert(2 * whole * under == 2 * (under * whole)) by (nonlinear_arith);
    assert(2 * (whole + 1) * under == 2 * (under * whole) + 2 * under) by (nonlinear_arith);
}

/// A whole number is that many bytes, up to the largest of 64 bits; what is no
/// more than two to the 64th is at most that.
pub proof fn whole_numbers_are_bytes(bytes: u64, more: nat)
    ensures
        size_of(decimal(bytes as nat)) == Some(bytes),
        bytes_within_limit(bytes as nat) == Some(bytes),
        more > 0x1_0000_0000_0000_0000 ==> bytes_within_limit(more) is None,
        bytes_within_limit(0x1_0000_0000_0000_0000) == Some(u64::MAX),
{
    numbers_are_written_in_digits(bytes as nat, ' ');
    parsing_undoes_decimal(bytes as nat, u64::MAX as nat);
}

/// A whole number of units below two to the 53rd is told to the byte.
pub proof fn whole_units_are_exact(value: nat, unit: u64)
    requires
        unit > 0,
        value * unit < 0x20_0000_0000_0000,
    ensures
        scaled_size(value, 0, false, unit) == Some((value * unit) as u64),
{
    let bytes = value * unit as nat;
    assert(value * 1 * unit as nat == bytes) by (nonlinear_arith)
        requires
            bytes == value * unit as nat,
    ;
    assert(bytes / 1 == bytes);
    assert(bytes % 1 == 0);
    if bytes > 0 {
        let top = top_power(bytes);
        top_power_bounds(bytes);
        lemma2_to64();
        lemma2_to64_rest();
        top_power_limit(bytes, 52);
        exact_quotients_stay(bytes, top);
    }
}

proof fn exact_quotients_stay(bytes: nat, top: nat)
    requires
        0 < bytes < 0x20_0000_0000_0000,
        top == top_power(bytes),
        0 < top <= 0x10_0000_0000_0000,
    ensures
        doubly_rounded(bytes, 1) == bytes,
{
    let steps = 0x10_0000_0000_0000nat / top;
    assert(steps >= 1) by (nonlinear_arith)
        requires
            steps == 0x10_0000_0000_0000nat / top,
            0 < top <= 0x10_0000_0000_0000,
    ;
    let over = bytes * steps;
    assert(over / 1 == over && over % 1 == 0);
    assert(half_even(over, 1) == over);
    assert((2 * over + steps) / (2 * steps) == bytes) by (nonlinear_arith)
        requires
            over == bytes * steps,
            steps >= 1,
    ;
}

/// A decimal number is its digits without the point, counted in the power of ten
/// that the digits behind the point make.
pub proof fn numbers_are_read_with_their_point(whole: Seq<char>, fraction: Seq<char>)
    requires
        whole.len() > 0,
        forall|i: int| 0 <= i < whole.len() ==> is_digit(#[trigger] whole[i]),
        forall|i: int| 0 <= i < fraction.len() ==> is_digit(#[trigger] fraction[i]),
    ensures
        numeral(whole + seq!['.'] + fraction) matches Some(number) && number.digits == whole
            + fraction && number.scale == -(fraction.len() as int) && !number.minus,
        numeral(whole) matches Some(number) && number.digits == whole && number.scale == 0
            && !number.minus,
        numeral(seq!['-'] + whole) matches Some(number) && number.digits == whole && number.scale
            == 0 && number.minus,
{
    let s = whole + seq!['.'] + fraction;
    assert(is_digit(whole[0]));
    assert forall|i: int| 0 <= i < s.len() implies {
        &&& #[trigger] s[i] != 'e'
        &&& lowered(s)[i] == s[i]
    } by {
        if i < whole.len() {
            assert(is_digit(whole[i]));
        } else if i > whole.len() {
            assert(is_digit(fraction[i - whole.len() - 1]));
        }
    }
    assert(lowered(s) =~= s);
    assert(lacks(s, 'e'));
    cuts_are_at_the_first_separator(s, 'e');
    assert(lacks(whole, '.')) by {
        assert forall|i: int| 0 <= i < whole.len() implies #[trigger] whole[i] != '.' by {
            assert(is_digit(whole[i]));
        }
    }
    cutting_undoes_joining(whole, '.', fraction);
    let digits = whole + fraction;
    assert forall|i: int| 0 <= i < digits.len() implies is_digit(#[trigger] digits[i]) by {
        if i < whole.len() {
            assert(is_digit(whole[i]));
        } else {
            assert(is_digit(fraction[i - whole.len()]));
        }
    }
    assert(without_sign(s) == s && !has_minus(s));
    assert forall|i: int| 0 <= i < whole.len() implies {
        &&& #[trigger] whole[i] != 'e'
        &&& lowered(whole)[i] == whole[i]
    } by {
        assert(is_digit(whole[i]));
    }
    assert(lowered(whole) =~= whole);
    assert(lacks(whole, 'e'));
    cuts_are_at_the_first_separator(whole, 'e');
    cuts_are_at_the_first_separator(whole, '.');
    assert(whole + Seq::<char>::empty() =~= whole);
    let signed = seq!['-'] + whole;
    assert(signed.drop_first() =~= whole);
}

} // verus!
