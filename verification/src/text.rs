//! Strings as sequences of characters: splitting, trimming, numbers and case.

use vstd::prelude::*;
use vstd::string::*;
use vstd::utf8::{decode_utf8, encode_utf8, valid_utf8};

verus! {

/// `String::push` appends one character.
pub assume_specification[ String::push ](text: &mut String, c: char)
    ensures
        final(text)@ == old(text)@.push(c),
;

/// The contents of a list of strings.
pub open spec fn views(list: Seq<String>) -> Seq<Seq<char>> {
    Seq::new(list.len(), |i: int| list[i]@)
}

pub proof fn views_push(list: Seq<String>, item: String)
    ensures
        views(list.push(item)) == views(list).push(item@),
{
    assert(views(list.push(item)) =~= views(list).push(item@));
}

/// The characters of `text`.
pub fn chars_of(text: &str) -> (chars: Vec<char>)
    ensures
        chars@ == text@,
{
    broadcast use axiom_spec_iter;
    let mut chars: Vec<char> = Vec::new();
    for c in it: text.chars()
        invariant
            it.seq() == text@,
            chars@ == it.seq().subrange(0, it.index()),
    {
        chars.push(c);
        assert(it.seq().subrange(0, it.index() + 1) =~= it.seq().subrange(0, it.index()).push(c));
    }
    assert(text@.subrange(0, text@.len() as int) =~= text@);
    chars
}

/// The string holding `chars`.
pub fn string_of(chars: &[char]) -> (text: String)
    ensures
        text@ == chars@,
{
    let mut text: String = String::new();
    let mut i: usize = 0;
    assert(text@ =~= chars@.subrange(0, 0));
    while i < chars.len()
        invariant
            i <= chars.len(),
            text@ == chars@.subrange(0, i as int),
        decreases chars.len() - i,
    {
        text.push(chars[i]);
        assert(chars@.subrange(0, i + 1) =~= chars@.subrange(0, i as int).push(chars@[i as int]));
        i += 1;
    }
    assert(chars@.subrange(0, chars@.len() as int) =~= chars@);
    text
}

/// Whether two texts hold the same characters.
pub(crate) fn same(a: &str, b: &str) -> (equal: bool)
    ensures
        equal == (a@ == b@),
{
    let left = chars_of(a);
    let right = chars_of(b);
    if left.len() != right.len() {
        return false;
    }
    let mut i: usize = 0;
    while i < left.len()
        invariant
            i <= left.len(),
            left@ == a@,
            right@ == b@,
            left.len() == right.len(),
            forall|k: int| 0 <= k < i ==> left@[k] == right@[k],
        decreases left.len() - i,
    {
        if left[i] != right[i] {
            return false;
        }
        i += 1;
    }
    assert(a@ =~= b@);
    true
}

/// A part of a character slice, as a list of its own.
pub fn piece(chars: &[char], from: usize, to: usize) -> (part: Vec<char>)
    requires
        from <= to <= chars.len(),
    ensures
        part@ == chars@.subrange(from as int, to as int),
{
    let mut part: Vec<char> = Vec::new();
    let mut i: usize = from;
    while i < to
        invariant
            from <= i <= to <= chars.len(),
            part@ == chars@.subrange(from as int, i as int),
        decreases to - i,
    {
        part.push(chars[i]);
        assert(chars@.subrange(from as int, i + 1) =~= chars@.subrange(from as int, i as int).push(
            chars@[i as int],
        ));
        i += 1;
    }
    part
}

/// `String::from_utf8` succeeds exactly on valid UTF-8, and gives the
/// characters that the bytes encode.
#[verifier::external_body]
pub(crate) fn text_from_utf8(bytes: Vec<u8>) -> (text: Option<String>)
    ensures
        match text {
            Some(t) => valid_utf8(bytes@) && t@ == decode_utf8(bytes@),
            None => !valid_utf8(bytes@),
        },
{
    String::from_utf8(bytes).ok()
}

// ---- white space -------------------------------------------------------

/// The characters with Unicode's `White_Space` property.
pub open spec fn white(c: char) -> bool {
    ||| '\u{9}' <= c <= '\u{d}'
    ||| c == ' '
    ||| c == '\u{85}'
    ||| c == '\u{a0}'
    ||| c == '\u{1680}'
    ||| '\u{2000}' <= c <= '\u{200a}'
    ||| c == '\u{2028}'
    ||| c == '\u{2029}'
    ||| c == '\u{202f}'
    ||| c == '\u{205f}'
    ||| c == '\u{3000}'
}

pub fn is_white(c: char) -> (yes: bool)
    ensures
        yes == white(c),
{
    ('\u{9}' <= c && c <= '\u{d}') || c == ' ' || c == '\u{85}' || c == '\u{a0}' || c == '\u{1680}'
        || ('\u{2000}' <= c && c <= '\u{200a}') || c == '\u{2028}' || c == '\u{2029}' || c
        == '\u{202f}' || c == '\u{205f}' || c == '\u{3000}'
}

/// `s` without the white space at its start.
pub open spec fn trim_start(s: Seq<char>) -> Seq<char>
    decreases s.len(),
{
    if s.len() > 0 && white(s[0]) {
        trim_start(s.drop_first())
    } else {
        s
    }
}

/// `s` without the white space at its end.
pub open spec fn trim_end(s: Seq<char>) -> Seq<char>
    decreases s.len(),
{
    if s.len() > 0 && white(s.last()) {
        trim_end(s.drop_last())
    } else {
        s
    }
}

/// `s` without the white space at either end.
pub open spec fn trimmed(s: Seq<char>) -> Seq<char> {
    trim_end(trim_start(s))
}

/// The characters of `chars` without the white space at either end.
pub fn trim_chars(chars: &[char]) -> (core: Vec<char>)
    ensures
        core@ == trimmed(chars@),
{
    let mut from: usize = 0;
    assert(chars@.subrange(0, chars@.len() as int) =~= chars@);
    while from < chars.len() && is_white(chars[from])
        invariant
            from <= chars.len(),
            trim_start(chars@) == trim_start(chars@.subrange(from as int, chars@.len() as int)),
        decreases chars.len() - from,
    {
        assert(chars@.subrange(from as int, chars@.len() as int).drop_first() =~= chars@.subrange(
            from + 1,
            chars@.len() as int,
        ));
        from += 1;
    }
    let ghost start = chars@.subrange(from as int, chars@.len() as int);
    assert(trim_start(chars@) == start);
    let mut to: usize = chars.len();
    while from < to && is_white(chars[to - 1])
        invariant
            from <= to <= chars.len(),
            start == chars@.subrange(from as int, chars@.len() as int),
            trim_end(start) == trim_end(chars@.subrange(from as int, to as int)),
        decreases to,
    {
        assert(chars@.subrange(from as int, to as int).drop_last() =~= chars@.subrange(
            from as int,
            to - 1,
        ));
        to -= 1;
    }
    piece(chars, from, to)
}

/// The text of `text` without the white space at either end.
pub fn trim(text: &str) -> (core: String)
    ensures
        core@ == trimmed(text@),
{
    let chars = chars_of(text);
    let core = trim_chars(chars.as_slice());
    string_of(core.as_slice())
}

// ---- splitting ---------------------------------------------------------

/// The pieces of `s` between the places where `sep` stands, empty ones too.
pub open spec fn split(s: Seq<char>, sep: char) -> Seq<Seq<char>>
    decreases s.len(),
{
    if s.len() == 0 {
        seq![Seq::<char>::empty()]
    } else {
        let before = split(s.drop_last(), sep);
        if s.last() == sep {
            before.push(Seq::empty())
        } else {
            before.drop_last().push(before.last().push(s.last()))
        }
    }
}

pub proof fn split_is_not_empty(s: Seq<char>, sep: char)
    ensures
        split(s, sep).len() > 0,
    decreases s.len(),
{
    if s.len() > 0 {
        split_is_not_empty(s.drop_last(), sep);
    }
}

/// The pieces of `text` between the places where `sep` stands.
pub fn split_text(text: &str, sep: char) -> (pieces: Vec<String>)
    ensures
        views(pieces@) == split(text@, sep),
{
    let chars = chars_of(text);
    let mut pieces: Vec<String> = Vec::new();
    let mut current: String = String::new();
    let mut i: usize = 0;
    assert(chars@.subrange(0, 0) =~= Seq::empty());
    assert(current@ =~= Seq::empty());
    assert(views(pieces@).push(current@) =~= split(chars@.subrange(0, 0), sep));
    while i < chars.len()
        invariant
            i <= chars.len(),
            views(pieces@).push(current@) == split(chars@.subrange(0, i as int), sep),
        decreases chars.len() - i,
    {
        let ghost done = chars@.subrange(0, i as int);
        let ghost next = chars@.subrange(0, i + 1);
        assert(next.drop_last() =~= done);
        assert(next.last() == chars@[i as int]);
        let ghost before = split(done, sep);
        assert(before.drop_last() =~= views(pieces@));
        if chars[i] == sep {
            proof {
                views_push(pieces@, current);
            }
            pieces.push(current);
            current = String::new();
            assert(current@ =~= Seq::empty());
        } else {
            current.push(chars[i]);
        }
        i += 1;
    }
    proof {
        assert(chars@.subrange(0, i as int) =~= text@);
        views_push(pieces@, current);
    }
    pieces.push(current);
    pieces
}

/// The runs of characters of `s` between white space.
pub open spec fn words(s: Seq<char>) -> Seq<Seq<char>>
    decreases s.len(),
{
    if s.len() == 0 {
        Seq::empty()
    } else {
        let before = words(s.drop_last());
        if white(s.last()) {
            before
        } else if s.len() == 1 || white(s[s.len() - 2]) {
            before.push(seq![s.last()])
        } else {
            before.drop_last().push(before.last().push(s.last()))
        }
    }
}

/// The runs of characters of `text` between white space.
pub fn split_words(text: &str) -> (list: Vec<String>)
    ensures
        views(list@) == words(text@),
{
    let chars = chars_of(text);
    let mut list: Vec<String> = Vec::new();
    let mut current: String = String::new();
    let mut open: bool = false;
    let mut i: usize = 0;
    assert(views(list@) =~= words(chars@.subrange(0, 0)));
    while i < chars.len()
        invariant
            i <= chars.len(),
            open == (i > 0 && !white(chars@[i - 1])),
            open ==> views(list@).push(current@) == words(chars@.subrange(0, i as int)),
            !open ==> views(list@) == words(chars@.subrange(0, i as int)) && current@
                == Seq::<char>::empty(),
        decreases chars.len() - i,
    {
        let ghost done = chars@.subrange(0, i as int);
        let ghost next = chars@.subrange(0, i + 1);
        assert(next.drop_last() =~= done);
        assert(next.last() == chars@[i as int]);
        assert(open ==> words(done).drop_last() =~= views(list@));
        if is_white(chars[i]) {
            if open {
                proof {
                    views_push(list@, current);
                }
                list.push(current);
                current = String::new();
            }
            open = false;
            assert(current@ =~= Seq::empty());
        } else {
            assert(!open ==> Seq::<char>::empty().push(chars@[i as int]) =~= seq![chars@[i as int]]);
            current.push(chars[i]);
            open = true;
        }
        i += 1;
    }
    assert(chars@.subrange(0, i as int) =~= text@);
    if open {
        proof {
            views_push(list@, current);
        }
        list.push(current);
    }
    list
}

/// A line without the carriage return that ends it, if one does.
pub open spec fn chomp(s: Seq<char>) -> Seq<char> {
    if s.len() > 0 && s.last() == '\r' {
        s.drop_last()
    } else {
        s
    }
}

/// The lines of `s`: each ends in a line feed, which a carriage return may
/// precede; what follows the last line feed is a line when it is not empty.
pub open spec fn lines(s: Seq<char>) -> Seq<Seq<char>> {
    let pieces = split(s, '\n');
    let ended = Seq::new((pieces.len() - 1) as nat, |i: int| chomp(pieces[i]));
    if pieces.last().len() == 0 {
        ended
    } else {
        ended.push(pieces.last())
    }
}

/// The lines of `text`.
pub fn split_lines(text: &str) -> (list: Vec<String>)
    ensures
        views(list@) == lines(text@),
{
    let pieces = split_text(text, '\n');
    proof {
        split_is_not_empty(text@, '\n');
        assert(views(pieces@).len() == pieces@.len());
    }
    let mut list: Vec<String> = Vec::new();
    let mut i: usize = 0;
    while i < pieces.len() - 1
        invariant
            pieces.len() > 0,
            i <= pieces.len() - 1,
            views(pieces@) == split(text@, '\n'),
            views(list@) == Seq::new(i as nat, |k: int| chomp(split(text@, '\n')[k])),
        decreases pieces.len() - i,
    {
        let chars = chars_of(pieces[i].as_str());
        let line = if chars.len() > 0 && chars[chars.len() - 1] == '\r' {
            let body = piece(chars.as_slice(), 0, chars.len() - 1);
            assert(body@ =~= chars@.drop_last());
            string_of(body.as_slice())
        } else {
            pieces[i].clone()
        };
        proof {
            assert(split(text@, '\n')[i as int] == pieces@[i as int]@);
            views_push(list@, line);
            assert(Seq::new((i + 1) as nat, |k: int| chomp(split(text@, '\n')[k])) =~= Seq::new(
                i as nat,
                |k: int| chomp(split(text@, '\n')[k]),
            ).push(line@));
        }
        list.push(line);
        i += 1;
    }
    let ghost ended = views(list@);
    let last = chars_of(pieces[pieces.len() - 1].as_str());
    assert(split(text@, '\n').last() == last@);
    if last.len() > 0 {
        let line = string_of(last.as_slice());
        proof {
            views_push(list@, line);
        }
        list.push(line);
    }
    list
}

// ---- searching ---------------------------------------------------------

/// Whether `part` stands somewhere in `s`.
pub open spec fn contains(s: Seq<char>, part: Seq<char>) -> bool {
    exists|i: int|
        0 <= i <= s.len() - part.len() && #[trigger] s.subrange(i, i + part.len()) == part
}

/// Whether `part` stands in `chars` at `at`.
pub fn stands_at(chars: &[char], part: &[char], at: usize) -> (yes: bool)
    requires
        at + part.len() <= chars.len(),
    ensures
        yes == (chars@.subrange(at as int, at + part@.len()) == part@),
{
    let mut i: usize = 0;
    while i < part.len()
        invariant
            i <= part.len(),
            at + part.len() <= chars.len(),
            forall|k: int| 0 <= k < i ==> chars@[at + k] == part@[k],
        decreases part.len() - i,
    {
        if chars[at + i] != part[i] {
            assert(chars@.subrange(at as int, at + part@.len())[i as int] != part@[i as int]);
            return false;
        }
        i += 1;
    }
    assert(chars@.subrange(at as int, at + part@.len()) =~= part@);
    true
}

/// Whether `part` stands somewhere in `chars`.
pub fn contains_chars(chars: &[char], part: &[char]) -> (yes: bool)
    ensures
        yes == contains(chars@, part@),
{
    if part.len() > chars.len() {
        return false;
    }
    let last: usize = chars.len() - part.len();
    let mut i: usize = 0;
    while i <= last
        invariant
            part.len() <= chars.len(),
            last == chars.len() - part.len(),
            i <= last + 1,
            forall|k: int| 0 <= k < i ==> #[trigger] chars@.subrange(k, k + part@.len()) != part@,
        decreases last + 1 - i,
    {
        if stands_at(chars, part, i) {
            return true;
        }
        if i == last {
            return false;
        }
        i += 1;
    }
    false
}

/// Whether `part` stands somewhere in `text`.
pub fn contains_text(text: &str, part: &str) -> (yes: bool)
    ensures
        yes == contains(text@, part@),
{
    let chars = chars_of(text);
    let wanted = chars_of(part);
    contains_chars(chars.as_slice(), wanted.as_slice())
}

/// Whether `s` begins with `part`.
pub open spec fn begins(s: Seq<char>, part: Seq<char>) -> bool {
    s.len() >= part.len() && s.subrange(0, part.len() as int) == part
}

/// Whether `s` ends in `part`.
pub open spec fn ends(s: Seq<char>, part: Seq<char>) -> bool {
    s.len() >= part.len() && s.subrange(s.len() - part.len(), s.len() as int) == part
}

pub fn begins_with(text: &str, part: &str) -> (yes: bool)
    ensures
        yes == begins(text@, part@),
{
    let chars = chars_of(text);
    let wanted = chars_of(part);
    chars.len() >= wanted.len() && stands_at(chars.as_slice(), wanted.as_slice(), 0)
}

pub fn ends_with(text: &str, part: &str) -> (yes: bool)
    ensures
        yes == ends(text@, part@),
{
    let chars = chars_of(text);
    let wanted = chars_of(part);
    chars.len() >= wanted.len() && stands_at(
        chars.as_slice(),
        wanted.as_slice(),
        chars.len() - wanted.len(),
    )
}

/// `text` without the `part` at its start, where it begins with it.
pub fn without_prefix(text: &str, part: &str) -> (rest: Option<String>)
    ensures
        rest is Some == begins(text@, part@),
        rest matches Some(tail) ==> tail@ == text@.subrange(part@.len() as int, text@.len() as int),
{
    let chars = chars_of(text);
    let wanted = chars_of(part);
    if chars.len() >= wanted.len() && stands_at(chars.as_slice(), wanted.as_slice(), 0) {
        let tail = piece(chars.as_slice(), wanted.len(), chars.len());
        Some(string_of(tail.as_slice()))
    } else {
        None
    }
}

/// Whether `list` holds `text`.
pub fn holds(list: &[String], text: &str) -> (yes: bool)
    ensures
        yes == views(list@).contains(text@),
{
    let mut i: usize = 0;
    while i < list.len()
        invariant
            i <= list.len(),
            forall|k: int| 0 <= k < i ==> list@[k]@ != text@,
        decreases list.len() - i,
    {
        if same(list[i].as_str(), text) {
            assert(views(list@)[i as int] == text@);
            return true;
        }
        i += 1;
    }
    false
}

// ---- numbers -----------------------------------------------------------

/// The character of a decimal digit.
pub open spec fn digit(d: nat) -> char {
    (48 + d) as char
}

/// A number in decimal.
pub open spec fn decimal(n: nat) -> Seq<char>
    decreases n,
{
    if n < 10 {
        seq![digit(n)]
    } else {
        decimal(n / 10).push(digit(n % 10))
    }
}

fn decimal_chars(n: u64) -> (chars: Vec<char>)
    ensures
        chars@ == decimal(n as nat),
    decreases n,
{
    let last: char = (48u8 + (n % 10) as u8) as char;
    if n < 10 {
        let mut chars: Vec<char> = Vec::new();
        chars.push(last);
        assert(chars@ =~= decimal(n as nat));
        chars
    } else {
        let mut chars = decimal_chars(n / 10);
        chars.push(last);
        chars
    }
}

/// A number in decimal.
pub fn decimal_text(n: u64) -> (text: String)
    ensures
        text@ == decimal(n as nat),
{
    let chars = decimal_chars(n);
    string_of(chars.as_slice())
}

/// A signed number in decimal.
pub open spec fn signed_decimal(n: int) -> Seq<char> {
    if n < 0 {
        seq!['-'] + decimal((-n) as nat)
    } else {
        decimal(n as nat)
    }
}

pub fn signed_decimal_text(n: i32) -> (text: String)
    ensures
        text@ == signed_decimal(n as int),
{
    if n < 0 {
        let mut text: String = String::new();
        text.push('-');
        let body = decimal_text((-(n as i64)) as u64);
        text.append(body.as_str());
        assert(text@ =~= signed_decimal(n as int));
        text
    } else {
        decimal_text(n as u64)
    }
}

/// Whether `c` is an ASCII digit.
pub open spec fn is_digit(c: char) -> bool {
    '0' <= c <= '9'
}

/// Whether `s` is a run of one or more digits.
pub open spec fn is_digits(s: Seq<char>) -> bool {
    s.len() > 0 && forall|i: int| 0 <= i < s.len() ==> is_digit(#[trigger] s[i])
}

/// The number that a run of digits writes.
pub open spec fn digits_value(s: Seq<char>) -> nat
    decreases s.len(),
{
    if s.len() == 0 {
        0
    } else {
        digits_value(s.drop_last()) * 10 + (s.last() as nat - 48) as nat
    }
}

/// What an unsigned number is read from: digits, which a plus sign may precede.
pub open spec fn unsigned_body(s: Seq<char>) -> Seq<char> {
    if s.len() > 0 && s[0] == '+' {
        s.drop_first()
    } else {
        s
    }
}

/// The unsigned number that `s` writes, when it writes one up to `max`.
pub open spec fn parsed(s: Seq<char>, max: nat) -> Option<nat> {
    let body = unsigned_body(s);
    if is_digits(body) && digits_value(body) <= max {
        Some(digits_value(body))
    } else {
        None
    }
}

pub proof fn digits_value_grows(s: Seq<char>, n: int)
    requires
        0 <= n <= s.len(),
    ensures
        digits_value(s.subrange(0, n)) <= digits_value(s),
    decreases s.len(),
{
    if n < s.len() {
        digits_value_grows(s.drop_last(), n);
        assert(s.drop_last().subrange(0, n) =~= s.subrange(0, n));
    } else {
        assert(s.subrange(0, n) =~= s);
    }
}

/// Reads an unsigned number of at most `max` from characters.
pub fn parse_chars(chars: &[char], max: u64) -> (number: Option<u64>)
    ensures
        number matches Some(n) ==> parsed(chars@, max as nat) == Some(n as nat),
        number is None ==> parsed(chars@, max as nat) is None,
{
    let from: usize = if chars.len() > 0 && chars[0] == '+' {
        1
    } else {
        0
    };
    let ghost body = unsigned_body(chars@);
    assert(body =~= chars@.subrange(from as int, chars@.len() as int));
    if from >= chars.len() {
        return None;
    }
    let mut value: u64 = 0;
    let mut i: usize = from;
    assert(body.subrange(0, 0) =~= Seq::empty());
    while i < chars.len()
        invariant
            from <= i <= chars.len(),
            from <= 1,
            body == unsigned_body(chars@),
            body == chars@.subrange(from as int, chars@.len() as int),
            value <= max,
            value == digits_value(body.subrange(0, i - from)),
            forall|k: int| 0 <= k < i - from ==> is_digit(#[trigger] body[k]),
        decreases chars.len() - i,
    {
        let c = chars[i];
        assert(body[i - from] == c);
        if !('0' <= c && c <= '9') {
            return None;
        }
        let d: u64 = c as u64 - 48;
        assert(body.subrange(0, i + 1 - from).drop_last() =~= body.subrange(0, i - from));
        proof {
            digits_value_grows(body, i + 1 - from);
        }
        if value > (max - d.min(max)) / 10 || d > max {
            assert(value * 10 + d > max);
            return None;
        }
        value = value * 10 + d;
        i += 1;
    }
    assert(body.subrange(0, i - from) =~= body);
    Some(value)
}

/// Reads an unsigned number of at most `max`.
pub fn parse_number(text: &str, max: u64) -> (number: Option<u64>)
    ensures
        number matches Some(n) ==> parsed(text@, max as nat) == Some(n as nat),
        number is None ==> parsed(text@, max as nat) is None,
{
    let chars = chars_of(text);
    parse_chars(chars.as_slice(), max)
}

// ---- case --------------------------------------------------------------

/// The lower-case form of an ASCII letter; any other character is kept.
pub open spec fn lower(c: char) -> char {
    if 'A' <= c <= 'Z' {
        (c as u32 + 32) as char
    } else {
        c
    }
}

/// The upper-case form of an ASCII letter; any other character is kept.
pub open spec fn upper(c: char) -> char {
    if 'a' <= c <= 'z' {
        (c as u32 - 32) as char
    } else {
        c
    }
}

/// `s` with its ASCII letters in lower case.
pub open spec fn lowered(s: Seq<char>) -> Seq<char> {
    Seq::new(s.len(), |i: int| lower(s[i]))
}

pub fn lower_char(c: char) -> (l: char)
    ensures
        l == lower(c),
{
    if 'A' <= c && c <= 'Z' {
        (c as u8 + 32) as char
    } else {
        c
    }
}

pub fn upper_char(c: char) -> (u: char)
    ensures
        u == upper(c),
{
    if 'a' <= c && c <= 'z' {
        (c as u8 - 32) as char
    } else {
        c
    }
}

/// `text` with its ASCII letters in lower case.
pub fn lower_text(text: &str) -> (result: String)
    ensures
        result@ == lowered(text@),
{
    let chars = chars_of(text);
    let mut result: String = String::new();
    let mut i: usize = 0;
    assert(result@ =~= lowered(chars@.subrange(0, 0)));
    while i < chars.len()
        invariant
            i <= chars.len(),
            result@ == lowered(chars@.subrange(0, i as int)),
        decreases chars.len() - i,
    {
        result.push(lower_char(chars[i]));
        assert(lowered(chars@.subrange(0, i + 1)) =~= lowered(chars@.subrange(0, i as int)).push(
            lower(chars@[i as int]),
        ));
        i += 1;
    }
    assert(chars@.subrange(0, i as int) =~= text@);
    result
}

// ---- joining -----------------------------------------------------------

/// The pieces one after another, with `sep` between each two.
pub open spec fn joined(pieces: Seq<Seq<char>>, sep: Seq<char>) -> Seq<char>
    decreases pieces.len(),
{
    if pieces.len() == 0 {
        Seq::empty()
    } else if pieces.len() == 1 {
        pieces[0]
    } else {
        joined(pieces.drop_last(), sep) + sep + pieces.last()
    }
}

/// The strings one after another, with `sep` between each two.
pub fn join(pieces: &[String], sep: &str) -> (text: String)
    ensures
        text@ == joined(views(pieces@), sep@),
{
    let mut text: String = String::new();
    let mut i: usize = 0;
    assert(text@ =~= joined(views(pieces@.subrange(0, 0)), sep@));
    while i < pieces.len()
        invariant
            i <= pieces.len(),
            text@ == joined(views(pieces@.subrange(0, i as int)), sep@),
        decreases pieces.len() - i,
    {
        let ghost done = views(pieces@.subrange(0, i as int));
        let ghost next = views(pieces@.subrange(0, i + 1));
        assert(next.drop_last() =~= done);
        assert(next.last() == pieces@[i as int]@);
        if i > 0 {
            text.append(sep);
        }
        text.append(pieces[i].as_str());
        assert(i == 0 ==> text@ =~= pieces@[0]@);
        i += 1;
    }
    assert(pieces@.subrange(0, i as int) =~= pieces@);
    text
}

// ---- signed numbers ----------------------------------------------------

/// The signed 32-bit number that `s` writes, when it writes one.
pub open spec fn parsed_i32(s: Seq<char>) -> Option<int> {
    if s.len() > 0 && s[0] == '-' {
        let body = s.drop_first();
        if is_digits(body) && digits_value(body) <= 0x8000_0000 {
            Some(-(digits_value(body) as int))
        } else {
            None
        }
    } else {
        match parsed(s, 0x7fff_ffff) {
            Some(n) => Some(n as int),
            None => None,
        }
    }
}

/// Reads a signed 32-bit number.
pub fn parse_i32(text: &str) -> (number: Option<i32>)
    ensures
        number matches Some(n) ==> parsed_i32(text@) == Some(n as int),
        number is None ==> parsed_i32(text@) is None,
{
    let chars = chars_of(text);
    if chars.len() > 0 && chars[0] == '-' {
        let body = piece(chars.as_slice(), 1, chars.len());
        assert(body@ =~= chars@.drop_first());
        if body.len() > 0 && body[0] == '+' {
            assert(!is_digit(body@[0]));
            return None;
        }
        match parse_chars(body.as_slice(), 0x8000_0000) {
            Some(n) => Some((-(n as i64)) as i32),
            None => None,
        }
    } else {
        match parse_chars(chars.as_slice(), 0x7fff_ffff) {
            Some(n) => Some(n as i32),
            None => None,
        }
    }
}

// ---- putting text together ---------------------------------------------

/// What an optional string holds.
pub open spec fn option_view(text: Option<String>) -> Option<Seq<char>> {
    match text {
        Some(t) => Some(t@),
        None => None,
    }
}

/// What an optional string slice holds.
pub open spec fn option_str_view(text: Option<&str>) -> Option<Seq<char>> {
    match text {
        Some(t) => Some(t@),
        None => None,
    }
}

pub fn owned(text: Option<&str>) -> (result: Option<String>)
    ensures
        option_view(result) == option_str_view(text),
{
    match text {
        Some(t) => Some(t.to_owned()),
        None => None,
    }
}

pub fn copy_option(text: &Option<String>) -> (result: Option<String>)
    ensures
        option_view(result) == option_view(*text),
{
    match text {
        Some(t) => Some(t.clone()),
        None => None,
    }
}

/// Whether an optional string holds `wanted`.
pub fn option_is(text: &Option<String>, wanted: &str) -> (yes: bool)
    ensures
        yes == (option_view(*text) == Some(wanted@)),
{
    match text {
        Some(t) => same(t.as_str(), wanted),
        None => false,
    }
}

pub fn concat2(a: &str, b: &str) -> (text: String)
    ensures
        text@ == a@ + b@,
{
    let mut text = a.to_owned();
    text.append(b);
    text
}

pub fn concat3(a: &str, b: &str, c: &str) -> (text: String)
    ensures
        text@ == a@ + b@ + c@,
{
    let mut text = a.to_owned();
    text.append(b);
    text.append(c);
    text
}

/// How std's `Debug` writes a string: in double quotes, with escapes.
pub uninterp spec fn debug_quoted(s: Seq<char>) -> Seq<char>;

/// `Debug` of `str`, through `format!`: the quoted and escaped form of the
/// text, which depends on nothing but the text.
#[verifier::external_body]
pub(crate) fn quoted(text: &str) -> (result: String)
    ensures
        result@ == debug_quoted(text@),
{
    format!("{text:?}")
}

/// How std's `Debug` writes an optional string.
pub open spec fn debug_option(text: Option<Seq<char>>) -> Seq<char> {
    match text {
        Some(t) => "Some("@ + debug_quoted(t) + ")"@,
        None => "None"@,
    }
}

pub fn quoted_option(text: &Option<String>) -> (result: String)
    ensures
        result@ == debug_option(option_view(*text)),
{
    match text {
        Some(t) => concat3("Some(", quoted(t.as_str()).as_str(), ")"),
        None => "None".to_owned(),
    }
}

/// `s` without every copy of `part` that it starts with.
pub open spec fn strip_all(s: Seq<char>, part: Seq<char>) -> Seq<char>
    decreases s.len(),
{
    if part.len() > 0 && begins(s, part) {
        strip_all(s.subrange(part.len() as int, s.len() as int), part)
    } else {
        s
    }
}

/// `text` without every copy of `part` that it starts with.
pub fn without_prefixes(text: &str, part: &str) -> (rest: String)
    ensures
        rest@ == strip_all(text@, part@),
{
    let chars = chars_of(text);
    let wanted = chars_of(part);
    let mut from: usize = 0;
    assert(chars@.subrange(0, chars@.len() as int) =~= chars@);
    while wanted.len() > 0 && chars.len() - from >= wanted.len() && stands_at(
        chars.as_slice(),
        wanted.as_slice(),
        from,
    )
        invariant
            from <= chars.len(),
            strip_all(text@, wanted@) == strip_all(
                chars@.subrange(from as int, chars@.len() as int),
                wanted@,
            ),
        decreases chars.len() - from,
    {
        let ghost rest = chars@.subrange(from as int, chars@.len() as int);
        assert(rest.subrange(0, wanted@.len() as int) =~= chars@.subrange(
            from as int,
            from + wanted@.len(),
        ));
        assert(rest.subrange(wanted@.len() as int, rest.len() as int) =~= chars@.subrange(
            from + wanted@.len(),
            chars@.len() as int,
        ));
        from += wanted.len();
    }
    let rest = piece(chars.as_slice(), from, chars.len());
    assert(rest@.len() >= wanted@.len() ==> rest@.subrange(0, wanted@.len() as int)
        =~= chars@.subrange(from as int, from + wanted@.len()));
    string_of(rest.as_slice())
}

// ---- order --------------------------------------------------------------

/// Dictionary order by code point, which is also the order of the UTF-8 bytes.
pub open spec fn precedes(a: Seq<char>, b: Seq<char>) -> bool
    decreases a.len(),
{
    if b.len() == 0 {
        false
    } else if a.len() == 0 {
        true
    } else if a[0] != b[0] {
        a[0] < b[0]
    } else {
        precedes(a.drop_first(), b.drop_first())
    }
}

/// Of two different texts exactly one precedes the other, and no text
/// precedes itself.
pub proof fn precedes_is_total(a: Seq<char>, b: Seq<char>)
    ensures
        a == b ==> !precedes(a, b) && !precedes(b, a),
        a != b ==> (precedes(a, b) <==> !precedes(b, a)),
    decreases a.len(),
{
    if a.len() > 0 && b.len() > 0 && a[0] == b[0] {
        precedes_is_total(a.drop_first(), b.drop_first());
        assert(a =~= seq![a[0]] + a.drop_first());
        assert(b =~= seq![b[0]] + b.drop_first());
    } else if a.len() == 0 && b.len() == 0 {
        assert(a =~= b);
    }
}

pub proof fn precedes_is_transitive(a: Seq<char>, b: Seq<char>, c: Seq<char>)
    requires
        precedes(a, b),
        precedes(b, c),
    ensures
        precedes(a, c),
    decreases a.len(),
{
    if a.len() > 0 && a[0] == b[0] && b[0] == c[0] {
        precedes_is_transitive(a.drop_first(), b.drop_first(), c.drop_first());
    }
}

/// Whether `a` precedes `b` in dictionary order.
pub fn comes_before(a: &str, b: &str) -> (yes: bool)
    ensures
        yes == precedes(a@, b@),
{
    let left = chars_of(a);
    let right = chars_of(b);
    let mut i: usize = 0;
    assert(left@.subrange(0, left@.len() as int) =~= left@);
    assert(right@.subrange(0, right@.len() as int) =~= right@);
    while i < left.len() && i < right.len()
        invariant
            i <= left.len(),
            i <= right.len(),
            precedes(a@, b@) == precedes(
                left@.subrange(i as int, left@.len() as int),
                right@.subrange(i as int, right@.len() as int),
            ),
        decreases left.len() - i,
    {
        let ghost x = left@.subrange(i as int, left@.len() as int);
        let ghost y = right@.subrange(i as int, right@.len() as int);
        assert(x.drop_first() =~= left@.subrange(i + 1, left@.len() as int));
        assert(y.drop_first() =~= right@.subrange(i + 1, right@.len() as int));
        if left[i] != right[i] {
            return left[i] < right[i];
        }
        i += 1;
    }
    i < right.len()
}

/// The pieces of `s` before and after the first `sep`, where it holds one.
pub open spec fn cut(s: Seq<char>, sep: char) -> Option<(Seq<char>, Seq<char>)>
    decreases s.len(),
{
    if s.len() == 0 {
        None
    } else if s[0] == sep {
        Some((Seq::empty(), s.drop_first()))
    } else {
        match cut(s.drop_first(), sep) {
            Some((head, tail)) => Some((seq![s[0]] + head, tail)),
            None => None,
        }
    }
}

pub open spec fn pair_view(pair: Option<(String, String)>) -> Option<(Seq<char>, Seq<char>)> {
    match pair {
        Some((head, tail)) => Some((head@, tail@)),
        None => None,
    }
}

proof fn cut_after(s: Seq<char>, sep: char, n: int)
    requires
        0 <= n <= s.len(),
        forall|k: int| 0 <= k < n ==> s[k] != sep,
    ensures
        cut(s, sep) == (match cut(s.subrange(n, s.len() as int), sep) {
            Some((head, tail)) => Some((s.subrange(0, n) + head, tail)),
            None => None,
        }),
    decreases n,
{
    if n == 0 {
        assert(s.subrange(0, s.len() as int) =~= s);
        match cut(s, sep) {
            Some((head, tail)) => {
                assert(s.subrange(0, 0) + head =~= head);
            },
            None => {},
        }
    } else {
        cut_after(s.drop_first(), sep, n - 1);
        assert(s.drop_first().subrange(n - 1, s.len() - 1) =~= s.subrange(n, s.len() as int));
        match cut(s.subrange(n, s.len() as int), sep) {
            Some((head, tail)) => {
                assert(seq![s[0]] + (s.drop_first().subrange(0, n - 1) + head) =~= s.subrange(0, n)
                    + head);
            },
            None => {},
        }
    }
}

/// The pieces of `text` before and after the first `sep`, where it holds one.
pub fn cut_text(text: &str, sep: char) -> (pieces: Option<(String, String)>)
    ensures
        pair_view(pieces) == cut(text@, sep),
{
    let chars = chars_of(text);
    let mut i: usize = 0;
    while i < chars.len()
        invariant
            i <= chars.len(),
            chars@ == text@,
            forall|k: int| 0 <= k < i ==> chars@[k] != sep,
        decreases chars.len() - i,
    {
        if chars[i] == sep {
            let head = piece(chars.as_slice(), 0, i);
            let tail = piece(chars.as_slice(), i + 1, chars.len());
            proof {
                cut_after(text@, sep, i as int);
                let rest = text@.subrange(i as int, text@.len() as int);
                assert(rest.drop_first() =~= tail@);
                assert(head@ + Seq::<char>::empty() =~= head@);
            }
            return Some((string_of(head.as_slice()), string_of(tail.as_slice())));
        }
        i += 1;
    }
    proof {
        cut_after(text@, sep, text@.len() as int);
    }
    None
}

/// The length of `text` in UTF-8 bytes.
pub fn byte_length(text: &str) -> (length: usize)
    ensures
        length == encode_utf8(text@).len(),
{
    text.as_bytes().len()
}

// ---- what splitting gives back of joining ----------------------------------

pub open spec fn lacks(s: Seq<char>, c: char) -> bool {
    forall|i: int| 0 <= i < s.len() ==> #[trigger] s[i] != c
}

proof fn split_after_piece(s: Seq<char>, piece: Seq<char>, sep: char)
    requires
        lacks(piece, sep),
    ensures
        split(s + piece, sep) == split(s, sep).drop_last().push(split(s, sep).last() + piece),
    decreases piece.len(),
{
    split_is_not_empty(s, sep);
    let pieces = split(s, sep);
    if piece.len() == 0 {
        assert(s + piece =~= s);
        assert(pieces.last() + piece =~= pieces.last());
        assert(pieces =~= pieces.drop_last().push(pieces.last()));
    } else {
        let less = piece.drop_last();
        assert forall|i: int| 0 <= i < less.len() implies #[trigger] less[i] != sep by {
            assert(piece[i] != sep);
        }
        split_after_piece(s, less, sep);
        assert((s + piece).drop_last() =~= s + less);
        assert((s + piece).last() == piece[piece.len() - 1]);
        let before = split(s + less, sep);
        assert(before.drop_last() =~= pieces.drop_last());
        assert(before.last().push(piece.last()) =~= pieces.last() + piece);
    }
}

/// Splitting behind one more separated piece gives one more piece.
pub proof fn split_one_more(s: Seq<char>, piece: Seq<char>, sep: char)
    requires
        lacks(piece, sep),
    ensures
        split(s + seq![sep] + piece, sep) == split(s, sep).push(piece),
{
    let with_sep = s + seq![sep];
    assert(with_sep.drop_last() =~= s);
    assert(with_sep.last() == sep);
    assert(split(with_sep, sep) == split(s, sep).push(Seq::empty()));
    split_after_piece(with_sep, piece, sep);
    assert(split(s, sep).push(Seq::<char>::empty()).drop_last() =~= split(s, sep));
    assert(Seq::<char>::empty() + piece =~= piece);
}

pub proof fn split_without_separator(s: Seq<char>, sep: char)
    requires
        lacks(s, sep),
    ensures
        split(s, sep) == seq![s],
{
    split_after_piece(Seq::empty(), s, sep);
    assert(Seq::<char>::empty() + s =~= s);
    assert(split(Seq::<char>::empty(), sep).drop_last().push(s) =~= seq![s]);
}

/// Splitting gives back the pieces that were joined, where there is one and
/// none of them holds the separator.
pub proof fn split_undoes_join(pieces: Seq<Seq<char>>, sep: char)
    requires
        pieces.len() > 0,
        forall|i: int| 0 <= i < pieces.len() ==> lacks(#[trigger] pieces[i], sep),
    ensures
        split(joined(pieces, seq![sep]), sep) == pieces,
    decreases pieces.len(),
{
    if pieces.len() == 1 {
        split_without_separator(pieces[0], sep);
        assert(pieces =~= seq![pieces[0]]);
    } else {
        let rest = pieces.drop_last();
        assert forall|i: int| 0 <= i < rest.len() implies lacks(#[trigger] rest[i], sep) by {
            assert(lacks(pieces[i], sep));
        }
        split_undoes_join(rest, sep);
        assert(lacks(pieces[pieces.len() - 1], sep));
        split_one_more(joined(rest, seq![sep]), pieces.last(), sep);
        assert(rest.push(pieces.last()) =~= pieces);
    }
}

proof fn decimal_is_digits(n: nat)
    ensures
        is_digits(decimal(n)),
        digits_value(decimal(n)) == n,
    decreases n,
{
    if n < 10 {
        let s = decimal(n);
        assert(s.drop_last() =~= Seq::empty());
        assert(digits_value(s.drop_last()) == 0);
        assert(is_digit(s[0]));
    } else {
        decimal_is_digits(n / 10);
        let s = decimal(n);
        assert(s.drop_last() =~= decimal(n / 10));
        assert forall|i: int| 0 <= i < s.len() implies is_digit(#[trigger] s[i]) by {
            if i < s.len() - 1 {
                assert(decimal(n / 10)[i] == s[i]);
            }
        }
    }
}

/// Reading a number that was written in decimal gives it back.
pub proof fn parsing_undoes_decimal(n: nat, max: nat)
    requires
        n <= max,
    ensures
        parsed(decimal(n), max) == Some(n),
        is_digits(decimal(n)),
{
    decimal_is_digits(n);
    assert(is_digit(decimal(n)[0]));
}

proof fn trim_start_stops(s: Seq<char>)
    ensures
        trim_start(s).len() > 0 ==> !white(trim_start(s)[0]),
    decreases s.len(),
{
    if s.len() > 0 && white(s[0]) {
        trim_start_stops(s.drop_first());
    }
}

proof fn trim_end_stops(s: Seq<char>)
    ensures
        trim_end(s).len() > 0 ==> !white(trim_end(s).last()),
        trim_end(s).len() <= s.len(),
        trim_end(s).len() > 0 ==> trim_end(s)[0] == s[0],
    decreases s.len(),
{
    if s.len() > 0 && white(s.last()) {
        trim_end_stops(s.drop_last());
    }
}

/// Trimming a trimmed text changes nothing.
pub proof fn trimming_twice_is_trimming(s: Seq<char>)
    ensures
        trimmed(trimmed(s)) == trimmed(s),
{
    trim_start_stops(s);
    trim_end_stops(trim_start(s));
    let core = trimmed(s);
    assert(trim_start(core) == core);
    assert(trim_end(core) == core);
}

proof fn joins_end_in_the_last_piece(pieces: Seq<Seq<char>>, last: Seq<char>, c: char, sep: Seq<char>)
    ensures
        joined(pieces.push(last.push(c)), sep) == joined(pieces.push(last), sep).push(c),
{
    let a = pieces.push(last.push(c));
    let b = pieces.push(last);
    assert(a.drop_last() =~= pieces);
    assert(b.drop_last() =~= pieces);
    if pieces.len() > 0 {
        assert(joined(pieces, sep) + sep + last.push(c) =~= (joined(pieces, sep) + sep + last).push(
            c,
        ));
    }
}

/// Joining gives back the text that was split, and no piece of it holds the
/// separator.
pub proof fn join_undoes_split(s: Seq<char>, sep: char)
    ensures
        joined(split(s, sep), seq![sep]) == s,
        forall|i: int| 0 <= i < split(s, sep).len() ==> lacks(#[trigger] split(s, sep)[i], sep),
    decreases s.len(),
{
    let pieces = split(s, sep);
    if s.len() == 0 {
        assert(joined(pieces, seq![sep]) =~= s);
    } else {
        let less = s.drop_last();
        let before = split(less, sep);
        join_undoes_split(less, sep);
        split_is_not_empty(less, sep);
        assert(s =~= less.push(s.last()));
        if s.last() == sep {
            assert(pieces.drop_last() =~= before);
            assert(joined(pieces, seq![sep]) =~= s);
            assert forall|i: int| 0 <= i < pieces.len() implies lacks(
                #[trigger] pieces[i],
                sep,
            ) by {
                if i < before.len() {
                    assert(pieces[i] == before[i]);
                }
            }
        } else {
            assert(before =~= before.drop_last().push(before.last()));
            joins_end_in_the_last_piece(before.drop_last(), before.last(), s.last(), seq![sep]);
            assert forall|i: int| 0 <= i < pieces.len() implies lacks(
                #[trigger] pieces[i],
                sep,
            ) by {
                assert(lacks(before[i], sep));
                if i < before.len() - 1 {
                    assert(pieces[i] == before[i]);
                } else {
                    assert(pieces[i] == before[i].push(s.last()));
                }
            }
        }
    }
}

proof fn trim_start_is_a_rest(s: Seq<char>) -> (from: int)
    ensures
        0 <= from <= s.len(),
        trim_start(s) == s.subrange(from, s.len() as int),
        forall|k: int| 0 <= k < from ==> white(#[trigger] s[k]),
    decreases s.len(),
{
    if s.len() > 0 && white(s[0]) {
        let rest = s.drop_first();
        let from = trim_start_is_a_rest(rest);
        assert(rest.subrange(from, rest.len() as int) =~= s.subrange(from + 1, s.len() as int));
        assert forall|k: int| 0 <= k < from + 1 implies white(#[trigger] s[k]) by {
            if k > 0 {
                assert(rest[k - 1] == s[k]);
            }
        }
        from + 1
    } else {
        assert(s.subrange(0, s.len() as int) =~= s);
        0
    }
}

proof fn trim_end_is_a_start(s: Seq<char>) -> (to: int)
    ensures
        0 <= to <= s.len(),
        trim_end(s) == s.subrange(0, to),
        forall|k: int| to <= k < s.len() ==> white(#[trigger] s[k]),
    decreases s.len(),
{
    if s.len() > 0 && white(s.last()) {
        let rest = s.drop_last();
        let to = trim_end_is_a_start(rest);
        assert(rest.subrange(0, to) =~= s.subrange(0, to));
        assert forall|k: int| to <= k < s.len() implies white(#[trigger] s[k]) by {
            if k < rest.len() {
                assert(rest[k] == s[k]);
            }
        }
        to
    } else {
        assert(s.subrange(0, s.len() as int) =~= s);
        s.len() as int
    }
}

/// Trimming takes white space from the ends alone: what is left stands in the
/// text, only white space stands around it, and it neither starts nor ends in
/// white space.
pub proof fn trimming_takes_white_space_alone(s: Seq<char>) -> (range: (int, int))
    ensures
        0 <= range.0 <= range.1 <= s.len(),
        trimmed(s) == s.subrange(range.0, range.1),
        forall|k: int| 0 <= k < range.0 ==> white(#[trigger] s[k]),
        forall|k: int| range.1 <= k < s.len() ==> white(#[trigger] s[k]),
        trimmed(s).len() > 0 ==> !white(trimmed(s)[0]) && !white(trimmed(s).last()),
        white(' ') && white('\t') && white('\n') && white('\r'),
        forall|c: char| '!' <= c <= '~' ==> !(#[trigger] white(c)),
{
    let from = trim_start_is_a_rest(s);
    let rest = trim_start(s);
    let to = trim_end_is_a_start(rest);
    trim_start_stops(s);
    trim_end_stops(rest);
    assert(rest.subrange(0, to) =~= s.subrange(from, from + to));
    assert forall|k: int| from + to <= k < s.len() implies white(#[trigger] s[k]) by {
        assert(rest[k - from] == s[k]);
    }
    (from, from + to)
}

/// The lower-case form keeps the length, changes the capital letters alone,
/// and takes each to the small letter of the same place in the alphabet.
pub proof fn lower_case_changes_capitals_alone(s: Seq<char>, i: int)
    requires
        0 <= i < s.len(),
    ensures
        lowered(s).len() == s.len(),
        !('A' <= s[i] <= 'Z') ==> lowered(s)[i] == s[i],
        'A' <= s[i] <= 'Z' ==> lowered(s)[i] as int - 'a' as int == s[i] as int - 'A' as int,
        'A' <= s[i] <= 'Z' ==> upper(lowered(s)[i]) == s[i],
        !('a' <= s[i] <= 'z') ==> upper(s[i]) == s[i],
{
}

/// A number is written with its last digit last, and read so: one more digit
/// makes ten times the number and that digit.
pub proof fn digits_are_written_from_the_left(n: nat, s: Seq<char>, c: char, max: nat)
    requires
        '0' <= c <= '9',
    ensures
        digits_value(s.push(c)) == 10 * digits_value(s) + (c as int - '0' as int),
        decimal(n).last() as int == '0' as int + n % 10,
        n >= 10 ==> decimal(n).drop_last() == decimal(n / 10),
        n < 10 ==> decimal(n).len() == 1,
        parsed(s, max) matches Some(number) ==> number <= max && {
            let body = if s.len() > 0 && s[0] == '+' {
                s.drop_first()
            } else {
                s
            };
            body.len() > 0 && (forall|i: int|
                0 <= i < body.len() ==> '0' <= #[trigger] body[i] <= '9') && number
                == digits_value(body)
        },
{
    assert(s.push(c).drop_last() =~= s);
    if n >= 10 {
        assert(decimal(n).drop_last() =~= decimal(n / 10));
    }
}

/// A text begins or ends with a part where it is that part with something
/// behind or before it.
pub proof fn parts_begin_and_end(part: Seq<char>, rest: Seq<char>)
    ensures
        begins(part + rest, part),
        ends(rest + part, part),
        contains(rest + part, part),
        contains(part + rest, part),
{
    assert((part + rest).subrange(0, part.len() as int) =~= part);
    assert((part + rest).subrange(0, (0 + part.len()) as int) =~= part);
    assert((rest + part).subrange(
        rest.len() as int,
        (rest.len() + part.len()) as int,
    ) =~= part);
}

/// The two pieces around the first separator, put together again, are the
/// text; the first holds none. Without a separator there are no pieces.
pub proof fn cuts_are_at_the_first_separator(s: Seq<char>, sep: char)
    ensures
        cut(s, sep) is None <==> lacks(s, sep),
        cut(s, sep) matches Some((head, tail)) ==> s == head + seq![sep] + tail && lacks(head, sep),
    decreases s.len(),
{
    if s.len() > 0 && s[0] != sep {
        let rest = s.drop_first();
        cuts_are_at_the_first_separator(rest, sep);
        assert(s =~= seq![s[0]] + rest);
        match cut(rest, sep) {
            Some((head, tail)) => {
                assert(s =~= (seq![s[0]] + head) + seq![sep] + tail);
                let all = seq![s[0]] + head;
                assert forall|i: int| 0 <= i < all.len() implies #[trigger] all[i] != sep by {
                    if i > 0 {
                        assert(all[i] == head[i - 1]);
                    }
                }
                assert(s[1 + head.len() as int] == sep);
            },
            None => {
                assert forall|i: int| 0 <= i < s.len() implies #[trigger] s[i] != sep by {
                    if i > 0 {
                        assert(s[i] == rest[i - 1]);
                    }
                }
            },
        }
    } else if s.len() > 0 {
        assert(s =~= Seq::<char>::empty() + seq![sep] + s.drop_first());
        assert(s[0] == sep);
    }
}

/// A text precedes another exactly where it is the start of it, or has the
/// smaller character at the first place where they differ.
pub proof fn order_is_by_the_first_difference(
    start: Seq<char>,
    a: char,
    b: char,
    rest: Seq<char>,
    other: Seq<char>,
)
    ensures
        precedes(start, start.push(b) + other),
        !precedes(start.push(b) + other, start),
        a != b ==> (precedes(start.push(a) + rest, start.push(b) + other) <==> a < b),
    decreases start.len(),
{
    let x = start.push(a) + rest;
    let y = start.push(b) + other;
    if start.len() > 0 {
        let less = start.drop_first();
        order_is_by_the_first_difference(less, a, b, rest, other);
        assert(x.drop_first() =~= less.push(a) + rest);
        assert(y.drop_first() =~= less.push(b) + other);
    }
}

/// A text that neither starts nor ends in white space is trimmed already.
pub proof fn trimming_keeps_what_is_trimmed(s: Seq<char>)
    requires
        s.len() > 0 ==> !white(s[0]) && !white(s.last()),
    ensures
        trimmed(s) == s,
{
    let range = trimming_takes_white_space_alone(s);
    if s.len() > 0 {
        assert(range.0 == 0);
        assert(range.1 == s.len()) by {
            if range.1 < s.len() {
                assert(white(s[s.len() - 1]));
            }
        }
    }
    assert(s.subrange(0, s.len() as int) =~= s);
}

/// A text is cut into the pieces that it was put together from, where the first
/// holds no separator.
pub proof fn cutting_undoes_joining(head: Seq<char>, sep: char, tail: Seq<char>)
    requires
        lacks(head, sep),
    ensures
        cut(head + seq![sep] + tail, sep) == Some((head, tail)),
    decreases head.len(),
{
    let s = head + seq![sep] + tail;
    if head.len() == 0 {
        assert(s.drop_first() =~= tail);
        assert(head =~= Seq::empty());
    } else {
        let rest = head.drop_first();
        assert(lacks(rest, sep)) by {
            assert forall|i: int| 0 <= i < rest.len() implies #[trigger] rest[i] != sep by {
                assert(rest[i] == head[i + 1]);
            }
        }
        cutting_undoes_joining(rest, sep, tail);
        assert(s.drop_first() =~= rest + seq![sep] + tail);
        assert(s[0] == head[0]);
        assert(seq![head[0]] + rest =~= head);
    }
}

/// A number in decimal is made of digits: it holds no other character, is not
/// blank at its ends, and reads as the number.
pub proof fn numbers_are_written_in_digits(n: nat, c: char)
    requires
        !('0' <= c <= '9'),
    ensures
        lacks(decimal(n), c),
        trimmed(decimal(n)) == decimal(n),
        decimal(n).len() > 0,
        n <= i32::MAX ==> parsed_i32(decimal(n)) == Some(n as int),
{
    decimal_is_digits(n);
    let s = decimal(n);
    assert(is_digit(s[0]) && is_digit(s[s.len() - 1]));
    trimming_keeps_what_is_trimmed(s);
    parsing_undoes_decimal(n, 0x7fff_ffff + n);
    if n <= i32::MAX {
        parsing_undoes_decimal(n, 0x7fff_ffff);
    }
}

proof fn words_are_whole(s: Seq<char>)
    ensures
        forall|i: int, k: int|
            0 <= i < words(s).len() && 0 <= k < words(s)[i].len() ==> !white(
                #[trigger] words(s)[i][k],
            ),
        forall|i: int| 0 <= i < words(s).len() ==> (#[trigger] words(s)[i]).len() > 0,
        s.len() > 0 && !white(s.last()) ==> words(s).len() > 0,
    decreases s.len(),
{
    if s.len() > 0 {
        let less = s.drop_last();
        let before = words(less);
        words_are_whole(less);
        let all = words(s);
        let extends = !white(s.last()) && !(s.len() == 1 || white(s[s.len() - 2]));
        if extends {
            assert(less.last() == s[s.len() - 2]);
            assert(before.len() > 0);
        }
        assert forall|i: int, k: int| 0 <= i < all.len() && 0 <= k < all[i].len() implies !white(
            #[trigger] all[i][k],
        ) by {
            if extends && i == before.len() - 1 {
                assert(all[i] == before.last().push(s.last()));
                if k < before.last().len() {
                    assert(!white(before[before.len() - 1][k]));
                }
            } else if i < before.len() {
                assert(all[i] == before[i]);
                assert(!white(before[i][k]));
            }
        }
        assert forall|i: int| 0 <= i < all.len() implies (#[trigger] all[i]).len() > 0 by {
            if extends && i == before.len() - 1 {
                assert(all[i] == before.last().push(s.last()));
            } else if i < before.len() {
                assert(all[i] == before[i]);
            }
        }
    }
}

proof fn words_grow(s: Seq<char>, start: Seq<char>, more: Seq<char>)
    requires
        start.len() > 0,
        forall|i: int| 0 <= i < start.len() ==> !white(#[trigger] start[i]),
        forall|i: int| 0 <= i < more.len() ==> !white(#[trigger] more[i]),
        words(s + start).len() > 0,
        words(s + start).last() == start,
    ensures
        words(s + start + more) == words(s + start).drop_last().push(start + more),
    decreases more.len(),
{
    let base = words(s + start);
    if more.len() == 0 {
        assert(s + start + more =~= s + start);
        assert(start + more =~= start);
        assert(base =~= base.drop_last().push(base.last()));
    } else {
        let less = more.drop_last();
        assert forall|i: int| 0 <= i < less.len() implies !white(#[trigger] less[i]) by {
            assert(less[i] == more[i]);
        }
        words_grow(s, start, less);
        let text = s + start + more;
        assert(text.drop_last() =~= s + start + less);
        assert(text.last() == more[more.len() - 1]);
        if less.len() == 0 {
            assert(text[text.len() - 2] == start[start.len() - 1]);
        } else {
            assert(text[text.len() - 2] == more[more.len() - 2]);
        }
        assert(text.len() >= 2);
        let before = words(text.drop_last());
        assert(before.last() == start + less);
        assert((start + less).push(more.last()) =~= start + more);
        assert(before.drop_last() =~= base.drop_last());
    }
}

/// The words of a text are its runs without white space: behind white space one
/// more run is one more word, and white space alone adds none. No word is empty
/// or holds white space.
pub proof fn words_stand_between_white_space(s: Seq<char>, blank: char, word: Seq<char>)
    requires
        white(blank),
        word.len() > 0,
        forall|i: int| 0 <= i < word.len() ==> !white(#[trigger] word[i]),
    ensures
        words(Seq::empty()).len() == 0,
        words(s.push(blank)) == words(s),
        words(s.push(blank) + word) == words(s).push(word),
        words(word) == seq![word],
        forall|i: int| 0 <= i < words(s).len() ==> (#[trigger] words(s)[i]).len() > 0,
        forall|i: int, k: int|
            0 <= i < words(s).len() && 0 <= k < words(s)[i].len() ==> !white(
                #[trigger] words(s)[i][k],
            ),
{
    words_are_whole(s);
    let spaced = s.push(blank);
    assert(spaced.drop_last() =~= s);
    let start = seq![word[0]];
    let more = word.drop_first();
    assert forall|i: int| 0 <= i < more.len() implies !white(#[trigger] more[i]) by {
        assert(more[i] == word[i + 1]);
    }
    assert(start + more =~= word);
    let first = spaced + start;
    assert(spaced.last() == blank);
    assert(!white(word[0]));
    assert(first.drop_last() =~= spaced);
    assert(first.last() == word[0]);
    assert(first[first.len() - 2] == blank);
    assert(words(spaced) == words(s));
    assert(!white(first.last()));
    assert(white(first[first.len() - 2]));
    assert(words(first) == words(spaced).push(seq![first.last()]));
    assert(words(first) =~= words(s).push(start));
    words_grow(spaced, start, more);
    assert(spaced + start + more =~= spaced + word);
    assert(words(first).drop_last() =~= words(s));
    let none = Seq::<char>::empty();
    let alone = none + start;
    assert(alone =~= start);
    assert(start.drop_last() =~= none);
    assert(words(none) =~= Seq::empty());
    assert(words(alone) =~= seq![start]);
    words_grow(none, start, more);
    assert(none + start + more =~= word);
    assert(words(word) =~= seq![word]);
}

/// Lines that hold neither a line feed nor a carriage return are read back as
/// they were put together, where the last is not empty; and a line feed at the
/// end adds none.
pub proof fn lines_are_read_back(pieces: Seq<Seq<char>>)
    requires
        pieces.len() > 0,
        pieces.last().len() > 0,
        forall|i: int|
            0 <= i < pieces.len() ==> lacks(#[trigger] pieces[i], '\n') && lacks(pieces[i], '\r'),
    ensures
        lines(joined(pieces, seq!['\n'])) == pieces,
        lines(joined(pieces, seq!['\n']).push('\n')) == pieces,
        lines(Seq::empty()).len() == 0,
{
    split_undoes_join(pieces, '\n');
    let text = joined(pieces, seq!['\n']);
    assert forall|i: int| 0 <= i < pieces.len() implies chomp(#[trigger] pieces[i])
        == pieces[i] by {
        assert(lacks(pieces[i], '\r'));
        if pieces[i].len() > 0 {
            assert(pieces[i][pieces[i].len() - 1] != '\r');
        }
    }
    assert(lines(text) =~= pieces);
    let ended = text.push('\n');
    assert(ended.drop_last() =~= text);
    assert(split(ended, '\n') == pieces.push(Seq::empty()));
    assert(lines(ended) =~= pieces);
    let none = Seq::<char>::empty();
    assert(split(none, '\n').len() == 1);
    assert(lines(none) =~= Seq::empty());
}

/// A signed number is written with a dash before it where it is negative, and
/// reads back as it was.
pub proof fn signed_numbers_read_back(n: i32)
    ensures
        n < 0 ==> signed_decimal(n as int) == seq!['-'] + decimal((-n) as nat),
        n >= 0 ==> signed_decimal(n as int) == decimal(n as nat),
        parsed_i32(signed_decimal(n as int)) == Some(n as int),
{
    let size = if n < 0 {
        (-(n as int)) as nat
    } else {
        n as nat
    };
    numbers_are_written_in_digits(size, '-');
    decimal_is_digits(size);
    if n < 0 {
        assert((seq!['-'] + decimal(size)).drop_first() =~= decimal(size));
    }
}

/// A line loses one carriage return at its end, and every copy of a part that a
/// text starts with is taken away.
pub proof fn ends_and_starts_are_taken_away(s: Seq<char>, part: Seq<char>)
    ensures
        chomp(s.push('\r')) == s,
        s.len() > 0 && s.last() != '\r' ==> chomp(s) == s,
        part.len() > 0 ==> strip_all(part + s, part) == strip_all(s, part),
        part.len() > 0 ==> !begins(strip_all(s, part), part),
    decreases s.len(),
{
    assert(s.push('\r').drop_last() =~= s);
    if part.len() > 0 {
        assert((part + s).subrange(0, part.len() as int) =~= part);
        assert((part + s).subrange(part.len() as int, (part + s).len() as int) =~= s);
        if begins(s, part) {
            ends_and_starts_are_taken_away(s.subrange(part.len() as int, s.len() as int), part);
        }
    }
}

} // verus!
