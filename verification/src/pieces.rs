//! Cutting texts apart: at longer separators, at a number of bytes, and into
//! the lines and words of system files.

use crate::text::{
    begins, begins_with, chars_of, contains, lacks, lines, option_view, pair_view, piece, split,
    split_lines, split_text, split_words, stands_at, string_of, views, views_push, words,
};
use vstd::prelude::*;
use vstd::string::*;

verus! {

// ---- separators of several characters --------------------------------------------------

/// Where `part` first stands in `s`.
pub open spec fn found(s: Seq<char>, part: Seq<char>) -> Option<int>
    decreases s.len(),
{
    if begins(s, part) {
        Some(0)
    } else if s.len() == 0 {
        None
    } else {
        match found(s.drop_first(), part) {
            Some(i) => Some(i + 1),
            None => None,
        }
    }
}

proof fn found_is_inside(s: Seq<char>, part: Seq<char>)
    ensures
        found(s, part) matches Some(i) ==> 0 <= i <= s.len() - part.len(),
    decreases s.len(),
{
    if !begins(s, part) && s.len() > 0 {
        found_is_inside(s.drop_first(), part);
    }
}

proof fn found_after(s: Seq<char>, part: Seq<char>, n: int)
    requires
        0 <= n <= s.len(),
        forall|k: int|
            0 <= k < n ==> !begins(#[trigger] s.subrange(k, s.len() as int), part),
    ensures
        found(s, part) == (match found(s.subrange(n, s.len() as int), part) {
            Some(i) => Some(i + n),
            None => None,
        }),
    decreases n,
{
    if n == 0 {
        assert(s.subrange(0, s.len() as int) =~= s);
    } else {
        assert(s.subrange(0, s.len() as int) =~= s);
        let rest = s.drop_first();
        assert forall|k: int| 0 <= k < n - 1 implies !begins(
            #[trigger] rest.subrange(k, rest.len() as int),
            part,
        ) by {
            assert(rest.subrange(k, rest.len() as int) =~= s.subrange(k + 1, s.len() as int));
        }
        found_after(rest, part, n - 1);
        assert(rest.subrange(n - 1, rest.len() as int) =~= s.subrange(n, s.len() as int));
    }
}

proof fn begins_later(s: Seq<char>, part: Seq<char>, k: int)
    requires
        0 <= k <= s.len(),
    ensures
        begins(s.subrange(k, s.len() as int), part) <==> (k + part.len() <= s.len() && s.subrange(
            k,
            k + part.len(),
        ) == part),
{
    let rest = s.subrange(k, s.len() as int);
    if k + part.len() <= s.len() {
        assert(rest.subrange(0, part.len() as int) =~= s.subrange(k, k + part.len()));
    }
}

fn find(chars: &[char], part: &[char]) -> (at: Option<usize>)
    ensures
        match at {
            Some(i) => found(chars@, part@) == Some(i as int) && i + part@.len() <= chars@.len(),
            None => found(chars@, part@) is None,
        },
{
    let mut i: usize = 0;
    while i < chars.len() && part.len() <= chars.len() - i
        invariant
            i <= chars.len(),
            forall|k: int|
                0 <= k < i ==> !begins(
                    #[trigger] chars@.subrange(k, chars@.len() as int),
                    part@,
                ),
        decreases chars.len() - i,
    {
        proof {
            begins_later(chars@, part@, i as int);
        }
        if stands_at(chars, part, i) {
            proof {
                found_after(chars@, part@, i as int);
            }
            return Some(i);
        }
        i += 1;
    }
    proof {
        found_after(chars@, part@, i as int);
        let rest = chars@.subrange(i as int, chars@.len() as int);
        if i < chars@.len() {
            too_short(rest, part@);
        } else {
            assert(rest =~= Seq::<char>::empty());
            if part@.len() == 0 {
                assert(rest.subrange(0, 0) =~= part@);
            }
        }
    }
    if i == chars.len() && part.len() == 0 {
        return Some(i);
    }
    proof {
        if i == chars@.len() {
            assert(!begins(chars@.subrange(i as int, chars@.len() as int), part@));
        }
    }
    None
}

proof fn too_short(s: Seq<char>, part: Seq<char>)
    requires
        s.len() < part.len(),
    ensures
        found(s, part) is None,
    decreases s.len(),
{
    if s.len() > 0 {
        too_short(s.drop_first(), part);
    }
}

/// The text before and after the first `part`.
pub open spec fn cut_on(s: Seq<char>, part: Seq<char>) -> Option<(Seq<char>, Seq<char>)> {
    match found(s, part) {
        Some(i) => Some((s.subrange(0, i), s.subrange(i + part.len(), s.len() as int))),
        None => None,
    }
}

pub fn cut_on_text(text: &str, part: &str) -> (pieces: Option<(String, String)>)
    ensures
        pair_view(pieces) == cut_on(text@, part@),
{
    let chars = chars_of(text);
    let wanted = chars_of(part);
    match find(chars.as_slice(), wanted.as_slice()) {
        Some(i) => {
            assert(i + wanted.len() <= chars.len());
            let head = piece(chars.as_slice(), 0, i);
            let tail = piece(chars.as_slice(), i + wanted.len(), chars.len());
            Some((string_of(head.as_slice()), string_of(tail.as_slice())))
        },
        None => None,
    }
}

/// The pieces of `s` between the places where `part` stands.
pub open spec fn split_on(s: Seq<char>, part: Seq<char>) -> Seq<Seq<char>>
    decreases s.len(),
{
    match cut_on(s, part) {
        Some((head, tail)) => if tail.len() < s.len() {
            seq![head] + split_on(tail, part)
        } else {
            seq![s]
        },
        None => seq![s],
    }
}

pub fn split_on_text(text: &str, part: &str) -> (pieces: Vec<String>)
    requires
        part@.len() > 0,
    ensures
        views(pieces@) == split_on(text@, part@),
{
    let mut pieces: Vec<String> = Vec::new();
    let mut rest = chars_of(text);
    let wanted = chars_of(part);
    assert(views(pieces@) + split_on(rest@, part@) =~= split_on(text@, part@));
    loop
        invariant
            wanted@ == part@,
            part@.len() > 0,
            views(pieces@) + split_on(rest@, part@) == split_on(text@, part@),
        decreases rest@.len(),
    {
        let ghost before = views(pieces@);
        match find(rest.as_slice(), wanted.as_slice()) {
            Some(i) => {
                assert(i + wanted.len() <= rest.len());
                let head = piece(rest.as_slice(), 0, i);
                let tail = piece(rest.as_slice(), i + wanted.len(), rest.len());
                let text_head = string_of(head.as_slice());
                proof {
                    views_push(pieces@, text_head);
                    assert(cut_on(rest@, part@) == Some((head@, tail@)));
                    assert(before + (seq![head@] + split_on(tail@, part@)) =~= before.push(head@)
                        + split_on(tail@, part@));
                }
                pieces.push(text_head);
                rest = tail;
            },
            None => {
                let last = string_of(rest.as_slice());
                proof {
                    views_push(pieces@, last);
                    assert(before + seq![rest@] =~= before.push(rest@));
                }
                pieces.push(last);
                return pieces;
            },
        }
    }
}

// ---- the last of a character -----------------------------------------------------------

/// What follows the last `c`.
pub open spec fn after_last(s: Seq<char>, c: char) -> Option<Seq<char>>
    decreases s.len(),
{
    if s.len() == 0 {
        None
    } else if s.last() == c {
        Some(Seq::empty())
    } else {
        match after_last(s.drop_last(), c) {
            Some(tail) => Some(tail.push(s.last())),
            None => None,
        }
    }
}

proof fn after_last_from(s: Seq<char>, c: char, n: int)
    requires
        0 <= n <= s.len(),
        forall|k: int| n <= k < s.len() ==> s[k] != c,
    ensures
        after_last(s, c) == (match after_last(s.subrange(0, n), c) {
            Some(tail) => Some(tail + s.subrange(n, s.len() as int)),
            None => None,
        }),
    decreases s.len() - n,
{
    if n == s.len() {
        assert(s.subrange(0, n) =~= s);
        match after_last(s, c) {
            Some(tail) => assert(tail + s.subrange(n, n) =~= tail),
            None => {},
        }
    } else {
        let rest = s.drop_last();
        after_last_from(rest, c, n);
        assert(rest.subrange(0, n) =~= s.subrange(0, n));
        match after_last(s.subrange(0, n), c) {
            Some(tail) => assert((tail + rest.subrange(n, rest.len() as int)).push(s.last())
                =~= tail + s.subrange(n, s.len() as int)),
            None => {},
        }
    }
}

pub fn text_after_last(text: &str, c: char) -> (tail: Option<String>)
    ensures
        option_view(tail) == after_last(text@, c),
{
    let chars = chars_of(text);
    let mut i: usize = chars.len();
    while i > 0
        invariant
            i <= chars.len(),
            chars@ == text@,
            forall|k: int| i <= k < chars.len() ==> chars@[k] != c,
        decreases i,
    {
        if chars[i - 1] == c {
            proof {
                after_last_from(text@, c, i as int);
                let head = text@.subrange(0, i as int);
                assert(head.last() == c);
                assert(Seq::<char>::empty() + text@.subrange(i as int, text@.len() as int)
                    =~= text@.subrange(i as int, text@.len() as int));
            }
            let rest = piece(chars.as_slice(), i, chars.len());
            return Some(string_of(rest.as_slice()));
        }
        i -= 1;
    }
    proof {
        after_last_from(text@, c, 0);
        assert(text@.subrange(0, 0) =~= Seq::<char>::empty());
    }
    None
}

// ---- repeated characters at the ends ---------------------------------------------------

/// `s` without the `c` at its start.
pub open spec fn stripped_start(s: Seq<char>, c: char) -> Seq<char>
    decreases s.len(),
{
    if s.len() > 0 && s[0] == c {
        stripped_start(s.drop_first(), c)
    } else {
        s
    }
}

/// `s` without the `c` at its end.
pub open spec fn stripped_end(s: Seq<char>, c: char) -> Seq<char>
    decreases s.len(),
{
    if s.len() > 0 && s.last() == c {
        stripped_end(s.drop_last(), c)
    } else {
        s
    }
}

/// `s` without the `c` at either end.
pub open spec fn stripped(s: Seq<char>, c: char) -> Seq<char> {
    stripped_end(stripped_start(s, c), c)
}

pub fn strip_text(text: &str, c: char) -> (core: String)
    ensures
        core@ == stripped(text@, c),
{
    let chars = chars_of(text);
    let mut from: usize = 0;
    assert(chars@.subrange(0, chars@.len() as int) =~= chars@);
    while from < chars.len() && chars[from] == c
        invariant
            from <= chars.len(),
            chars@ == text@,
            stripped_start(chars@.subrange(from as int, chars@.len() as int), c) == stripped_start(
                text@,
                c,
            ),
        decreases chars.len() - from,
    {
        assert(chars@.subrange(from as int, chars@.len() as int).drop_first() =~= chars@.subrange(
            from + 1,
            chars@.len() as int,
        ));
        from += 1;
    }
    let ghost core = chars@.subrange(from as int, chars@.len() as int);
    assert(stripped_start(text@, c) == core);
    let mut to: usize = chars.len();
    while to > from && chars[to - 1] == c
        invariant
            from <= to <= chars.len(),
            stripped_end(chars@.subrange(from as int, to as int), c) == stripped_end(core, c),
        decreases to,
    {
        assert(chars@.subrange(from as int, to as int).drop_last() =~= chars@.subrange(
            from as int,
            to - 1,
        ));
        to -= 1;
    }
    let kept = piece(chars.as_slice(), from, to);
    string_of(kept.as_slice())
}

// ---- bytes -----------------------------------------------------------------------------

/// The UTF-8 bytes of one character.
pub open spec fn utf8_width(c: char) -> nat {
    if (c as u32) < 0x80 {
        1
    } else if (c as u32) < 0x800 {
        2
    } else if (c as u32) < 0x1_0000 {
        3
    } else {
        4
    }
}

/// The longest start of `s` that fits in `budget` UTF-8 bytes.
pub open spec fn within_bytes(s: Seq<char>, budget: nat) -> Seq<char>
    decreases s.len(),
{
    if s.len() == 0 || utf8_width(s[0]) > budget {
        Seq::empty()
    } else {
        seq![s[0]] + within_bytes(s.drop_first(), (budget - utf8_width(s[0])) as nat)
    }
}

/// Shortens a text to at most `max_bytes` UTF-8 bytes, at a character.
pub fn truncate_string(value: &str, max_bytes: usize) -> (result: String)
    ensures
        result@ == within_bytes(value@, max_bytes as nat),
{
    let chars = chars_of(value);
    let mut budget: usize = max_bytes;
    let mut i: usize = 0;
    assert(chars@.subrange(0, chars@.len() as int) =~= chars@);
    assert(Seq::<char>::empty() + within_bytes(chars@, max_bytes as nat) =~= within_bytes(
        chars@,
        max_bytes as nat,
    ));
    assert(chars@.subrange(0, 0) =~= Seq::<char>::empty());
    while i < chars.len()
        invariant
            i <= chars.len(),
            chars@ == value@,
            chars@.subrange(0, i as int) + within_bytes(
                chars@.subrange(i as int, chars@.len() as int),
                budget as nat,
            ) == within_bytes(value@, max_bytes as nat),
        decreases chars.len() - i,
    {
        let code: u32 = chars[i] as u32;
        let width: usize = if code < 0x80 {
            1
        } else if code < 0x800 {
            2
        } else if code < 0x1_0000 {
            3
        } else {
            4
        };
        let ghost rest = chars@.subrange(i as int, chars@.len() as int);
        assert(rest[0] == chars@[i as int]);
        if width > budget {
            assert(chars@.subrange(0, i as int) + Seq::<char>::empty() =~= chars@.subrange(
                0,
                i as int,
            ));
            let kept = piece(chars.as_slice(), 0, i);
            return string_of(kept.as_slice());
        }
        proof {
            assert(rest.drop_first() =~= chars@.subrange(i + 1, chars@.len() as int));
            let later = within_bytes(rest.drop_first(), (budget - width) as nat);
            assert(chars@.subrange(0, i as int) + (seq![rest[0]] + later) =~= chars@.subrange(
                0,
                i + 1,
            ) + later);
        }
        budget -= width;
        i += 1;
    }
    proof {
        let rest = chars@.subrange(i as int, chars@.len() as int);
        assert(rest =~= Seq::<char>::empty());
        assert(chars@.subrange(0, i as int) + within_bytes(rest, budget as nat) =~= chars@);
    }
    value.to_owned()
}

/// A shortened text is a start of the text, and fits.
pub proof fn shortening_fits(s: Seq<char>, budget: nat)
    ensures
        begins(s, within_bytes(s, budget)),
        total_width(within_bytes(s, budget)) <= budget,
    decreases s.len(),
{
    let kept = within_bytes(s, budget);
    if s.len() == 0 || utf8_width(s[0]) > budget {
        assert(s.subrange(0, 0) =~= kept);
    } else {
        let rest = s.drop_first();
        let left = (budget - utf8_width(s[0])) as nat;
        shortening_fits(rest, left);
        let inner = within_bytes(rest, left);
        assert(kept =~= seq![s[0]] + inner);
        assert(kept.drop_first() =~= inner);
        assert forall|k: int| 0 <= k < kept.len() implies kept[k] == s[k] by {
            if k > 0 {
                assert(inner[k - 1] == rest.subrange(0, inner.len() as int)[k - 1]);
            }
        }
        assert(s.subrange(0, kept.len() as int) =~= kept);
    }
}

/// The UTF-8 bytes of a text, character by character.
pub open spec fn total_width(s: Seq<char>) -> nat
    decreases s.len(),
{
    if s.len() == 0 {
        0
    } else {
        utf8_width(s[0]) + total_width(s.drop_first())
    }
}

// ---- lines and words -------------------------------------------------------------------

/// The first line that begins with `start`.
pub open spec fn line_with(rows: Seq<Seq<char>>, start: Seq<char>) -> Option<Seq<char>>
    decreases rows.len(),
{
    if rows.len() == 0 {
        None
    } else if begins(rows[0], start) {
        Some(rows[0])
    } else {
        line_with(rows.drop_first(), start)
    }
}

/// Finds the first line of a text that begins with `start`.
pub fn find_line(text: &str, start: &str) -> (line: Option<String>)
    ensures
        option_view(line) == line_with(lines(text@), start@),
{
    let rows = split_lines(text);
    let ghost all = views(rows@);
    let mut i: usize = 0;
    assert(all.subrange(0, all.len() as int) =~= all);
    while i < rows.len()
        invariant
            i <= rows.len(),
            all == views(rows@),
            all == lines(text@),
            line_with(all.subrange(i as int, all.len() as int), start@) == line_with(all, start@),
        decreases rows.len() - i,
    {
        let ghost rest = all.subrange(i as int, all.len() as int);
        assert(rest[0] == rows@[i as int]@);
        assert(rest.drop_first() =~= all.subrange(i + 1, all.len() as int));
        if begins_with(rows[i].as_str(), start) {
            return Some(rows[i].clone());
        }
        i += 1;
    }
    assert(all.subrange(i as int, all.len() as int) =~= Seq::<Seq<char>>::empty());
    None
}

/// The entry of a list at `n`.
pub open spec fn entry(list: Seq<Seq<char>>, n: nat) -> Option<Seq<char>> {
    if n < list.len() {
        Some(list[n as int])
    } else {
        None
    }
}

/// The word at `n`.
pub fn word_at(text: &str, n: usize) -> (word: Option<String>)
    ensures
        option_view(word) == entry(words(text@), n as nat),
{
    let list = split_words(text);
    if n < list.len() {
        assert(views(list@)[n as int] == list@[n as int]@);
        Some(list[n].clone())
    } else {
        None
    }
}

/// The piece at `n` between separators.
pub fn piece_at(text: &str, sep: char, n: usize) -> (part: Option<String>)
    ensures
        option_view(part) == entry(split(text@, sep), n as nat),
{
    let list = split_text(text, sep);
    if n < list.len() {
        assert(views(list@)[n as int] == list@[n as int]@);
        Some(list[n].clone())
    } else {
        None
    }
}

// ---- more laws -----------------------------------------------------------------

/// A part is found at the first place where it stands, and is found wherever it
/// stands at all.
pub proof fn parts_are_found_where_they_stand_first(s: Seq<char>, part: Seq<char>)
    ensures
        match found(s, part) {
            Some(i) => {
                &&& 0 <= i && i + part.len() <= s.len()
                &&& s.subrange(i, i + part.len()) == part
                &&& forall|k: int| 0 <= k < i ==> #[trigger] s.subrange(k, k + part.len()) != part
            },
            None => forall|k: int|
                0 <= k && k + part.len() <= s.len() ==> #[trigger] s.subrange(k, k + part.len())
                    != part,
        },
    decreases s.len(),
{
    if begins(s, part) {
        assert(s.subrange(0, 0 + part.len() as int) =~= s.subrange(0, part.len() as int));
    } else if s.len() > 0 {
        let rest = s.drop_first();
        parts_are_found_where_they_stand_first(rest, part);
        match found(rest, part) {
            Some(i) => {
                assert(rest.subrange(i, i + part.len()) =~= s.subrange(
                    i + 1,
                    i + 1 + part.len(),
                ));
                assert forall|k: int| 0 <= k < i + 1 implies #[trigger] s.subrange(
                    k,
                    k + part.len(),
                ) != part by {
                    if k > 0 {
                        assert(rest.subrange(k - 1, k - 1 + part.len()) =~= s.subrange(
                            k,
                            k + part.len(),
                        ));
                    } else {
                        assert(s.subrange(0, 0 + part.len() as int) =~= s.subrange(
                            0,
                            part.len() as int,
                        ));
                    }
                }
            },
            None => {
                assert forall|k: int| 0 <= k && k + part.len() <= s.len() implies
                #[trigger] s.subrange(k, k + part.len()) != part by {
                    if k > 0 {
                        assert(rest.subrange(k - 1, k - 1 + part.len()) =~= s.subrange(
                            k,
                            k + part.len(),
                        ));
                    } else {
                        assert(s.subrange(0, 0 + part.len() as int) =~= s.subrange(
                            0,
                            part.len() as int,
                        ));
                    }
                }
            },
        }
    } else {
        assert forall|k: int| 0 <= k && k + part.len() <= s.len() implies #[trigger] s.subrange(
            k,
            k + part.len(),
        ) != part by {
            assert(s.subrange(0, part.len() as int) =~= s.subrange(k, k + part.len()));
        }
    }
}

/// A text is cut around the first place of a part: its two pieces with the part
/// between them are the text.
pub proof fn cuts_keep_the_text(s: Seq<char>, part: Seq<char>)
    ensures
        cut_on(s, part) matches Some((head, tail)) ==> head + part + tail == s,
        cut_on(s, part) is None ==> !contains(s, part),
{
    parts_are_found_where_they_stand_first(s, part);
    match cut_on(s, part) {
        Some((head, tail)) => {
            let i = found(s, part)->Some_0;
            assert(head + part + tail =~= s) by {
                assert forall|k: int| 0 <= k < s.len() implies (head + part + tail)[k] == s[k] by {
                    if i <= k < i + part.len() {
                        assert(s.subrange(i, i + part.len())[k - i] == s[k]);
                    }
                }
            }
        },
        None => {},
    }
}

/// What stands behind the last place of a character holds none, and with all
/// that stands before it makes the text.
pub proof fn tails_follow_the_last_place(head: Seq<char>, c: char, tail: Seq<char>)
    requires
        lacks(tail, c),
    ensures
        after_last(head + seq![c] + tail, c) == Some(tail),
        after_last(tail, c) is None,
    decreases tail.len(),
{
    let s = head + seq![c] + tail;
    if tail.len() == 0 {
        assert(s.last() == c);
        assert(tail =~= Seq::empty());
    } else {
        let less = tail.drop_last();
        assert(lacks(less, c)) by {
            assert forall|i: int| 0 <= i < less.len() implies #[trigger] less[i] != c by {
                assert(less[i] == tail[i]);
            }
        }
        tails_follow_the_last_place(head, c, less);
        assert(s.drop_last() =~= head + seq![c] + less);
        assert(s.last() == tail.last() && tail[tail.len() - 1] != c);
        assert(less.push(tail.last()) =~= tail);
    }
}

/// A text is shortened no more than it must be: what fits is kept whole, and
/// otherwise the next character would not fit.
pub proof fn shortening_keeps_what_fits(s: Seq<char>, budget: nat)
    ensures
        within_bytes(s, budget).len() <= s.len(),
        within_bytes(s, budget).len() < s.len() ==> total_width(within_bytes(s, budget))
            + utf8_width(s[within_bytes(s, budget).len() as int]) > budget,
        total_width(s) <= budget ==> within_bytes(s, budget) == s,
    decreases s.len(),
{
    let short = within_bytes(s, budget);
    if s.len() > 0 && utf8_width(s[0]) <= budget {
        let rest = s.drop_first();
        let left = (budget - utf8_width(s[0])) as nat;
        shortening_keeps_what_fits(rest, left);
        let tail = within_bytes(rest, left);
        assert(short.drop_first() =~= tail);
        if short.len() < s.len() {
            assert(s[short.len() as int] == rest[tail.len() as int]);
        }
        if total_width(s) <= budget {
            assert(seq![s[0]] + rest =~= s);
        }
    } else if s.len() == 0 {
        assert(short =~= s);
    }
}

/// The line that is found is the first of all that begin so.
pub proof fn the_first_line_is_found(rows: Seq<Seq<char>>, start: Seq<char>, k: int)
    requires
        0 <= k < rows.len(),
        begins(rows[k], start),
        forall|i: int| 0 <= i < k ==> !begins(#[trigger] rows[i], start),
    ensures
        line_with(rows, start) == Some(rows[k]),
    decreases k,
{
    if k > 0 {
        let rest = rows.drop_first();
        assert(!begins(rows[0], start));
        assert forall|i: int| 0 <= i < k - 1 implies !begins(#[trigger] rest[i], start) by {
            assert(rest[i] == rows[i + 1]);
        }
        the_first_line_is_found(rest, start, k - 1);
    }
}

/// Nothing is left of a stripped character at the ends, and a text without it
/// there stays as it is.
pub proof fn stripping_takes_the_ends_alone(s: Seq<char>, c: char)
    ensures
        stripped_start(s, c).len() > 0 ==> stripped_start(s, c)[0] != c,
        stripped_end(s, c).len() > 0 ==> stripped_end(s, c).last() != c,
        s.len() > 0 && s[0] != c && s.last() != c ==> stripped(s, c) == s,
        stripped_start(seq![c] + s, c) == stripped_start(s, c),
        stripped_end(s.push(c), c) == stripped_end(s, c),
    decreases s.len(),
{
    if s.len() > 0 && s[0] == c {
        stripping_takes_the_ends_alone(s.drop_first(), c);
    }
    if s.len() > 0 && s.last() == c {
        stripping_takes_the_ends_alone(s.drop_last(), c);
    }
    assert((seq![c] + s).drop_first() =~= s);
    assert(s.push(c).drop_last() =~= s);
}

} // verus!
