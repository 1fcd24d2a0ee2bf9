//! The substitutions of a font, all of whose glyphs the parser loads.

use crate::font_bytes::{
    left_is, pair_at, quad_at, read_pair, read_quad, spend, spent, WORK,
};
use vstd::prelude::*;

verus! {

/// The length of a list that the parser cannot walk: it counts one further in
/// 16 bits.
pub const TOO_LONG: u64 = 0xffff;

/// What the list of glyphs at `at`, a count and that many numbers, leaves of a
/// budget. A list that is cut off is not walked.
pub open spec fn after_list(table: Seq<u8>, at: int, left: nat) -> Option<nat> {
    if at + 2 > table.len() || at + 2 + 2 * pair_at(table, at) > table.len() {
        Some(left)
    } else if pair_at(table, at) == TOO_LONG {
        None
    } else {
        spent(left, pair_at(table, at) as nat)
    }
}

fn spend_list(table: &[u8], at: u64, left: u64) -> (rest: Option<u64>)
    requires
        at <= 0x2_0000_0000,
    ensures
        left_is(rest, after_list(table@, at as int, left as nat)),
{
    if at + 2 > table.len() as u64 {
        return Some(left);
    }
    let count: u64 = read_pair(table, at);
    if at + 2 + 2 * count > table.len() as u64 {
        return Some(left);
    }
    if count == TOO_LONG {
        return None;
    }
    spend(left, count)
}

/// What the ranges of a coverage leave of a budget, from range `k` on.
pub open spec fn after_ranges(table: Seq<u8>, at: int, k: int, count: int, left: nat) -> Option<nat>
    decreases count - k,
{
    if k >= count {
        Some(left)
    } else {
        let start = pair_at(table, at + 6 * k);
        let end = pair_at(table, at + 6 * k + 2);
        match spent(
            left,
            if end > start {
                (1 + end - start) as nat
            } else {
                1
            },
        ) {
            Some(rest) => after_ranges(table, at, k + 1, count, rest),
            None => None,
        }
    }
}

fn spend_ranges(table: &[u8], at: u64, count: u64, left: u64) -> (rest: Option<u64>)
    requires
        count <= 0xffff,
        at <= 0x2_0000_0000,
        at + 6 * count <= table.len(),
    ensures
        left_is(rest, after_ranges(table@, at as int, 0, count as int, left as nat)),
{
    let mut budget: u64 = left;
    let mut k: u64 = 0;
    while k < count
        invariant
            k <= count <= 0xffff,
            at <= 0x2_0000_0000,
            at + 6 * count <= table.len(),
            after_ranges(table@, at as int, 0, count as int, left as nat) == after_ranges(
                table@,
                at as int,
                k as int,
                count as int,
                budget as nat,
            ),
        decreases count - k,
    {
        let start: u64 = read_pair(table, at + 6 * k);
        let end: u64 = read_pair(table, at + 6 * k + 2);
        let cost: u64 = if end > start {
            1 + end - start
        } else {
            1
        };
        match spend(budget, cost) {
            Some(rest) => {
                budget = rest;
            },
            None => return None,
        }
        k += 1;
    }
    Some(budget)
}

/// What the coverage at `at`, a list of glyphs or of ranges, leaves of a
/// budget.
pub open spec fn after_coverage(table: Seq<u8>, at: int, left: nat) -> Option<nat> {
    if at + 4 > table.len() {
        Some(left)
    } else if pair_at(table, at) == 1 {
        after_list(table, at + 2, left)
    } else if pair_at(table, at) == 2 {
        let count = pair_at(table, at + 2);
        if at + 4 + 6 * count > table.len() {
            Some(left)
        } else if count == TOO_LONG {
            None
        } else {
            after_ranges(table, at + 4, 0, count, left)
        }
    } else {
        Some(left)
    }
}

fn spend_coverage(table: &[u8], at: u64, left: u64) -> (rest: Option<u64>)
    requires
        at <= 0x1_8000_0000,
    ensures
        left_is(rest, after_coverage(table@, at as int, left as nat)),
{
    if at + 4 > table.len() as u64 {
        return Some(left);
    }
    let format: u64 = read_pair(table, at);
    if format == 1 {
        return spend_list(table, at + 2, left);
    }
    if format == 2 {
        let count: u64 = read_pair(table, at + 2);
        if at + 4 + 6 * count > table.len() as u64 {
            return Some(left);
        }
        if count == TOO_LONG {
            return None;
        }
        return spend_ranges(table, at + 4, count, left);
    }
    Some(left)
}

/// What the list of offsets at `at` leaves of a budget.
pub open spec fn after_set(table: Seq<u8>, at: int, left: nat) -> Option<nat> {
    if at + 2 > table.len() || at + 2 + 2 * pair_at(table, at) > table.len() {
        Some(left)
    } else {
        spent(left, pair_at(table, at) as nat)
    }
}

fn spend_set(table: &[u8], at: u64, left: u64) -> (rest: Option<u64>)
    requires
        at <= 0x2_0000_0000,
    ensures
        left_is(rest, after_set(table@, at as int, left as nat)),
{
    if at + 2 > table.len() as u64 {
        return Some(left);
    }
    let count: u64 = read_pair(table, at);
    if at + 2 + 2 * count > table.len() as u64 {
        return Some(left);
    }
    spend(left, count)
}

/// What the sets of the subtable at `base`, whose offsets stand at `at`, leave
/// of a budget, from set `k` on: sets of ligatures, or lists of glyphs.
pub open spec fn after_sets(
    table: Seq<u8>,
    base: int,
    k: int,
    count: int,
    ligatures: bool,
    left: nat,
) -> Option<nat>
    decreases count - k,
{
    if k >= count {
        Some(left)
    } else {
        let at = base + pair_at(table, base + 6 + 2 * k);
        match spent(left, 1) {
            Some(rest) => match if ligatures {
                after_set(table, at, rest)
            } else {
                after_list(table, at, rest)
            } {
                Some(more) => after_sets(table, base, k + 1, count, ligatures, more),
                None => None,
            },
            None => None,
        }
    }
}

fn spend_sets(table: &[u8], base: u64, count: u64, ligatures: bool, left: u64) -> (rest: Option<u64>)
    requires
        count <= 0xffff,
        base <= 0x1_8000_0000,
        base + 6 + 2 * count <= table.len(),
    ensures
        left_is(rest, after_sets(table@, base as int, 0, count as int, ligatures, left as nat)),
{
    let mut budget: u64 = left;
    let mut k: u64 = 0;
    while k < count
        invariant
            k <= count <= 0xffff,
            base <= 0x1_8000_0000,
            base + 6 + 2 * count <= table.len(),
            after_sets(table@, base as int, 0, count as int, ligatures, left as nat) == after_sets(
                table@,
                base as int,
                k as int,
                count as int,
                ligatures,
                budget as nat,
            ),
        decreases count - k,
    {
        let at: u64 = base + read_pair(table, base + 6 + 2 * k);
        let rest: u64 = match spend(budget, 1) {
            Some(rest) => rest,
            None => return None,
        };
        let more = if ligatures {
            spend_set(table, at, rest)
        } else {
            spend_list(table, at, rest)
        };
        match more {
            Some(more) => {
                budget = more;
            },
            None => return None,
        }
        k += 1;
    }
    Some(budget)
}

/// What a subtable that is no extension leaves of a budget.
pub open spec fn after_plain(table: Seq<u8>, at: int, kind: int, left: nat) -> Option<nat> {
    let len = table.len();
    if at + 6 > len {
        Some(left)
    } else {
        let format = pair_at(table, at);
        if kind == 1 && format == 1 {
            after_coverage(table, at + pair_at(table, at + 2), left)
        } else if kind == 1 && format == 2 {
            after_list(table, at + 4, left)
        } else if (kind == 2 || kind == 3 || kind == 4) && format == 1 {
            let count = pair_at(table, at + 4);
            if at + 6 + 2 * count > len {
                Some(left)
            } else {
                after_sets(table, at, 0, count, kind == 4, left)
            }
        } else if kind == 8 && format == 1 {
            // Behind the coverages that stand before and behind the glyph.
            let ahead = at + 6 + 2 * pair_at(table, at + 4);
            if ahead + 2 > len {
                Some(left)
            } else {
                after_list(table, ahead + 2 + 2 * pair_at(table, ahead), left)
            }
        } else {
            Some(left)
        }
    }
}

fn spend_plain(table: &[u8], at: u64, kind: u64, left: u64) -> (rest: Option<u64>)
    requires
        at <= 0x1_0000_ffff,
    ensures
        left_is(rest, after_plain(table@, at as int, kind as int, left as nat)),
{
    let len: u64 = table.len() as u64;
    if at + 6 > len {
        return Some(left);
    }
    let format: u64 = read_pair(table, at);
    if kind == 1 && format == 1 {
        return spend_coverage(table, at + read_pair(table, at + 2), left);
    }
    if kind == 1 && format == 2 {
        return spend_list(table, at + 4, left);
    }
    if (kind == 2 || kind == 3 || kind == 4) && format == 1 {
        let count: u64 = read_pair(table, at + 4);
        if at + 6 + 2 * count > len {
            return Some(left);
        }
        return spend_sets(table, at, count, kind == 4, left);
    }
    if kind == 8 && format == 1 {
        let ahead: u64 = at + 6 + 2 * read_pair(table, at + 4);
        if ahead + 2 > len {
            return Some(left);
        }
        return spend_list(table, ahead + 2 + 2 * read_pair(table, ahead), left);
    }
    Some(left)
}

/// What a subtable leaves of a budget. An extension leads to a subtable of
/// another kind further on; one that leads to an extension again is refused,
/// since the parser follows such a chain without end.
pub open spec fn after_subtable(table: Seq<u8>, at: int, kind: int, left: nat) -> Option<nat> {
    if kind != 7 {
        after_plain(table, at, kind, left)
    } else if at + 8 > table.len() || pair_at(table, at) != 1 {
        Some(left)
    } else if pair_at(table, at + 2) == 7 {
        None
    } else if at + quad_at(table, at + 4) > table.len() {
        Some(left)
    } else {
        after_plain(table, at + quad_at(table, at + 4), pair_at(table, at + 2), left)
    }
}

fn spend_subtable(table: &[u8], at: u64, kind: u64, left: u64) -> (rest: Option<u64>)
    requires
        table.len() <= 0xffff_ffff,
        at <= 0x1_0000_ffff,
    ensures
        left_is(rest, after_subtable(table@, at as int, kind as int, left as nat)),
{
    if kind != 7 {
        return spend_plain(table, at, kind, left);
    }
    if at + 8 > table.len() as u64 || read_pair(table, at) != 1 {
        return Some(left);
    }
    let inner: u64 = read_pair(table, at + 2);
    if inner == 7 {
        return None;
    }
    let place: u64 = at + read_quad(table, at + 4);
    if place > table.len() as u64 {
        return Some(left);
    }
    spend_plain(table, place, inner, left)
}

/// What the subtables of the lookup at `base` leave of a budget, from subtable
/// `k` on.
pub open spec fn after_subtables(
    table: Seq<u8>,
    base: int,
    k: int,
    count: int,
    kind: int,
    left: nat,
) -> Option<nat>
    decreases count - k,
{
    if k >= count {
        Some(left)
    } else {
        match spent(left, 1) {
            Some(rest) => match after_subtable(
                table,
                base + pair_at(table, base + 6 + 2 * k),
                kind,
                rest,
            ) {
                Some(more) => after_subtables(table, base, k + 1, count, kind, more),
                None => None,
            },
            None => None,
        }
    }
}

/// What the lookup at `at` leaves of a budget.
pub open spec fn after_lookup(table: Seq<u8>, at: int, left: nat) -> Option<nat> {
    if at + 6 > table.len() || at + 6 + 2 * pair_at(table, at + 4) > table.len() {
        Some(left)
    } else {
        after_subtables(table, at, 0, pair_at(table, at + 4), pair_at(table, at), left)
    }
}

fn spend_subtables(table: &[u8], at: u64, count: u64, kind: u64, left: u64) -> (rest: Option<u64>)
    requires
        table.len() <= 0xffff_ffff,
        at <= 0x1_ffff,
        count <= 0xffff,
        at + 6 + 2 * count <= table.len(),
    ensures
        left_is(
            rest,
            after_subtables(table@, at as int, 0, count as int, kind as int, left as nat),
        ),
{
    let mut budget: u64 = left;
    let mut k: u64 = 0;
    while k < count
        invariant
            table.len() <= 0xffff_ffff,
            at <= 0x1_ffff,
            k <= count <= 0xffff,
            at + 6 + 2 * count <= table.len(),
            after_subtables(table@, at as int, 0, count as int, kind as int, left as nat)
                == after_subtables(
                table@,
                at as int,
                k as int,
                count as int,
                kind as int,
                budget as nat,
            ),
        decreases count - k,
    {
        let rest: u64 = match spend(budget, 1) {
            Some(rest) => rest,
            None => return None,
        };
        let place: u64 = at + read_pair(table, at + 6 + 2 * k);
        match spend_subtable(table, place, kind, rest) {
            Some(more) => {
                budget = more;
            },
            None => return None,
        }
        k += 1;
    }
    Some(budget)
}

fn spend_lookup(table: &[u8], at: u64, left: u64) -> (rest: Option<u64>)
    requires
        table.len() <= 0xffff_ffff,
        at <= 0x1_ffff,
    ensures
        left_is(rest, after_lookup(table@, at as int, left as nat)),
{
    if at + 6 > table.len() as u64 {
        return Some(left);
    }
    let count: u64 = read_pair(table, at + 4);
    if at + 6 + 2 * count > table.len() as u64 {
        return Some(left);
    }
    spend_subtables(table, at, count, read_pair(table, at), left)
}

/// What the lookups of the list at `base` leave of a budget, from lookup `k`
/// on.
pub open spec fn after_lookups(table: Seq<u8>, base: int, k: int, count: int, left: nat) -> Option<
    nat,
>
    decreases count - k,
{
    if k >= count {
        Some(left)
    } else {
        match spent(left, 1) {
            Some(rest) => match after_lookup(
                table,
                base + pair_at(table, base + 2 + 2 * k),
                rest,
            ) {
                Some(more) => after_lookups(table, base, k + 1, count, more),
                None => None,
            },
            None => None,
        }
    }
}

fn spend_lookups(table: &[u8], base: u64, count: u64, left: u64) -> (rest: Option<u64>)
    requires
        table.len() <= 0xffff_ffff,
        base <= 0xffff,
        count <= 0xffff,
        base + 2 + 2 * count <= table.len(),
    ensures
        left_is(rest, after_lookups(table@, base as int, 0, count as int, left as nat)),
{
    let mut budget: u64 = left;
    let mut k: u64 = 0;
    while k < count
        invariant
            table.len() <= 0xffff_ffff,
            base <= 0xffff,
            k <= count <= 0xffff,
            base + 2 + 2 * count <= table.len(),
            after_lookups(table@, base as int, 0, count as int, left as nat) == after_lookups(
                table@,
                base as int,
                k as int,
                count as int,
                budget as nat,
            ),
        decreases count - k,
    {
        let rest: u64 = match spend(budget, 1) {
            Some(rest) => rest,
            None => return None,
        };
        let at: u64 = base + read_pair(table, base + 2 + 2 * k);
        match spend_lookup(table, at, rest) {
            Some(more) => {
                budget = more;
            },
            None => return None,
        }
        k += 1;
    }
    Some(budget)
}

/// Whether the glyphs of all substitutions can be listed with a bounded
/// effort, and no list of them is too long to be walked.
pub open spec fn substitutions_are_sane(table: Seq<u8>) -> bool {
    table.len() < 10 || pair_at(table, 0) != 1 || {
        let base = pair_at(table, 8);
        base + 2 > table.len() || base + 2 + 2 * pair_at(table, base) > table.len()
            || after_lookups(table, base, 0, pair_at(table, base), WORK as nat) is Some
    }
}

pub(crate) fn check_substitutions(table: &[u8]) -> (yes: bool)
    requires
        table.len() <= 0xffff_ffff,
    ensures
        yes == substitutions_are_sane(table@),
{
    if table.len() < 10 || read_pair(table, 0) != 1 {
        return true;
    }
    let base: u64 = read_pair(table, 8);
    if base + 2 > table.len() as u64 {
        return true;
    }
    let count: u64 = read_pair(table, base);
    if base + 2 + 2 * count > table.len() as u64 {
        return true;
    }
    spend_lookups(table, base, count, WORK).is_some()
}

} // verus!
