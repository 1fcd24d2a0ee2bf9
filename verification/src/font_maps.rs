//! The tables of a font that map characters, and those with 32-bit counts.

use crate::font_bytes::{
    left_is, pair_at, quad_at, read_pair, read_quad, spend, spent, LIMIT, WORK,
};
use vstd::prelude::*;

verus! {

/// Whether a list of `count` entries of `size` bytes that begins `from` bytes
/// into a piece of a font ends where the parser can count to.
pub open spec fn list_fits(from: int, size: int, count: int) -> bool {
    from + size * count <= LIMIT
}

/// Whether the list behind the 32-bit count at `at` fits; its place is counted
/// from `base`. A table that has no such count has no such list.
pub open spec fn counted_fits(table: Seq<u8>, base: int, at: int, size: int) -> bool {
    at + 4 > table.len() || list_fits(at + 4 - base, size, quad_at(table, at))
}

pub(crate) fn check_counted(table: &[u8], base: u64, at: u64, size: u64) -> (yes: bool)
    requires
        base <= at <= 0x2_0000_0000,
        size <= 16,
    ensures
        yes == counted_fits(table@, base as int, at as int, size as int),
{
    if at + 4 > table.len() as u64 {
        return true;
    }
    let count: u64 = read_quad(table, at);
    assert(0 <= size * count <= 16 * 0xffff_ffff) by (nonlinear_arith)
        requires
            0 <= size <= 16,
            0 <= count <= 0xffff_ffff,
    ;
    at + 4 - base + size * count <= LIMIT
}

// ---- character maps --------------------------------------------------------------------

/// How many code points a range holds.
pub open spec fn span(start: int, end: int) -> nat {
    if end >= start {
        (end - start + 1) as nat
    } else {
        0
    }
}

/// What the groups of a map leave of a budget, from group `k` on; each code
/// point costs `each`.
pub open spec fn after_groups(
    table: Seq<u8>,
    at: int,
    k: int,
    count: int,
    each: nat,
    left: nat,
) -> Option<nat>
    decreases count - k,
{
    if k >= count {
        Some(left)
    } else {
        let start = quad_at(table, at + 12 * k);
        let end = quad_at(table, at + 12 * k + 4);
        match spent(left, 1 + span(start, end) * each) {
            Some(rest) => after_groups(table, at, k + 1, count, each, rest),
            None => None,
        }
    }
}

/// What the segments of a map leave of a budget, from segment `k` on.
pub open spec fn after_segments(
    table: Seq<u8>,
    ends: int,
    starts: int,
    k: int,
    count: int,
    left: nat,
) -> Option<nat>
    decreases count - k,
{
    if k >= count {
        Some(left)
    } else {
        let start = pair_at(table, starts + 2 * k);
        let end = pair_at(table, ends + 2 * k);
        match spent(left, 1 + span(start, end)) {
            Some(rest) => after_segments(table, ends, starts, k + 1, count, rest),
            None => None,
        }
    }
}

/// What the map at `start` leaves of a budget; none where that is not enough,
/// or where its list does not fit.
pub open spec fn after_map(table: Seq<u8>, start: int, left: nat) -> Option<nat> {
    let len = table.len();
    if start + 2 > len {
        Some(left)
    } else {
        let format = pair_at(table, start);
        if format == 0 {
            spent(left, 256)
        } else if format == 2 {
            // Each high byte reaches up to the last code of two bytes.
            spent(left, 0x80_8000)
        } else if format == 4 {
            if start + 16 > len {
                Some(left)
            } else {
                let count = pair_at(table, start + 6) / 2;
                if start + 16 + 8 * count > len {
                    Some(left)
                } else {
                    after_segments(table, start + 14, start + 16 + 2 * count, 0, count, left)
                }
            }
        } else if format == 6 {
            if start + 10 > len {
                Some(left)
            } else {
                spent(left, pair_at(table, start + 8) as nat)
            }
        } else if format == 10 {
            if start + 20 > len {
                Some(left)
            } else if !counted_fits(table, start, start + 16, 2) {
                None
            } else if start + 20 + 2 * quad_at(table, start + 16) > len {
                Some(left)
            } else {
                spent(left, quad_at(table, start + 16) as nat)
            }
        } else if format == 12 || format == 13 {
            if start + 16 > len {
                Some(left)
            } else if !counted_fits(table, start, start + 12, 12) {
                None
            } else {
                let count = quad_at(table, start + 12);
                if start + 16 + 12 * count > len {
                    Some(left)
                } else {
                    after_groups(
                        table,
                        start + 16,
                        0,
                        count,
                        if format == 12 {
                            1
                        } else {
                            count as nat
                        },
                        left,
                    )
                }
            }
        } else if format == 14 {
            if counted_fits(table, start, start + 6, 11) {
                Some(left)
            } else {
                None
            }
        } else {
            Some(left)
        }
    }
}

/// What the maps of a table leave of a budget, from map `k` on.
pub open spec fn after_maps(table: Seq<u8>, k: int, count: int, left: nat) -> Option<nat>
    decreases count - k,
{
    if k >= count {
        Some(left)
    } else {
        match spent(left, 1) {
            Some(rest) => match after_map(table, quad_at(table, 8 + 8 * k), rest) {
                Some(more) => after_maps(table, k + 1, count, more),
                None => None,
            },
            None => None,
        }
    }
}

/// Whether the maps of a table fit, and can be listed with a bounded effort.
pub open spec fn maps_are_sane(table: Seq<u8>) -> bool {
    table.len() < 4 || 4 + 8 * pair_at(table, 2) > table.len() || after_maps(
        table,
        0,
        pair_at(table, 2),
        WORK as nat,
    ) is Some
}

fn spend_groups(table: &[u8], at: u64, count: u64, each: u64, left: u64) -> (rest: Option<u64>)
    requires
        table.len() <= 0xffff_ffff,
        count <= 0x2000_0000,
        each <= 0x2000_0000,
        at + 12 * count <= table.len(),
    ensures
        left_is(
            rest,
            after_groups(table@, at as int, 0, count as int, each as nat, left as nat),
        ),
{
    let mut budget: u64 = left;
    let mut k: u64 = 0;
    while k < count
        invariant
            k <= count <= 0x2000_0000,
            each <= 0x2000_0000,
            at + 12 * count <= table.len() <= 0xffff_ffff,
            after_groups(table@, at as int, 0, count as int, each as nat, left as nat)
                == after_groups(
                table@,
                at as int,
                k as int,
                count as int,
                each as nat,
                budget as nat,
            ),
        decreases count - k,
    {
        let start: u64 = read_quad(table, at + 12 * k);
        let end: u64 = read_quad(table, at + 12 * k + 4);
        let points: u64 = if end >= start {
            end - start + 1
        } else {
            0
        };
        assert(0 <= points * each <= 0x1_0000_0000 * 0x2000_0000) by (nonlinear_arith)
            requires
                0 <= points <= 0x1_0000_0000,
                0 <= each <= 0x2000_0000,
        ;
        assert(points * each == span(start as int, end as int) * each as nat);
        match spend(budget, 1 + points * each) {
            Some(rest) => {
                budget = rest;
            },
            None => return None,
        }
        k += 1;
    }
    Some(budget)
}

fn spend_segments(table: &[u8], ends: u64, starts: u64, count: u64, left: u64) -> (rest: Option<u64>)
    requires
        table.len() <= 0xffff_ffff,
        count <= 0xffff,
        ends + 2 * count <= table.len(),
        starts + 2 * count <= table.len(),
    ensures
        left_is(
            rest,
            after_segments(table@, ends as int, starts as int, 0, count as int, left as nat),
        ),
{
    let mut budget: u64 = left;
    let mut k: u64 = 0;
    while k < count
        invariant
            k <= count <= 0xffff,
            table.len() <= 0xffff_ffff,
            ends + 2 * count <= table.len(),
            starts + 2 * count <= table.len(),
            after_segments(table@, ends as int, starts as int, 0, count as int, left as nat)
                == after_segments(
                table@,
                ends as int,
                starts as int,
                k as int,
                count as int,
                budget as nat,
            ),
        decreases count - k,
    {
        let start: u64 = read_pair(table, starts + 2 * k);
        let end: u64 = read_pair(table, ends + 2 * k);
        let points: u64 = if end >= start {
            end - start + 1
        } else {
            0
        };
        match spend(budget, 1 + points) {
            Some(rest) => {
                budget = rest;
            },
            None => return None,
        }
        k += 1;
    }
    Some(budget)
}

fn spend_map(table: &[u8], start: u64, left: u64) -> (rest: Option<u64>)
    requires
        table.len() <= 0xffff_ffff,
        start <= 0xffff_ffff,
    ensures
        left_is(rest, after_map(table@, start as int, left as nat)),
{
    let len: u64 = table.len() as u64;
    if start + 2 > len {
        return Some(left);
    }
    let format: u64 = read_pair(table, start);
    if format == 0 {
        return spend(left, 256);
    }
    if format == 2 {
        return spend(left, 0x80_8000);
    }
    if format == 4 {
        if start + 16 > len {
            return Some(left);
        }
        let count: u64 = read_pair(table, start + 6) / 2;
        if start + 16 + 8 * count > len {
            return Some(left);
        }
        return spend_segments(table, start + 14, start + 16 + 2 * count, count, left);
    }
    if format == 6 {
        if start + 10 > len {
            return Some(left);
        }
        return spend(left, read_pair(table, start + 8));
    }
    if format == 10 {
        if start + 20 > len {
            return Some(left);
        }
        if !check_counted(table, start, start + 16, 2) {
            return None;
        }
        let count: u64 = read_quad(table, start + 16);
        if start + 20 + 2 * count > len {
            return Some(left);
        }
        return spend(left, count);
    }
    if format == 12 || format == 13 {
        if start + 16 > len {
            return Some(left);
        }
        if !check_counted(table, start, start + 12, 12) {
            return None;
        }
        let count: u64 = read_quad(table, start + 12);
        if start + 16 + 12 * count > len {
            return Some(left);
        }
        let each: u64 = if format == 12 {
            1
        } else {
            count
        };
        return spend_groups(table, start + 16, count, each, left);
    }
    if format == 14 {
        if check_counted(table, start, start + 6, 11) {
            return Some(left);
        }
        return None;
    }
    Some(left)
}

pub(crate) fn check_maps(table: &[u8]) -> (yes: bool)
    requires
        table.len() <= 0xffff_ffff,
    ensures
        yes == maps_are_sane(table@),
{
    if table.len() < 4 {
        return true;
    }
    let count: u64 = read_pair(table, 2);
    if 4 + 8 * count > table.len() as u64 {
        return true;
    }
    let mut budget: u64 = WORK;
    let mut k: u64 = 0;
    while k < count
        invariant
            table.len() <= 0xffff_ffff,
            k <= count <= 0xffff,
            count == pair_at(table@, 2),
            4 + 8 * count <= table.len(),
            after_maps(table@, 0, count as int, WORK as nat) == after_maps(
                table@,
                k as int,
                count as int,
                budget as nat,
            ),
        decreases count - k,
    {
        match spend(budget, 1) {
            Some(rest) => {
                let start: u64 = read_quad(table, 8 + 8 * k);
                match spend_map(table, start, rest) {
                    Some(more) => {
                        budget = more;
                    },
                    None => return false,
                }
            },
            None => return false,
        }
        k += 1;
    }
    true
}

// ---- colours and bitmaps ---------------------------------------------------------------

/// Whether the lists of a colour table of the second version fit; the first
/// has none with a 32-bit count.
pub open spec fn colours_are_sane(table: Seq<u8>) -> bool {
    table.len() < 26 || pair_at(table, 0) != 1 || {
        &&& counted_fits(table, 0, quad_at(table, 14), 6)
        &&& counted_fits(table, 0, quad_at(table, 18), 4)
        &&& counted_fits(table, quad_at(table, 22), quad_at(table, 22) + 1, 7)
    }
}

pub(crate) fn check_colours(table: &[u8]) -> (yes: bool)
    ensures
        yes == colours_are_sane(table@),
{
    if table.len() < 26 || read_pair(table, 0) != 1 {
        return true;
    }
    let clips: u64 = read_quad(table, 22);
    check_counted(table, 0, read_quad(table, 14), 6) && check_counted(
        table,
        0,
        read_quad(table, 18),
        4,
    ) && check_counted(table, clips, clips + 1, 7)
}

/// Whether the list of a bitmap table fits.
pub open spec fn bitmaps_are_sane(table: Seq<u8>) -> bool {
    table.len() < 2 || pair_at(table, 0) != 1 || counted_fits(table, 0, 4, 4)
}

pub(crate) fn check_bitmaps(table: &[u8]) -> (yes: bool)
    ensures
        yes == bitmaps_are_sane(table@),
{
    table.len() < 2 || read_pair(table, 0) != 1 || check_counted(table, 0, 4, 4)
}

// ---- kerning ---------------------------------------------------------------------------

/// Whether `count` kerning subtables, the first at `at`, can be walked with a
/// bounded effort. The first that holds horizontal pairs ends the walk; one of
/// another format is skipped by the length that it gives.
pub open spec fn kerning_ends(table: Seq<u8>, long: bool, at: int, count: nat, left: nat) -> bool
    decreases count,
{
    let header: int = if long {
        8
    } else {
        6
    };
    if count == 0 || at + header > table.len() {
        true
    } else if left == 0 {
        false
    } else {
        let format = table[at + if long {
            5int
        } else {
            4int
        }];
        let horizontal = if long {
            table[at + 4] < 0x80
        } else {
            table[at + 5] % 2 == 1
        };
        let length = if long {
            quad_at(table, at)
        } else {
            pair_at(table, at + 2)
        };
        if format == 0 && horizontal {
            true
        } else if format == 3 && horizontal {
            at + header + 2 > table.len() || pair_at(table, at + header) * pair_at(table, at + header)
                <= left
        } else if format == 0 || format == 3 {
            kerning_ends(table, long, at + header, (count - 1) as nat, (left - 1) as nat)
        } else {
            at + length + 16 <= usize::MAX && kerning_ends(
                table,
                long,
                at + length,
                (count - 1) as nat,
                (left - 1) as nat,
            )
        }
    }
}

pub open spec fn kerning_is_sane(table: Seq<u8>) -> bool {
    if table.len() >= 4 && pair_at(table, 0) == 0 {
        kerning_ends(table, false, 4, pair_at(table, 2) as nat, WORK as nat)
    } else if table.len() >= 8 && pair_at(table, 0) == 1 {
        kerning_ends(table, true, 8, quad_at(table, 4) as nat, WORK as nat)
    } else {
        true
    }
}

fn check_subtables(table: &[u8], long: bool, first: u64, total: u64) -> (yes: bool)
    requires
        table.len() <= 0xffff_ffff,
        first <= 8,
        total <= 0xffff_ffff,
    ensures
        yes == kerning_ends(table@, long, first as int, total as nat, WORK as nat),
{
    let header: u64 = if long {
        8
    } else {
        6
    };
    let mut at: u64 = first;
    let mut count: u64 = total;
    let mut left: u64 = WORK;
    while count > 0 && at + header <= table.len() as u64
        invariant
            table.len() <= 0xffff_ffff,
            header == if long {
                8u64
            } else {
                6u64
            },
            at <= 0x2_0000_0000,
            kerning_ends(table@, long, first as int, total as nat, WORK as nat) == kerning_ends(
                table@,
                long,
                at as int,
                count as nat,
                left as nat,
            ),
        decreases count,
    {
        if left == 0 {
            return false;
        }
        let format: u8 = if long {
            table[(at + 5) as usize]
        } else {
            table[(at + 4) as usize]
        };
        let horizontal = if long {
            table[(at + 4) as usize] < 0x80
        } else {
            table[(at + 5) as usize] % 2 == 1
        };
        let length: u64 = if long {
            read_quad(table, at)
        } else {
            read_pair(table, at + 2)
        };
        if format == 0 && horizontal {
            return true;
        }
        if format == 3 && horizontal {
            if at + header + 2 > table.len() as u64 {
                return true;
            }
            let glyphs: u64 = read_pair(table, at + header);
            assert(0 <= glyphs * glyphs <= 0xffff * 0xffff) by (nonlinear_arith)
                requires
                    0 <= glyphs <= 0xffff,
            ;
            return glyphs * glyphs <= left;
        }
        if format == 0 || format == 3 {
            at = at + header;
        } else {
            if at + length + 16 > usize::MAX as u64 {
                return false;
            }
            at = at + length;
        }
        count -= 1;
        left -= 1;
    }
    true
}

pub(crate) fn check_kerning(table: &[u8]) -> (yes: bool)
    requires
        table.len() <= 0xffff_ffff,
    ensures
        yes == kerning_is_sane(table@),
{
    if table.len() >= 4 && read_pair(table, 0) == 0 {
        check_subtables(table, false, 4, read_pair(table, 2))
    } else if table.len() >= 8 && read_pair(table, 0) == 1 {
        check_subtables(table, true, 8, read_quad(table, 4))
    } else {
        true
    }
}

} // verus!
