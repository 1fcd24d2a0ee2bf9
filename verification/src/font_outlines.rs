//! The outlines of a font that are lists of points, and how much drawing all
//! of them takes.

use crate::font_bytes::{pair_at, quad_at, read_pair, read_quad, spend, spent, STRIDE, WORK};
use crate::num::larger;
use vstd::prelude::*;

verus! {

/// How deep the parser follows the parts of a glyph.
pub const MAX_NESTING: u64 = 32;

/// A scale of one.
pub const ONE: u64 = 0x4000;

/// The largest scale at which a part of a glyph is drawn.
pub const MAX_SCALE: u64 = 0x1_0000;

/// The tables with the outlines of a font: the points of the glyphs, where
/// those of each begin, in two or in four bytes, and how many such places
/// there are.
pub struct OutlineTables {
    pub points: Seq<u8>,
    pub places: Seq<u8>,
    pub long: bool,
    pub total: int,
}

pub struct Outlines<'a> {
    pub points: &'a [u8],
    pub places: &'a [u8],
    pub long: bool,
    pub total: u64,
}

impl<'a> View for Outlines<'a> {
    type V = OutlineTables;

    open spec fn view(&self) -> OutlineTables {
        OutlineTables {
            points: self.points@,
            places: self.places@,
            long: self.long,
            total: self.total as int,
        }
    }
}

impl<'a> Outlines<'a> {
    pub open spec fn is_valid(&self) -> bool {
        &&& self.points.len() <= 0xffff_ffff
        &&& self.places.len() <= 0xffff_ffff
        &&& self.total <= 0xffff
        &&& self.total * (if self.long {
            4int
        } else {
            2int
        }) <= self.places.len()
    }
}

/// Whether a flag is set: `bit` is a power of two.
pub open spec fn has_bit(flags: int, bit: int) -> bool {
    (flags / bit) % 2 == 1
}

// ---- points ----------------------------------------------------------------------------

/// The byte at `at`; zero behind the end.
pub open spec fn byte_at(table: Seq<u8>, at: int) -> int {
    if at < table.len() {
        table[at] as int
    } else {
        0
    }
}

fn read_byte(table: &[u8], at: u64) -> (byte: u64)
    ensures
        byte == byte_at(table@, at as int),
        byte <= 0xff,
{
    if at < table.len() as u64 {
        table[at as usize] as u64
    } else {
        0
    }
}

/// How many bytes a coordinate takes.
pub open spec fn width(flags: int, short: int, same: int) -> int {
    if has_bit(flags, short) {
        1
    } else if has_bit(flags, same) {
        0
    } else {
        2
    }
}

fn width_of(flags: u64, short: u64, same: u64) -> (bytes: u64)
    requires
        short > 0,
        same > 0,
    ensures
        bytes == width(flags as int, short as int, same as int),
        bytes <= 2,
{
    if (flags / short) % 2 == 1 {
        1
    } else if (flags / same) % 2 == 1 {
        0
    } else {
        2
    }
}

/// Where the flags of `points` points that begin at `at` end, and how many
/// bytes their first coordinates take with these `bytes`; none where the flags
/// run out.
pub open spec fn flags_end(table: Seq<u8>, at: int, end: int, points: int, bytes: int) -> Option<
    (int, int),
>
    decreases points,
{
    if points <= 0 {
        Some((at, bytes))
    } else if at >= end || (has_bit(table[at] as int, 8) && at + 1 >= end) {
        None
    } else {
        let flags = table[at] as int;
        let times: int = if has_bit(flags, 8) {
            table[at + 1] + 1
        } else {
            1
        };
        if times > points {
            None
        } else {
            flags_end(
                table,
                at + if has_bit(flags, 8) {
                    2int
                } else {
                    1int
                },
                end,
                points - times,
                bytes + times * width(flags, 2, 16),
            )
        }
    }
}

fn find_flags_end(table: &[u8], from: u64, end: u64, points: u64) -> (found: Option<(u64, u64)>)
    requires
        end <= table.len() <= 0xffff_ffff,
        from <= 0x1_0000_0000 + 0x4_0000,
        points <= 0xffff,
    ensures
        match found {
            Some((at, bytes)) => flags_end(table@, from as int, end as int, points as int, 0)
                == Some((at as int, bytes as int)) && at <= 0x1_0000_0000 + 0x8_0000 && bytes
                <= 0x2_0000,
            None => flags_end(table@, from as int, end as int, points as int, 0) is None,
        },
{
    let mut at: u64 = from;
    let mut left: u64 = points;
    let mut bytes: u64 = 0;
    while left > 0
        invariant
            end <= table.len() <= 0xffff_ffff,
            left <= points <= 0xffff,
            bytes <= 2 * (points - left),
            at <= 0x1_0000_0000 + 0x4_0000 + 2 * (points - left),
            flags_end(table@, from as int, end as int, points as int, 0) == flags_end(
                table@,
                at as int,
                end as int,
                left as int,
                bytes as int,
            ),
        decreases left,
    {
        if at >= end {
            return None;
        }
        let flags: u64 = table[at as usize] as u64;
        let repeated = (flags / 8) % 2 == 1;
        if repeated && at + 1 >= end {
            return None;
        }
        let times: u64 = if repeated {
            table[(at + 1) as usize] as u64 + 1
        } else {
            1
        };
        if times > left {
            return None;
        }
        let each: u64 = width_of(flags, 2, 16);
        assert(0 <= times * each <= 2 * times) by (nonlinear_arith)
            requires
                0 <= each <= 2,
                0 <= times,
        ;
        bytes = bytes + times * each;
        at = at + if repeated {
            2u64
        } else {
            1u64
        };
        left = left - times;
    }
    Some((at, bytes))
}

/// A coordinate in 16 bits.
pub open spec fn wrapped(number: int) -> int {
    if number > 0x7fff {
        number - 0x1_0000
    } else if number < -0x8000 {
        number + 0x1_0000
    } else {
        number
    }
}

/// How far a coordinate moves: `at` is where its bytes stand.
pub open spec fn step_at(table: Seq<u8>, at: int, flags: int, short: int, same: int) -> int {
    if has_bit(flags, short) {
        if has_bit(flags, same) {
            byte_at(table, at)
        } else {
            -byte_at(table, at)
        }
    } else if has_bit(flags, same) || at + 2 > table.len() {
        0
    } else {
        wrapped(pair_at(table, at))
    }
}

fn read_step(table: &[u8], at: u64, flags: u64, short: u64, same: u64) -> (step: i64)
    requires
        short > 0,
        same > 0,
        at <= 0x1_1000_0000,
    ensures
        step == step_at(table@, at as int, flags as int, short as int, same as int),
        -0x8000 <= step <= 0x7fff,
{
    if (flags / short) % 2 == 1 {
        let byte: i64 = read_byte(table, at) as i64;
        if (flags / same) % 2 == 1 {
            byte
        } else {
            -byte
        }
    } else if (flags / same) % 2 == 1 || at + 2 > table.len() as u64 {
        0
    } else {
        let number: i64 = read_pair(table, at) as i64;
        if number > 0x7fff {
            number - 0x1_0000
        } else {
            number
        }
    }
}

/// How often the flags at `at` are used again.
pub open spec fn repeats_at(table: Seq<u8>, at: int) -> int {
    if has_bit(byte_at(table, at), 8) {
        byte_at(table, at + 1)
    } else {
        0
    }
}

fn read_repeats(table: &[u8], at: u64) -> (times: u64)
    requires
        at <= 0x1_1000_0000,
    ensures
        times == repeats_at(table@, at as int),
        times <= 0xff,
{
    if (read_byte(table, at) / 8) % 2 == 1 {
        read_byte(table, at + 1)
    } else {
        0
    }
}

pub open spec fn distance(a: int, b: int) -> int {
    if a < b {
        b - a
    } else {
        a - b
    }
}

/// How far one coordinate of `points` points moves in all, from `before` on:
/// the flags of the first stand at `at` and are used `again` times, its own
/// bytes stand at `place`.
pub open spec fn travel(
    table: Seq<u8>,
    at: int,
    again: int,
    place: int,
    points: int,
    short: int,
    same: int,
    before: int,
    sum: int,
) -> int
    decreases points,
{
    if points <= 0 {
        sum
    } else {
        let flags = byte_at(table, at);
        let here = wrapped(before + step_at(table, place, flags, short, same));
        let next: int = if again > 0 {
            at
        } else if has_bit(flags, 8) {
            at + 2
        } else {
            at + 1
        };
        travel(
            table,
            next,
            if again > 0 {
                again - 1
            } else {
                repeats_at(table, next)
            },
            place + width(flags, short, same),
            points - 1,
            short,
            same,
            here,
            sum + distance(before, here),
        )
    }
}

fn measure(table: &[u8], from: u64, coordinates: u64, points: u64, short: u64, same: u64) -> (sum: u64)
    requires
        short > 0,
        same > 0,
        points <= 0xffff,
        from <= 0x1_0010_0000,
        coordinates <= 0x1_0010_0000,
    ensures
        sum == travel(
            table@,
            from as int,
            repeats_at(table@, from as int),
            coordinates as int,
            points as int,
            short as int,
            same as int,
            0,
            0,
        ),
        sum <= points * 0xffff,
{
    let mut at: u64 = from;
    let mut again: u64 = read_repeats(table, from);
    let mut place: u64 = coordinates;
    let mut left: u64 = points;
    let mut before: i64 = 0;
    let mut sum: u64 = 0;
    while left > 0
        invariant
            short > 0,
            same > 0,
            left <= points <= 0xffff,
            again <= 0xff,
            at <= 0x1_0010_0000 + 2 * (points - left),
            place <= 0x1_0010_0000 + 2 * (points - left),
            -0x8000 <= before <= 0x7fff,
            sum <= (points - left) * 0xffff,
            travel(
                table@,
                from as int,
                repeats_at(table@, from as int),
                coordinates as int,
                points as int,
                short as int,
                same as int,
                0,
                0,
            ) == travel(
                table@,
                at as int,
                again as int,
                place as int,
                left as int,
                short as int,
                same as int,
                before as int,
                sum as int,
            ),
        decreases left,
    {
        let flags: u64 = read_byte(table, at);
        let moved: i64 = before + read_step(table, place, flags, short, same);
        let here: i64 = if moved > 0x7fff {
            moved - 0x1_0000
        } else if moved < -0x8000 {
            moved + 0x1_0000
        } else {
            moved
        };
        let far: u64 = if before < here {
            (here - before) as u64
        } else {
            (before - here) as u64
        };
        place = place + width_of(flags, short, same);
        if again > 0 {
            again = again - 1;
        } else {
            at = at + if (flags / 8) % 2 == 1 {
                2u64
            } else {
                1u64
            };
            again = read_repeats(table, at);
        }
        sum = sum + far;
        before = here;
        left = left - 1;
    }
    sum
}

/// What drawing the points of a glyph costs: `contours` contours, whose list
/// begins at `at`. A glyph that is cut off is not drawn.
pub open spec fn points_cost(table: Seq<u8>, at: int, end: int, contours: int) -> nat {
    let head = at + 2 * contours;
    if head + 2 > end {
        0
    } else {
        let last = pair_at(table, head - 2);
        let flags = head + 2 + pair_at(table, head);
        if last == 0 || last == 0xffff {
            0
        } else {
            match flags_end(table, flags, end, last + 1, 0) {
                Some((first, bytes)) => {
                    let again = repeats_at(table, flags);
                    let far = travel(table, flags, again, first, last + 1, 2, 16, 0, 0) + travel(
                        table,
                        flags,
                        again,
                        first + bytes,
                        last + 1,
                        4,
                        32,
                        0,
                        0,
                    );
                    (last + 1 + far / STRIDE as int) as nat
                },
                None => 0,
            }
        }
    }
}

fn cost_of_points(table: &[u8], at: u64, end: u64, contours: u64) -> (cost: u64)
    requires
        end <= table.len() <= 0xffff_ffff,
        at <= 0xffff_ffff,
        1 <= contours <= 0x7fff,
    ensures
        cost == points_cost(table@, at as int, end as int, contours as int),
{
    let head: u64 = at + 2 * contours;
    if head + 2 > end {
        return 0;
    }
    let last: u64 = read_pair(table, head - 2);
    if last == 0 || last == 0xffff {
        return 0;
    }
    let flags: u64 = head + 2 + read_pair(table, head);
    match find_flags_end(table, flags, end, last + 1) {
        Some((first, bytes)) => {
            let far: u64 = measure(table, flags, first, last + 1, 2, 16) + measure(
                table,
                flags,
                first + bytes,
                last + 1,
                4,
                32,
            );
            last + 1 + far / STRIDE
        },
        None => 0,
    }
}

// ---- glyphs ----------------------------------------------------------------------------

/// The range of a glyph among the points; none where it has no points.
pub open spec fn glyph_range(tables: OutlineTables, glyph: int) -> Option<(int, int)> {
    if glyph + 1 >= tables.total {
        None
    } else {
        let from = if tables.long {
            quad_at(tables.places, 4 * glyph)
        } else {
            2 * pair_at(tables.places, 2 * glyph)
        };
        let to = if tables.long {
            quad_at(tables.places, 4 * glyph + 4)
        } else {
            2 * pair_at(tables.places, 2 * glyph + 2)
        };
        if from >= to || to > tables.points.len() {
            None
        } else {
            Some((from, to))
        }
    }
}

fn range_of(tables: &Outlines, glyph: u64) -> (range: Option<(u64, u64)>)
    requires
        tables.is_valid(),
        glyph <= 0xffff,
    ensures
        match range {
            Some((from, to)) => glyph_range(tables@, glyph as int) == Some((from as int, to as int))
                && from < to <= tables.points.len(),
            None => glyph_range(tables@, glyph as int) is None,
        },
{
    if glyph + 1 >= tables.total {
        return None;
    }
    let from: u64 = if tables.long {
        read_quad(tables.places, 4 * glyph)
    } else {
        2 * read_pair(tables.places, 2 * glyph)
    };
    let to: u64 = if tables.long {
        read_quad(tables.places, 4 * glyph + 4)
    } else {
        2 * read_pair(tables.places, 2 * glyph + 2)
    };
    if from >= to || to > tables.points.len() as u64 {
        None
    } else {
        Some((from, to))
    }
}

/// The size of a factor in 16 bits, of which 14 stand behind the point.
pub open spec fn factor_at(table: Seq<u8>, at: int) -> int {
    let number = pair_at(table, at);
    if number >= 0x8000 {
        0x1_0000 - number
    } else {
        number
    }
}

fn read_factor(table: &[u8], at: u64) -> (factor: u64)
    requires
        at + 2 <= table.len(),
    ensures
        factor == factor_at(table@, at as int),
        factor <= 0x8000,
{
    let number: u64 = read_pair(table, at);
    if number >= 0x8000 {
        0x1_0000 - number
    } else {
        number
    }
}

/// Where the factors of the part of a glyph at `at` stand.
pub open spec fn factors_of(flags: int, at: int) -> int {
    if !has_bit(flags, 2) {
        at + 4
    } else if has_bit(flags, 1) {
        at + 8
    } else {
        at + 6
    }
}

/// Where the part of a glyph ends whose factors stand at `at`.
pub open spec fn part_end(flags: int, at: int) -> int {
    if has_bit(flags, 0x80) {
        at + 8
    } else if has_bit(flags, 0x40) {
        at + 4
    } else if has_bit(flags, 8) {
        at + 2
    } else {
        at
    }
}

/// By how much a part of a glyph is stretched at most; its factors stand at
/// `at`.
pub open spec fn stretch(table: Seq<u8>, flags: int, at: int) -> int {
    if has_bit(flags, 0x80) {
        larger(
            factor_at(table, at) + factor_at(table, at + 4),
            factor_at(table, at + 2) + factor_at(table, at + 6),
        )
    } else if has_bit(flags, 0x40) {
        larger(factor_at(table, at), factor_at(table, at + 2))
    } else if has_bit(flags, 8) {
        factor_at(table, at)
    } else {
        ONE as int
    }
}

fn read_stretch(table: &[u8], flags: u64, at: u64) -> (factor: u64)
    requires
        at <= 0x1_0000_0000,
        part_end(flags as int, at as int) <= table.len(),
    ensures
        factor == stretch(table@, flags as int, at as int),
        factor <= 0x1_0000,
{
    if (flags / 0x80) % 2 == 1 {
        let x: u64 = read_factor(table, at) + read_factor(table, at + 4);
        let y: u64 = read_factor(table, at + 2) + read_factor(table, at + 6);
        if x < y {
            y
        } else {
            x
        }
    } else if (flags / 0x40) % 2 == 1 {
        let x: u64 = read_factor(table, at);
        let y: u64 = read_factor(table, at + 2);
        if x < y {
            y
        } else {
            x
        }
    } else if (flags / 8) % 2 == 1 {
        read_factor(table, at)
    } else {
        ONE
    }
}

/// The scale of a part that is stretched inside another.
pub open spec fn scaled(scale: int, factor: int) -> int {
    (scale * factor + ONE - 1) / ONE as int
}

/// What drawing a glyph leaves of a budget, `nesting` levels above the last
/// that is followed, and whether the drawing stops there; none where the budget
/// is not enough, or where a part would be stretched too far.
pub open spec fn after_glyph(
    tables: OutlineTables,
    glyph: int,
    nesting: nat,
    scale: int,
    left: nat,
) -> Option<(nat, bool)>
    decreases nesting, tables.points.len() + 1,
{
    if left == 0 {
        None
    } else {
        let rest = (left - 1) as nat;
        match glyph_range(tables, glyph) {
            None => Some((rest, false)),
            Some((from, to)) => if nesting == 0 {
                Some((rest, true))
            } else if from + 10 > to {
                Some((rest, false))
            } else if pair_at(tables.points, from) >= 0x8000 {
                after_parts(tables, from + 10, to, nesting, scale, rest)
            } else if pair_at(tables.points, from) > 0 {
                match spent(
                    rest,
                    points_cost(tables.points, from + 10, to, pair_at(tables.points, from)),
                ) {
                    Some(more) => Some((more, false)),
                    None => None,
                }
            } else {
                Some((rest, false))
            },
        }
    }
}

/// What drawing the parts of a glyph, from `at` on, leaves of a budget.
pub open spec fn after_parts(
    tables: OutlineTables,
    at: int,
    end: int,
    nesting: nat,
    scale: int,
    left: nat,
) -> Option<(nat, bool)>
    decreases nesting, end - at,
{
    if nesting == 0 || at < 0 || end > tables.points.len() || at + 4 > end {
        Some((left, false))
    } else {
        let flags = pair_at(tables.points, at);
        let factors = factors_of(flags, at);
        let next = part_end(flags, factors);
        if next > end {
            Some((left, false))
        } else {
            let inner = scaled(scale, stretch(tables.points, flags, factors));
            if inner > MAX_SCALE {
                None
            } else {
                match after_glyph(
                    tables,
                    pair_at(tables.points, at + 2),
                    (nesting - 1) as nat,
                    inner,
                    left,
                ) {
                    None => None,
                    Some((rest, stopped)) => if stopped || !has_bit(flags, 0x20) {
                        Some((rest, stopped))
                    } else {
                        after_parts(tables, next, end, nesting, scale, rest)
                    },
                }
            }
        }
    }
}

/// What a computed remainder says.
pub open spec fn outcome_is(given: Option<(u64, bool)>, exact: Option<(nat, bool)>) -> bool {
    match (given, exact) {
        (Some(a), Some(b)) => a.0 == b.0 && a.1 == b.1,
        (None, None) => true,
        _ => false,
    }
}

fn spend_glyph(tables: &Outlines, glyph: u64, nesting: u64, scale: u64, left: u64) -> (rest: Option<
    (u64, bool),
>)
    requires
        tables.is_valid(),
        glyph <= 0xffff,
        scale <= MAX_SCALE,
    ensures
        outcome_is(
            rest,
            after_glyph(tables@, glyph as int, nesting as nat, scale as int, left as nat),
        ),
    decreases nesting, tables.points.len() + 1,
{
    if left == 0 {
        return None;
    }
    let rest: u64 = left - 1;
    match range_of(tables, glyph) {
        None => Some((rest, false)),
        Some((from, to)) => {
            if nesting == 0 {
                return Some((rest, true));
            }
            if from + 10 > to {
                return Some((rest, false));
            }
            let contours: u64 = read_pair(tables.points, from);
            if contours >= 0x8000 {
                spend_parts(tables, from + 10, to, nesting, scale, rest)
            } else if contours > 0 {
                match spend(rest, cost_of_points(tables.points, from + 10, to, contours)) {
                    Some(more) => Some((more, false)),
                    None => None,
                }
            } else {
                Some((rest, false))
            }
        },
    }
}

fn spend_parts(
    tables: &Outlines,
    first: u64,
    end: u64,
    nesting: u64,
    scale: u64,
    left: u64,
) -> (rest: Option<(u64, bool)>)
    requires
        tables.is_valid(),
        nesting > 0,
        scale <= MAX_SCALE,
        first <= end <= tables.points.len(),
    ensures
        outcome_is(
            rest,
            after_parts(
                tables@,
                first as int,
                end as int,
                nesting as nat,
                scale as int,
                left as nat,
            ),
        ),
    decreases nesting, end - first,
{
    let mut at: u64 = first;
    let mut budget: u64 = left;
    while at + 4 <= end
        invariant
            tables.is_valid(),
            nesting > 0,
            scale <= MAX_SCALE,
            first <= at <= end <= tables.points.len(),
            after_parts(
                tables@,
                first as int,
                end as int,
                nesting as nat,
                scale as int,
                left as nat,
            ) == after_parts(
                tables@,
                at as int,
                end as int,
                nesting as nat,
                scale as int,
                budget as nat,
            ),
        decreases end - at,
    {
        let flags: u64 = read_pair(tables.points, at);
        let factors: u64 = if (flags / 2) % 2 != 1 {
            at + 4
        } else if (flags / 1) % 2 == 1 {
            at + 8
        } else {
            at + 6
        };
        let next: u64 = if (flags / 0x80) % 2 == 1 {
            factors + 8
        } else if (flags / 0x40) % 2 == 1 {
            factors + 4
        } else if (flags / 8) % 2 == 1 {
            factors + 2
        } else {
            factors
        };
        if next > end {
            return Some((budget, false));
        }
        let factor: u64 = read_stretch(tables.points, flags, factors);
        assert(0 <= scale * factor <= 0x1_0000 * 0x1_0000) by (nonlinear_arith)
            requires
                0 <= scale <= 0x1_0000,
                0 <= factor <= 0x1_0000,
        ;
        let inner: u64 = (scale * factor + ONE - 1) / ONE;
        if inner > MAX_SCALE {
            return None;
        }
        let part: u64 = read_pair(tables.points, at + 2);
        match spend_glyph(tables, part, nesting - 1, inner, budget) {
            None => return None,
            Some((rest, stopped)) => {
                if stopped || (flags / 0x20) % 2 != 1 {
                    return Some((rest, stopped));
                }
                budget = rest;
            },
        }
        at = next;
    }
    Some((budget, false))
}

/// What drawing glyph `k` and those behind it leaves of a budget.
pub open spec fn after_glyphs(tables: OutlineTables, k: int, count: int, left: nat) -> Option<nat>
    decreases count - k,
{
    if k >= count {
        Some(left)
    } else {
        match after_glyph(tables, k, MAX_NESTING as nat, ONE as int, left) {
            Some((rest, _)) => after_glyphs(tables, k + 1, count, rest),
            None => None,
        }
    }
}

/// Whether all glyphs can be drawn with a bounded effort.
pub open spec fn glyphs_are_sane(tables: OutlineTables) -> bool {
    after_glyphs(tables, 0, tables.total, WORK as nat) is Some
}

pub(crate) fn check_glyphs(tables: &Outlines) -> (yes: bool)
    requires
        tables.is_valid(),
    ensures
        yes == glyphs_are_sane(tables@),
{
    let mut budget: u64 = WORK;
    let mut k: u64 = 0;
    while k < tables.total
        invariant
            tables.is_valid(),
            k <= tables.total,
            after_glyphs(tables@, 0, tables@.total, WORK as nat) == after_glyphs(
                tables@,
                k as int,
                tables@.total,
                budget as nat,
            ),
        decreases tables.total - k,
    {
        match spend_glyph(tables, k, MAX_NESTING, ONE, budget) {
            Some((rest, _)) => {
                budget = rest;
            },
            None => return false,
        }
        k += 1;
    }
    true
}

} // verus!
