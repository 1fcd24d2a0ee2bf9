//! Software drawing into tightly packed BGRA memory: exact fills, rounded
//! rectangles, circles with a soft rim, and the micro-font. Nothing here
//! panics on a malformed buffer or on geometry outside of it.

use crate::binary32::{
    root24, root_of_quarters, round24, round_signed24, rounded24, rounded24_bound, signed24,
    unit24_bounds,
};
use crate::geometry::Rect;
use crate::micro_font::{glyph, inked, is_lit, ADVANCE, GLYPH_HEIGHT, GLYPH_WIDTH};
use crate::num::{clamped, larger, smaller};
use crate::sizes::{half_even, half_even_of};
use crate::text::chars_of;
use vstd::arithmetic::div_mod::*;
use vstd::arithmetic::mul::*;
use vstd::arithmetic::power2::*;
use vstd::bits::*;
use vstd::prelude::*;

verus! {

// ---- the buffer ------------------------------------------------------------------------

/// The column of the pixel that byte `i` belongs to.
#[verifier::opaque]
pub open spec fn column(i: int, width: int) -> int {
    (i / 4) % width
}

/// The row of the pixel that byte `i` belongs to.
#[verifier::opaque]
pub open spec fn row(i: int, width: int) -> int {
    (i / 4) / width
}

/// The whole rows in a buffer of `length` bytes. There are none where the
/// width is zero or a row has more bytes than can be counted.
pub open spec fn row_count(length: nat, width: usize) -> int {
    if width == 0 || width * 4 > usize::MAX {
        0
    } else {
        length as int / (width * 4)
    }
}

/// What drawing does to one pixel.
#[derive(Debug, Clone, Copy, PartialEq, Eq, Structural)]
pub enum Effect {
    Keep,
    /// The pixel takes the colour, alpha and all.
    Stamp,
    /// The colour is laid over the pixel with this alpha, out of 255.
    Blend(u8),
}

/// `above` over `below` with an alpha out of 255, rounded to nearest.
pub open spec fn mixed(above: u8, below: u8, alpha: u8) -> u8 {
    ((above * alpha + below * (255 - alpha) + 127) / 255) as u8
}

pub open spec fn applied(effect: Effect, above: u8, below: u8) -> u8 {
    match effect {
        Effect::Keep => below,
        Effect::Stamp => above,
        Effect::Blend(alpha) => mixed(above, below, alpha),
    }
}

/// A buffer after drawing: every pixel of its whole rows with the effect of
/// its column and row.
pub open spec fn painted(
    pixels: Seq<u8>,
    width: usize,
    color: Seq<u8>,
    effect: spec_fn(int, int) -> Effect,
) -> Seq<u8> {
    Seq::new(
        pixels.len(),
        |i: int|
            if 0 <= row(i, width as int) < row_count(pixels.len(), width) {
                applied(
                    effect(column(i, width as int), row(i, width as int)),
                    color[i % 4],
                    pixels[i],
                )
            } else {
                pixels[i]
            },
    )
}

/// The pixel that a byte belongs to is the only one with its column and row.
proof fn pixel_of_byte(i: int, width: int, x: int, y: int)
    requires
        0 <= i,
        0 <= x < width,
        0 <= y,
    ensures
        column(i, width) == x && row(i, width) == y <==> (y * width + x) * 4 <= i < (y * width + x)
            * 4 + 4,
        (y * width + x) * 4 <= i < (y * width + x) * 4 + 4 ==> i % 4 == i - (y * width + x) * 4,
        0 <= column(i, width) < width,
        0 <= row(i, width),
{
    reveal(column);
    reveal(row);
    let p = i / 4;
    lemma_fundamental_div_mod(p, width);
    lemma_mod_bound(p, width);
    lemma_div_pos_is_pos(p, width);
    assert(width * (p / width) == (p / width) * width) by (nonlinear_arith);
    if (y * width + x) * 4 <= i < (y * width + x) * 4 + 4 {
        assert(p == y * width + x);
        lemma_fundamental_div_mod_converse(p, width, y, x);
    }
}

proof fn pixel_is_inside(length: nat, width: usize, x: int, y: int)
    requires
        0 <= x < width,
        0 <= y < row_count(length, width),
    ensures
        0 <= (y * width + x) * 4,
        (y * width + x) * 4 + 4 <= length,
        0 <= y * width,
{
    let rows = row_count(length, width);
    lemma_fundamental_div_mod(length as int, width * 4);
    assert((width * 4) * rows <= length);
    assert(y * width + x + 1 <= rows * width) by (nonlinear_arith)
        requires
            0 <= x < width,
            0 <= y,
            y + 1 <= rows,
    ;
    assert((width * 4) * rows == (rows * width) * 4) by (nonlinear_arith);
    assert(0 <= y * width) by (nonlinear_arith)
        requires
            0 <= y,
            0 <= width,
    ;
}

/// The usable dimensions of a buffer.
fn buffer_dimensions(pixels: &[u8], width: usize) -> (dimensions: Option<(usize, usize)>)
    ensures
        dimensions is None <==> width == 0 || width * 4 > usize::MAX,
        match dimensions {
            Some(d) => d.0 == width && d.1 == row_count(pixels@.len(), width) && d.0 <= usize::MAX
                / 4 && d.1 <= usize::MAX / 4,
            None => row_count(pixels@.len(), width) == 0,
        },
{
    if width == 0 || width > usize::MAX / 4 {
        return None;
    }
    proof {
        lemma_div_is_ordered_by_denominator(pixels@.len() as int, 4, width * 4);
    }
    Some((width, pixels.len() / (width * 4)))
}

fn mix(above: u8, below: u8, alpha: u8) -> (result: u8)
    ensures
        result == mixed(above, below, alpha),
{
    let inverse: u32 = 255 - alpha as u32;
    proof {
        assert(above * alpha <= 255 * alpha) by (nonlinear_arith)
            requires
                0 <= above <= 255,
                0 <= alpha,
        ;
        assert(below * (255 - alpha) <= 255 * (255 - alpha)) by (nonlinear_arith)
            requires
                0 <= below <= 255,
                0 <= 255 - alpha,
        ;
        assert(0 <= above * alpha) by (nonlinear_arith)
            requires
                0 <= above,
                0 <= alpha,
        ;
        assert(0 <= below * (255 - alpha)) by (nonlinear_arith)
            requires
                0 <= below,
                0 <= 255 - alpha,
        ;
    }
    let total: u32 = above as u32 * alpha as u32 + below as u32 * inverse + 127;
    (total / 255) as u8
}

fn apply(effect: Effect, above: u8, below: u8) -> (result: u8)
    ensures
        result == applied(effect, above, below),
{
    match effect {
        Effect::Keep => below,
        Effect::Stamp => above,
        Effect::Blend(alpha) => mix(above, below, alpha),
    }
}

/// The four bytes at `offset` after an effect.
pub open spec fn touched(pixels: Seq<u8>, offset: int, color: Seq<u8>, effect: Effect) -> Seq<u8> {
    Seq::new(
        pixels.len(),
        |i: int|
            if offset <= i < offset + 4 {
                applied(effect, color[i - offset], pixels[i])
            } else {
                pixels[i]
            },
    )
}

fn touch(pixels: &mut [u8], offset: usize, color: [u8; 4], effect: Effect)
    requires
        offset + 4 <= old(pixels)@.len(),
    ensures
        final(pixels)@ == touched(old(pixels)@, offset as int, color@, effect),
{
    let ghost before = pixels@;
    let mut k: usize = 0;
    while k < 4
        invariant
            k <= 4,
            offset + 4 <= pixels.len(),
            pixels@.len() == before.len(),
            forall|i: int|
                0 <= i < before.len() ==> #[trigger] pixels@[i] == (if offset <= i < offset + k {
                    applied(effect, color[i - offset], before[i])
                } else {
                    before[i]
                }),
        decreases 4 - k,
    {
        let value: u8 = apply(effect, color[k], pixels[offset + k]);
        pixels[offset + k] = value;
        k += 1;
    }
    assert(pixels@ =~= touched(before, offset as int, color@, effect));
}

// ---- shapes ----------------------------------------------------------------------------

/// What is drawn.
enum Shape<'a> {
    Whole(Rect),
    Round(Rect, i64),
    Disc { cx: i32, cy: i32, radius: i32, alpha: u8 },
    Line { chars: &'a Vec<char>, left: usize, right: usize, top: i32, bottom: i64, alpha: u8 },
    Dot { cx: i32, cy: i32, reach: i32, bottom: i32 },
    Glyph { bitmap: &'a Vec<u8>, across: usize, left: i64, top: i64, clip: Rect, alpha: u8 },
}

/// Whether a rectangle covers a pixel.
pub open spec fn inside(rect: Rect, x: int, y: int) -> bool {
    rect.origin.x <= x < rect.origin.x + rect.size.width && rect.origin.y <= y < rect.origin.y
        + rect.size.height
}

pub open spec fn rect_effect(rect: Rect, x: int, y: int) -> Effect {
    if inside(rect, x, y) {
        Effect::Stamp
    } else {
        Effect::Keep
    }
}

/// A corner radius: at most half the short side.
pub open spec fn corner_radius(rect: Rect, radius: int) -> int {
    smaller(larger(radius, 0), larger(smaller(rect.size.width as int, rect.size.height as int) / 2, 0))
}

/// How far into a corner's square a pixel lies on one axis, given its place
/// and the length of the side.
pub open spec fn corner_depth(place: int, length: int, radius: int) -> int {
    let edge = smaller(place, length - 1 - place);
    if edge >= radius {
        0
    } else {
        radius - edge
    }
}

/// A square with 24 significant bits.
pub open spec fn square24(n: int) -> nat {
    let side = rounded24(n as nat);
    rounded24(side * side)
}

/// Whether a corner's pixel, this deep on both axes, lies within its circle.
pub open spec fn within_corner(dx: int, dy: int, radius: int) -> bool {
    dy == 0 || rounded24(square24(dx) + square24(dy)) <= square24(radius)
}

pub open spec fn round_effect(rect: Rect, radius: int, x: int, y: int) -> Effect {
    if inside(rect, x, y) && within_corner(
        corner_depth(x - rect.origin.x, rect.size.width as int, radius),
        corner_depth(y - rect.origin.y, rect.size.height as int, radius),
        radius,
    ) {
        Effect::Stamp
    } else {
        Effect::Keep
    }
}

/// The way from a centre to the middle of a pixel on one axis, in halves.
pub open spec fn half_steps(place: int, centre: int) -> int {
    signed24(rounded24(2 * rounded24(place as nat) + 1) - 2 * signed24(centre))
}

/// A square of a number of halves, in quarters, with 24 significant bits.
pub open spec fn quarters24(halves: int) -> nat {
    rounded24((halves * halves) as nat)
}

/// How much of a pixel a disc covers, in units of two to the power of minus
/// 24. The rim fades over one pixel.
pub open spec fn coverage24(dx: int, dy: int, radius: int) -> nat {
    let distance = root24(rounded24(quarters24(dx) + quarters24(dy)));
    let reach = rounded24(2 * rounded24(radius as nat) + 1) * 0x80_0000;
    if reach <= distance {
        0
    } else {
        smaller(rounded24((reach - distance) as nat) as int, 0x100_0000) as nat
    }
}

/// An alpha scaled by a coverage in units of two to the power of minus 24.
pub open spec fn scaled_alpha(alpha: u8, coverage: nat) -> int {
    rounded24(alpha as nat * coverage) as int / 0x100_0000
}

pub open spec fn disc_effect(cx: int, cy: int, radius: int, alpha: u8, x: int, y: int) -> Effect {
    let coverage = coverage24(half_steps(x, cx), half_steps(y, cy), radius);
    if cx - radius - 1 <= x < cx + radius + 1 && cy - radius - 1 <= y < cy + radius + 1 && coverage
        > 0 {
        Effect::Blend(scaled_alpha(alpha, coverage) as u8)
    } else {
        Effect::Keep
    }
}

/// Whether a pixel `place` columns into a line of text and `row` rows below
/// its top is part of a character. Characters that do not fit in `room`
/// columns are left out.
pub open spec fn line_inked(text: Seq<char>, room: int, place: int, row: int) -> bool {
    let k = place / 6;
    &&& 0 <= place
    &&& k < text.len()
    &&& 6 * k + 5 <= room
    &&& inked(text[k], row, place % 6)
}

/// What a line of text does to a pixel above `bottom`.
pub open spec fn line_effect(
    text: Seq<char>,
    left: int,
    right: int,
    top: int,
    bottom: int,
    alpha: u8,
    x: int,
    y: int,
) -> Effect {
    if y < bottom && line_inked(text, right - left, x - left, y - top) {
        Effect::Blend(alpha)
    } else {
        Effect::Keep
    }
}

/// What a hard dot does to a pixel above `bottom`: pixels whose middle is at
/// most `reach` halves from the centre take the colour.
pub open spec fn dot_effect(cx: int, cy: int, reach: int, bottom: int, x: int, y: int) -> Effect {
    let dx = 2 * x + 1 - 2 * cx;
    let dy = 2 * y + 1 - 2 * cy;
    if y < bottom && dx * dx + dy * dy <= reach * reach {
        Effect::Stamp
    } else {
        Effect::Keep
    }
}

/// The place of the last of 24 bits in a number of 255ths: the least power
/// that makes it a whole number of 24 bits.
pub open spec fn share_power(coverage: u8) -> nat {
    if coverage >= 255 {
        23
    } else if coverage >= 128 {
        24
    } else if coverage >= 64 {
        25
    } else if coverage >= 32 {
        26
    } else if coverage >= 16 {
        27
    } else if coverage >= 8 {
        28
    } else if coverage >= 4 {
        29
    } else if coverage >= 2 {
        30
    } else {
        31
    }
}

/// An alpha scaled by a number of 255ths: the share has 24 significant bits,
/// and so has the product, of which the whole part counts.
pub open spec fn share_alpha(alpha: u8, coverage: u8) -> int {
    let power = pow2(share_power(coverage));
    rounded24(alpha as nat * half_even(coverage as nat * power, 255)) as int / power as int
}

/// What a rasterized glyph does to a pixel: `across` columns of coverage from
/// the top left corner on, within the clip.
pub open spec fn glyph_effect(
    bitmap: Seq<u8>,
    across: int,
    left: int,
    top: int,
    clip: Rect,
    alpha: u8,
    x: int,
    y: int,
) -> Effect {
    let (column, row) = (x - left, y - top);
    if inside(clip, x, y) && 0 <= column < across && 0 <= row < bitmap.len() as int / across {
        let coverage = bitmap[row * across + column];
        if coverage == 0 {
            Effect::Keep
        } else {
            Effect::Blend(share_alpha(alpha, coverage) as u8)
        }
    } else {
        Effect::Keep
    }
}

proof fn cell_is_inside(length: int, across: int, row: int, column: int)
    requires
        across > 0,
        length >= 0,
        0 <= column < across,
        0 <= row < length / across,
    ensures
        0 <= row * across,
        row * across + column < length,
{
    lemma_fundamental_div_mod(length, across);
    lemma_mod_bound(length, across);
    assert(0 <= row * across) by (nonlinear_arith)
        requires
            0 <= row,
            across > 0,
    ;
    assert((row + 1) * across <= across * (length / across)) by (nonlinear_arith)
        requires
            row + 1 <= length / across,
            across > 0,
    ;
    assert((row + 1) * across == row * across + across) by (nonlinear_arith);
}

fn alpha_of_share(alpha: u8, coverage: u8) -> (result: u8)
    requires
        coverage > 0,
    ensures
        result == share_alpha(alpha, coverage),
{
    proof {
        lemma2_to64();
    }
    let power: u128 = if coverage >= 255 {
        0x80_0000
    } else if coverage >= 128 {
        0x100_0000
    } else if coverage >= 64 {
        0x200_0000
    } else if coverage >= 32 {
        0x400_0000
    } else if coverage >= 16 {
        0x800_0000
    } else if coverage >= 8 {
        0x1000_0000
    } else if coverage >= 4 {
        0x2000_0000
    } else if coverage >= 2 {
        0x4000_0000
    } else {
        0x8000_0000
    };
    assert(power == pow2(share_power(coverage)));
    let share: u128 = half_even_of(coverage as u128 * power, 255);
    proof {
        assert(share <= power);
        assert(0 <= alpha * share <= 255 * power) by (nonlinear_arith)
            requires
                0 <= alpha <= 255,
                0 <= share <= power,
        ;
        unit24_bounds((alpha * share) as nat);
        rounded24_bound((alpha * share) as nat);
        assert(alpha as nat * share as nat == alpha * share);
    }
    let product: u128 = round24(alpha as u128 * share);
    proof {
        assert(product <= 255 * power + power / 2);
        assert(product as int / power as int <= 255) by (nonlinear_arith)
            requires
                0 <= product < 256 * power,
                power > 0,
        ;
    }
    (product / power) as u8
}

fn corner_depth_of(place: i64, length: i64, radius: i64) -> (depth: i64)
    requires
        0 <= place < length <= i32::MAX,
        0 <= radius <= i32::MAX,
    ensures
        depth == corner_depth(place as int, length as int, radius as int),
        0 <= depth <= radius,
{
    let other: i64 = length - 1 - place;
    let edge: i64 = if place <= other {
        place
    } else {
        other
    };
    if edge >= radius {
        0
    } else {
        radius - edge
    }
}

fn square(n: i64) -> (result: u128)
    requires
        0 <= n <= i32::MAX,
    ensures
        result == square24(n as int),
        result <= 0x2_0000_0000_0000_0000,
{
    let side: u128 = round24(n as u128);
    assert(side * side <= 0x1_0000_0000 * 0x1_0000_0000) by (nonlinear_arith)
        requires
            0 <= side <= 0x1_0000_0000,
    ;
    proof {
        assert(0 <= side * side) by (nonlinear_arith)
            requires
                0 <= side,
        ;
    }
    round24(side * side)
}

fn is_within_corner(dx: i64, dy: i64, radius: i64) -> (yes: bool)
    requires
        0 <= dx <= radius,
        0 <= dy <= radius <= i32::MAX,
    ensures
        yes == within_corner(dx as int, dy as int, radius as int),
{
    if dy == 0 {
        return true;
    }
    let sum: u128 = square(dx) + square(dy);
    round24(sum) <= square(radius)
}

fn half_steps_of(place: usize, centre: i32) -> (halves: i128)
    requires
        place <= 0x1_0000_0000,
    ensures
        halves == half_steps(place as int, centre as int),
        -0x3_1000_0000 <= halves <= 0x3_1000_0000,
{
    let near: u128 = round24(place as u128);
    let middle: u128 = round24(2 * near + 1);
    let centre_halves: i128 = 2 * round_signed24(centre as i128);
    round_signed24(middle as i128 - centre_halves)
}

fn quarters_of(halves: i128) -> (quarters: u128)
    requires
        -0x3_1000_0000 <= halves <= 0x3_1000_0000,
    ensures
        quarters == quarters24(halves as int),
        quarters <= 0xa_0000_0000_0000_0000,
{
    let size: u128 = if halves < 0 {
        (-halves) as u128
    } else {
        halves as u128
    };
    proof {
        assert(size * size <= 0x3_1000_0000 * 0x3_1000_0000) by (nonlinear_arith)
            requires
                0 <= size <= 0x3_1000_0000,
        ;
        assert(size * size == halves * halves) by (nonlinear_arith)
            requires
                size == halves || size == -halves,
        ;
        assert(0 <= size * size) by (nonlinear_arith)
            requires
                0 <= size,
        ;
    }
    round24(size * size)
}

/// How much of a pixel a disc covers.
fn coverage_of(dx: i128, dy: i128, radius: i32) -> (coverage: u128)
    requires
        radius >= 0,
        -0x3_1000_0000 <= dx <= 0x3_1000_0000,
        -0x3_1000_0000 <= dy <= 0x3_1000_0000,
    ensures
        coverage == coverage24(dx as int, dy as int, radius as int),
        coverage <= 0x100_0000,
{
    let sum: u128 = quarters_of(dx) + quarters_of(dy);
    let distance: u128 = root_of_quarters(round24(sum));
    let wide: u128 = round24(radius as u128);
    let halves: u128 = round24(2 * wide + 1);
    let reach: u128 = halves * 0x80_0000;
    if reach <= distance {
        return 0;
    }
    let coverage: u128 = round24(reach - distance);
    if coverage <= 0x100_0000 {
        coverage
    } else {
        0x100_0000
    }
}

proof fn scaled_alpha_fits(alpha: u8, coverage: nat)
    requires
        coverage <= 0x100_0000,
    ensures
        0 <= scaled_alpha(alpha, coverage) <= alpha,
{
    let product = alpha as nat * coverage;
    let limit = alpha as nat * 0x100_0000;
    assert(product <= limit) by (nonlinear_arith)
        requires
            product == alpha * coverage,
            limit == alpha * 0x100_0000,
            0 <= coverage <= 0x100_0000,
            0 <= alpha,
    ;
    unit24_bounds(product);
    rounded24_bound(product);
}

fn scale_alpha(alpha: u8, coverage: u128) -> (result: u8)
    requires
        coverage <= 0x100_0000,
    ensures
        result == scaled_alpha(alpha, coverage as nat),
{
    proof {
        scaled_alpha_fits(alpha, coverage as nat);
        assert(alpha * coverage <= 255 * 0x100_0000) by (nonlinear_arith)
            requires
                0 <= alpha <= 255,
                0 <= coverage <= 0x100_0000,
        ;
        assert(0 <= alpha * coverage) by (nonlinear_arith)
            requires
                0 <= alpha,
                0 <= coverage,
        ;
    }
    (round24(alpha as u128 * coverage) / 0x100_0000) as u8
}

// ---- drawing ---------------------------------------------------------------------------

impl<'a> Shape<'a> {
    spec fn wf(self) -> bool {
        match self {
            Shape::Whole(_) => true,
            Shape::Round(rect, radius) => 0 <= radius <= i32::MAX,
            Shape::Disc { cx, cy, radius, alpha } => radius >= 0,
            Shape::Line { chars, left, right, top, bottom, alpha } => left <= right,
            Shape::Dot { cx, cy, reach, bottom } => 0 <= reach <= 0x1_0000,
            Shape::Glyph { bitmap, across, left, top, clip, alpha } => across > 0
                && -0x1000_0000_0000 <= left <= 0x1000_0000_0000 && -0x1000_0000_0000 <= top
                <= 0x1000_0000_0000,
        }
    }

    spec fn effect(self, x: int, y: int) -> Effect {
        match self {
            Shape::Whole(rect) => rect_effect(rect, x, y),
            Shape::Round(rect, radius) => round_effect(rect, radius as int, x, y),
            Shape::Disc { cx, cy, radius, alpha } => disc_effect(
                cx as int,
                cy as int,
                radius as int,
                alpha,
                x,
                y,
            ),
            Shape::Line { chars, left, right, top, bottom, alpha } => line_effect(
                chars@,
                left as int,
                right as int,
                top as int,
                bottom as int,
                alpha,
                x,
                y,
            ),
            Shape::Dot { cx, cy, reach, bottom } => dot_effect(
                cx as int,
                cy as int,
                reach as int,
                bottom as int,
                x,
                y,
            ),
            Shape::Glyph { bitmap, across, left, top, clip, alpha } => glyph_effect(
                bitmap@,
                across as int,
                left as int,
                top as int,
                clip,
                alpha,
                x,
                y,
            ),
        }
    }

    fn effect_at(&self, x: usize, y: usize) -> (effect: Effect)
        requires
            self.wf(),
            x <= 0x4000_0000_0000_0000,
            y <= 0x4000_0000_0000_0000,
        ensures
            effect == self.effect(x as int, y as int),
    {
        match self {
            Shape::Whole(rect) => if covers(*rect, x, y) {
                Effect::Stamp
            } else {
                Effect::Keep
            },
            Shape::Round(rect, radius) => {
                if !covers(*rect, x, y) {
                    return Effect::Keep;
                }
                let dx: i64 = corner_depth_of(
                    x as i64 - rect.origin.x as i64,
                    rect.size.width as i64,
                    *radius,
                );
                let dy: i64 = corner_depth_of(
                    y as i64 - rect.origin.y as i64,
                    rect.size.height as i64,
                    *radius,
                );
                if is_within_corner(dx, dy, *radius) {
                    Effect::Stamp
                } else {
                    Effect::Keep
                }
            },
            Shape::Disc { cx, cy, radius, alpha } => {
                let (px, py): (i64, i64) = (x as i64, y as i64);
                let (mx, my): (i64, i64) = (*cx as i64, *cy as i64);
                let reach: i64 = *radius as i64 + 1;
                if px < mx - reach || px >= mx + reach || py < my - reach || py >= my + reach {
                    return Effect::Keep;
                }
                let coverage: u128 = coverage_of(
                    half_steps_of(x, *cx),
                    half_steps_of(y, *cy),
                    *radius,
                );
                if coverage > 0 {
                    Effect::Blend(scale_alpha(*alpha, coverage))
                } else {
                    Effect::Keep
                }
            },
            Shape::Line { chars, left, right, top, bottom, alpha } => {
                let row: i64 = y as i64 - *top as i64;
                if x < *left || row < 0 || row >= 7 || y as i64 >= *bottom {
                    return Effect::Keep;
                }
                let place: usize = x - *left;
                let k: usize = place / ADVANCE;
                let column: usize = place % ADVANCE;
                if column >= GLYPH_WIDTH || k >= chars.len() || *right - *left < 5 || k > (*right
                    - *left - 5) / ADVANCE {
                    return Effect::Keep;
                }
                match glyph(chars[k]) {
                    Some(bits) => if is_lit(bits, row as usize, column) {
                        Effect::Blend(*alpha)
                    } else {
                        Effect::Keep
                    },
                    None => Effect::Keep,
                }
            },
            Shape::Dot { cx, cy, reach, bottom } => {
                proof {
                    squares_are_ordered(2 * x + 1 - 2 * *cx, *reach as int);
                    squares_are_ordered(2 * y + 1 - 2 * *cy, *reach as int);
                    squares_are_ordered(*reach as int, 0x1_0000);
                }
                if y as i64 >= *bottom as i64 || !is_near(x, *cx, *reach) || !is_near(
                    y,
                    *cy,
                    *reach,
                ) {
                    return Effect::Keep;
                }
                let dx: i64 = 2 * (x as i64) + 1 - 2 * (*cx as i64);
                let dy: i64 = 2 * (y as i64) + 1 - 2 * (*cy as i64);
                let limit: i64 = *reach as i64;
                if dx * dx + dy * dy <= limit * limit {
                    Effect::Stamp
                } else {
                    Effect::Keep
                }
            },
            Shape::Glyph { bitmap, across, left, top, clip, alpha } => {
                if !covers(*clip, x, y) {
                    return Effect::Keep;
                }
                let column: i64 = x as i64 - *left;
                let row: i64 = y as i64 - *top;
                if column < 0 || column as u64 >= *across as u64 || row < 0 {
                    return Effect::Keep;
                }
                let rows: usize = bitmap.len() / *across;
                if row as u64 >= rows as u64 {
                    return Effect::Keep;
                }
                proof {
                    cell_is_inside(
                        bitmap@.len() as int,
                        *across as int,
                        row as int,
                        column as int,
                    );
                }
                let start: usize = row as usize * *across;
                let coverage: u8 = bitmap[start + column as usize];
                if coverage == 0 {
                    Effect::Keep
                } else {
                    Effect::Blend(alpha_of_share(*alpha, coverage))
                }
            },
        }
    }
}

/// Whether the middle of a pixel lies within `reach` halves of a centre on
/// one axis.
fn is_near(place: usize, centre: i32, reach: i32) -> (yes: bool)
    requires
        place <= 0x4000_0000_0000_0000,
        0 <= reach <= 0x1_0000,
    ensures
        yes == (-reach <= 2 * place + 1 - 2 * centre <= reach),
{
    let halves: i128 = 2 * place as i128 + 1 - 2 * centre as i128;
    -(reach as i128) <= halves && halves <= reach as i128
}

proof fn squares_are_ordered(n: int, limit: int)
    ensures
        0 <= n * n,
        -limit <= n <= limit ==> n * n <= limit * limit,
        !(-limit <= n <= limit) && limit >= 0 ==> n * n > limit * limit,
{
    assert(0 <= n * n) by (nonlinear_arith);
    if -limit <= n <= limit {
        assert(n * n <= limit * limit) by (nonlinear_arith)
            requires
                -limit <= n <= limit,
        ;
    } else if limit >= 0 {
        assert(n * n > limit * limit) by (nonlinear_arith)
            requires
                n > limit || n < -limit,
                limit >= 0,
        ;
    }
}

fn covers(rect: Rect, x: usize, y: usize) -> (yes: bool)
    requires
        x <= 0x4000_0000_0000_0000,
        y <= 0x4000_0000_0000_0000,
    ensures
        yes == inside(rect, x as int, y as int),
{
    let (left, top): (i64, i64) = (rect.origin.x as i64, rect.origin.y as i64);
    let (px, py): (i64, i64) = (x as i64, y as i64);
    left <= px && px < left + rect.size.width as i64 && top <= py && py < top
        + rect.size.height as i64
}

/// Draws a shape that lies between these columns and rows.
fn paint(
    pixels: &mut [u8],
    width: usize,
    columns: (usize, usize),
    rows: (usize, usize),
    color: [u8; 4],
    shape: &Shape,
)
    requires
        shape.wf(),
        width <= 0x4000_0000_0000_0000,
        columns.1 <= width,
        rows.1 <= row_count(old(pixels)@.len(), width),
        rows.1 <= 0x4000_0000_0000_0000,
        forall|x: int, y: int|
            0 <= x < width && 0 <= y < row_count(old(pixels)@.len(), width) && !(columns.0 <= x
                < columns.1 && rows.0 <= y < rows.1) ==> #[trigger] shape.effect(x, y)
                == Effect::Keep,
    ensures
        final(pixels)@ == painted(
            old(pixels)@,
            width,
            color@,
            |x: int, y: int| shape.effect(x, y),
        ),
{
    let ghost before = pixels@;
    let ghost w = width as int;
    let mut y: usize = rows.0;
    while y < rows.1
        invariant
            shape.wf(),
            w == width,
            width <= 0x4000_0000_0000_0000,
            columns.1 <= width,
            rows.0 <= y,
            y <= rows.1 || y == rows.0,
            rows.1 <= row_count(before.len(), width),
            rows.1 <= 0x4000_0000_0000_0000,
            pixels@.len() == before.len(),
            forall|i: int|
                0 <= i < before.len() ==> #[trigger] pixels@[i] == (if columns.0 <= column(i, w)
                    < columns.1 && rows.0 <= row(i, w) < y {
                    applied(shape.effect(column(i, w), row(i, w)), color[i % 4], before[i])
                } else {
                    before[i]
                }),
        decreases rows.1 - y,
    {
        let mut x: usize = columns.0;
        while x < columns.1
            invariant
                shape.wf(),
                w == width,
                width <= 0x4000_0000_0000_0000,
                columns.1 <= width,
                columns.0 <= x,
                x <= columns.1 || x == columns.0,
                rows.0 <= y < rows.1,
                rows.1 <= row_count(before.len(), width),
                rows.1 <= 0x4000_0000_0000_0000,
                pixels@.len() == before.len(),
                forall|i: int|
                    0 <= i < before.len() ==> #[trigger] pixels@[i] == (if columns.0 <= column(i, w)
                        < columns.1 && rows.0 <= row(i, w) && (row(i, w) < y || (row(i, w) == y
                        && column(i, w) < x)) {
                        applied(shape.effect(column(i, w), row(i, w)), color[i % 4], before[i])
                    } else {
                        before[i]
                    }),
            decreases columns.1 - x,
        {
            proof {
                pixel_is_inside(before.len(), width, x as int, y as int);
            }
            let effect = shape.effect_at(x, y);
            let ghost previous = pixels@;
            assert((y * width + x) * 4 + 4 <= pixels.len());
            let start: usize = y * width;
            let offset: usize = (start + x) * 4;
            touch(pixels, offset, color, effect);
            assert forall|i: int| 0 <= i < before.len() implies #[trigger] pixels@[i] == (
            if columns.0 <= column(i, w) < columns.1 && rows.0 <= row(i, w) && (row(i, w) < y || (
            row(i, w) == y && column(i, w) < x + 1)) {
                applied(shape.effect(column(i, w), row(i, w)), color[i % 4], before[i])
            } else {
                before[i]
            }) by {
                pixel_of_byte(i, w, x as int, y as int);
                assert(previous[i] == (if columns.0 <= column(i, w) < columns.1 && rows.0 <= row(
                    i,
                    w,
                ) && (row(i, w) < y || (row(i, w) == y && column(i, w) < x)) {
                    applied(shape.effect(column(i, w), row(i, w)), color[i % 4], before[i])
                } else {
                    before[i]
                }));
            }
            x += 1;
        }
        y += 1;
    }
    assert(pixels@ =~= painted(before, width, color@, |x: int, y: int| shape.effect(x, y))) by {
        assert forall|i: int| 0 <= i < before.len() implies #[trigger] pixels@[i] == painted(
            before,
            width,
            color@,
            |x: int, y: int| shape.effect(x, y),
        )[i] by {
            if width > 0 {
                pixel_of_byte(i, w, 0, 0);
                let (c, r) = (column(i, w), row(i, w));
                if r < row_count(before.len(), width) && !(columns.0 <= c < columns.1 && rows.0 <= r
                    < rows.1) {
                    assert(shape.effect(c, r) == Effect::Keep);
                }
            }
        }
    }
}

/// The columns, or rows, from `low` up to `high` that a buffer has.
fn clipped(low: i64, high: i64, limit: usize) -> (range: (usize, usize))
    requires
        limit <= 0x4000_0000_0000_0000,
    ensures
        range.0 == clamped(low as int, 0, limit as int),
        range.1 == clamped(high as int, 0, limit as int),
{
    let most: i64 = limit as i64;
    let start: i64 = if low < 0 {
        0
    } else if low > most {
        most
    } else {
        low
    };
    let end: i64 = if high < 0 {
        0
    } else if high > most {
        most
    } else {
        high
    };
    (start as usize, end as usize)
}

/// A shape drawn within a box of whole coordinates.
fn paint_within(
    pixels: &mut [u8],
    width: usize,
    horizontal: (i64, i64),
    vertical: (i64, i64),
    color: [u8; 4],
    shape: &Shape,
)
    requires
        shape.wf(),
        forall|x: int, y: int|
            0 <= x && 0 <= y && !(horizontal.0 <= x < horizontal.1 && vertical.0 <= y < vertical.1)
                ==> #[trigger] shape.effect(x, y) == Effect::Keep,
    ensures
        final(pixels)@ == painted(
            old(pixels)@,
            width,
            color@,
            |x: int, y: int| shape.effect(x, y),
        ),
{
    match buffer_dimensions(pixels, width) {
        None => {
            assert(pixels@ =~= painted(
                pixels@,
                width,
                color@,
                |x: int, y: int| shape.effect(x, y),
            ));
        },
        Some((columns, rows)) => {
            let across = clipped(horizontal.0, horizontal.1, columns);
            let down = clipped(vertical.0, vertical.1, rows);
            paint(pixels, width, across, down, color, shape);
        },
    }
}

/// Fills a rectangle of a buffer that is `width` pixels wide.
pub fn fill_rect(pixels: &mut [u8], width: usize, rect: Rect, color: [u8; 4])
    ensures
        final(pixels)@ == painted(
            old(pixels)@,
            width,
            color@,
            |x: int, y: int| rect_effect(rect, x, y),
        ),
{
    let (left, top): (i64, i64) = (rect.origin.x as i64, rect.origin.y as i64);
    let shape = Shape::Whole(rect);
    let ghost before = pixels@;
    paint_within(
        pixels,
        width,
        (left, left + rect.size.width as i64),
        (top, top + rect.size.height as i64),
        color,
        &shape,
    );
    assert(painted(before, width, color@, |x: int, y: int| shape.effect(x, y)) =~= painted(
        before,
        width,
        color@,
        |x: int, y: int| rect_effect(rect, x, y),
    ));
}

/// Fills a rectangle without the pixels outside its rounded corners. The
/// radius is at most half the short side.
pub fn fill_round_rect(pixels: &mut [u8], width: usize, rect: Rect, radius: i32, color: [u8; 4])
    ensures
        final(pixels)@ == painted(
            old(pixels)@,
            width,
            color@,
            |x: int, y: int| round_effect(rect, corner_radius(rect, radius as int), x, y),
        ),
{
    let short: i32 = if rect.size.width <= rect.size.height {
        rect.size.width
    } else {
        rect.size.height
    };
    let most: i32 = if short > 0 {
        short / 2
    } else {
        0
    };
    let wanted: i32 = if radius > 0 {
        radius
    } else {
        0
    };
    let corner: i32 = if wanted <= most {
        wanted
    } else {
        most
    };
    assert(corner == corner_radius(rect, radius as int)) by {
        if short < 0 {
            assert(short as int / 2 <= 0);
        }
    }
    let (left, top): (i64, i64) = (rect.origin.x as i64, rect.origin.y as i64);
    let shape = Shape::Round(rect, corner as i64);
    let ghost before = pixels@;
    paint_within(
        pixels,
        width,
        (left, left + rect.size.width as i64),
        (top, top + rect.size.height as i64),
        color,
        &shape,
    );
    assert(painted(before, width, color@, |x: int, y: int| shape.effect(x, y)) =~= painted(
        before,
        width,
        color@,
        |x: int, y: int| round_effect(rect, corner_radius(rect, radius as int), x, y),
    ));
}

/// What a circle does to a pixel: nothing where the radius is negative.
pub open spec fn circle_effect(cx: i32, cy: i32, radius: i32, alpha: u8, x: int, y: int) -> Effect {
    if radius < 0 {
        Effect::Keep
    } else {
        disc_effect(cx as int, cy as int, radius as int, alpha, x, y)
    }
}

/// Fills a circle around a corner between pixels, with a soft rim of one
/// pixel.
pub fn fill_circle(pixels: &mut [u8], width: usize, cx: i32, cy: i32, radius: i32, color: [u8; 4])
    ensures
        final(pixels)@ == painted(
            old(pixels)@,
            width,
            color@,
            |x: int, y: int| circle_effect(cx, cy, radius, color[3], x, y),
        ),
{
    let ghost before = pixels@;
    if radius < 0 {
        assert(before =~= painted(
            before,
            width,
            color@,
            |x: int, y: int| circle_effect(cx, cy, radius, color[3], x, y),
        ));
        return;
    }
    let reach: i64 = radius as i64 + 1;
    let shape = Shape::Disc { cx, cy, radius, alpha: color[3] };
    paint_within(
        pixels,
        width,
        (cx as i64 - reach, cx as i64 + reach),
        (cy as i64 - reach, cy as i64 + reach),
        color,
        &shape,
    );
    assert(painted(before, width, color@, |x: int, y: int| shape.effect(x, y)) =~= painted(
        before,
        width,
        color@,
        |x: int, y: int| circle_effect(cx, cy, radius, color[3], x, y),
    ));
}

// ---- blending --------------------------------------------------------------------------

/// Whether a binary32 value is finite.
pub open spec fn finite32(bits: u32) -> bool {
    (bits as nat / 0x80_0000) % 256 != 255
}

/// An alpha scaled by a binary32 coverage, which counts from zero to one.
pub open spec fn coverage_alpha(alpha: u8, bits: u32) -> int {
    if bits >= 0x8000_0000 {
        0
    } else if bits >= 0x3f80_0000 {
        alpha as int
    } else {
        let exponent = bits as nat / 0x80_0000;
        let fraction = bits as nat % 0x80_0000;
        if exponent == 0 {
            0
        } else {
            rounded24(alpha as nat * (0x80_0000 + fraction) as nat) as int / pow2(
                (150 - exponent) as nat,
            ) as int
        }
    }
}

fn alpha_of_coverage(alpha: u8, bits: u32) -> (result: u8)
    ensures
        result == coverage_alpha(alpha, bits),
{
    if bits >= 0x8000_0000 {
        return 0;
    }
    if bits >= 0x3f80_0000 {
        return alpha;
    }
    let exponent: u32 = bits / 0x80_0000;
    if exponent == 0 {
        return 0;
    }
    let significand: u128 = 0x80_0000 + (bits % 0x80_0000) as u128;
    proof {
        assert(alpha * significand <= 255 * 0xff_ffff) by (nonlinear_arith)
            requires
                0 <= alpha <= 255,
                0 <= significand <= 0xff_ffff,
        ;
        assert(0 <= alpha * significand) by (nonlinear_arith)
            requires
                0 <= alpha,
                0 <= significand,
        ;
        unit24_bounds((alpha * significand) as nat);
        rounded24_bound((alpha * significand) as nat);
    }
    let product: u128 = round24(alpha as u128 * significand);
    let shift: u32 = 150 - exponent;
    proof {
        lemma2_to64();
        lemma2_to64_rest();
        if shift > 63 {
            lemma_pow2_strictly_increases(63, shift as nat);
        }
        if shift > 24 {
            lemma_pow2_strictly_increases(24, shift as nat);
        }
        lemma_pow2_pos(shift as nat);
    }
    if shift > 63 {
        assert(product as int / pow2(shift as nat) as int == 0) by {
            lemma_basic_div(product as int, pow2(shift as nat) as int);
        }
        return 0;
    }
    let whole: u64 = product as u64;
    proof {
        lemma_u64_shr_is_div(whole, shift as u64);
        lemma_div_is_ordered_by_denominator(product as int, 0x100_0000, pow2(shift as nat) as int);
        assert(product < 0x1_0000_0000);
        assert(whole as nat / pow2(shift as nat) == product as int / pow2(shift as nat) as int);
        assert(product as int / pow2(shift as nat) as int <= product as int / 0x100_0000);
    }
    (whole >> (shift as u64)) as u8
}

/// Lays a colour with straight alpha over the pixel at a byte offset, scaled
/// by a binary32 coverage. Nothing happens outside the buffer, nor where the
/// coverage is not finite.
pub fn blend(pixels: &mut [u8], offset: usize, color: [u8; 4], coverage: u32)
    ensures
        final(pixels)@ == (if offset + 4 <= old(pixels)@.len() && finite32(coverage) {
            touched(
                old(pixels)@,
                offset as int,
                color@,
                Effect::Blend(coverage_alpha(color[3], coverage) as u8),
            )
        } else {
            old(pixels)@
        }),
{
    let length: usize = pixels.len();
    if length < 4 || offset > length - 4 {
        return;
    }
    if (coverage / 0x80_0000) % 256 == 255 {
        return;
    }
    let alpha: u8 = alpha_of_coverage(color[3], coverage);
    touch(pixels, offset, color, Effect::Blend(alpha));
}

// ---- text ------------------------------------------------------------------------------

/// The columns that a text box has in a buffer.
pub open spec fn text_columns(rect: Rect, width: usize) -> (int, int) {
    (
        clamped(rect.origin.x as int, 0, width as int),
        clamped(rect.origin.x + rect.size.width, 0, width as int),
    )
}

pub open spec fn text_effect(
    text: Seq<char>,
    rect: Rect,
    width: usize,
    alpha: u8,
    x: int,
    y: int,
) -> Effect {
    let (left, right) = text_columns(rect, width);
    line_effect(text, left, right, rect.origin.y as int, i64::MAX as int, alpha, x, y)
}

/// Draws one line of micro-font text from the origin of its box, as far as
/// whole characters fit in the box. Characters outside the font leave a blank
/// column.
pub fn draw_text(pixels: &mut [u8], width: usize, rect: Rect, color: [u8; 4], text: &str)
    ensures
        final(pixels)@ == painted(
            old(pixels)@,
            width,
            color@,
            |x: int, y: int| text_effect(text@, rect, width, color[3], x, y),
        ),
{
    let ghost before = pixels@;
    let columns: usize = match buffer_dimensions(pixels, width) {
        Some((columns, _)) => columns,
        None => {
            assert(before =~= painted(
                before,
                width,
                color@,
                |x: int, y: int| text_effect(text@, rect, width, color[3], x, y),
            ));
            return;
        },
    };
    let start: i64 = rect.origin.x as i64;
    let (left, right) = clipped(start, start + rect.size.width as i64, columns);
    if left >= right {
        assert(before =~= painted(
            before,
            width,
            color@,
            |x: int, y: int| text_effect(text@, rect, width, color[3], x, y),
        )) by {
            assert forall|x: int, y: int|
                text_effect(text@, rect, width, color[3], x, y) == Effect::Keep by {}
        }
        return;
    }
    let chars = chars_of(text);
    let top: i64 = rect.origin.y as i64;
    let shape = Shape::Line {
        chars: &chars,
        left,
        right,
        top: rect.origin.y,
        bottom: i64::MAX,
        alpha: color[3],
    };
    paint_within(
        pixels,
        width,
        (left as i64, right as i64),
        (top, top + GLYPH_HEIGHT as i64),
        color,
        &shape,
    );
    assert(painted(before, width, color@, |x: int, y: int| shape.effect(x, y)) =~= painted(
        before,
        width,
        color@,
        |x: int, y: int| text_effect(text@, rect, width, color[3], x, y),
    ));
}

/// Draws micro-font text from a column on, in the rows above `bottom`, as far
/// as whole characters fit in the buffer.
pub fn draw_line(
    pixels: &mut [u8],
    width: usize,
    left: usize,
    top: i32,
    bottom: i32,
    color: [u8; 4],
    text: &str,
)
    requires
        left <= width,
    ensures
        final(pixels)@ == painted(
            old(pixels)@,
            width,
            color@,
            |x: int, y: int|
                line_effect(
                    text@,
                    left as int,
                    width as int,
                    top as int,
                    bottom as int,
                    color[3],
                    x,
                    y,
                ),
        ),
{
    let ghost before = pixels@;
    if width > usize::MAX / 4 {
        assert(before =~= painted(
            before,
            width,
            color@,
            |x: int, y: int|
                line_effect(
                    text@,
                    left as int,
                    width as int,
                    top as int,
                    bottom as int,
                    color[3],
                    x,
                    y,
                ),
        ));
        return;
    }
    let chars = chars_of(text);
    let shape = Shape::Line {
        chars: &chars,
        left,
        right: width,
        top,
        bottom: bottom as i64,
        alpha: color[3],
    };
    paint_within(
        pixels,
        width,
        (left as i64, width as i64),
        (top as i64, top as i64 + GLYPH_HEIGHT as i64),
        color,
        &shape,
    );
    assert(painted(before, width, color@, |x: int, y: int| shape.effect(x, y)) =~= painted(
        before,
        width,
        color@,
        |x: int, y: int|
            line_effect(
                text@,
                left as int,
                width as int,
                top as int,
                bottom as int,
                color[3],
                x,
                y,
            ),
    ));
}

/// Fills a dot with a hard edge, in the rows above `bottom`.
pub fn fill_dot(
    pixels: &mut [u8],
    width: usize,
    cx: i32,
    cy: i32,
    reach: i32,
    bottom: i32,
    color: [u8; 4],
)
    requires
        0 <= reach <= 0x1_0000,
    ensures
        final(pixels)@ == painted(
            old(pixels)@,
            width,
            color@,
            |x: int, y: int|
                dot_effect(cx as int, cy as int, reach as int, bottom as int, x, y),
        ),
{
    let ghost before = pixels@;
    let half: i64 = reach as i64 / 2 + 1;
    let shape = Shape::Dot { cx, cy, reach, bottom };
    proof {
        assert forall|x: int, y: int|
            0 <= x && 0 <= y && !(cx - half <= x < cx + half && cy - half <= y < cy
                + half) implies #[trigger] shape.effect(x, y) == Effect::Keep by {
            squares_are_ordered(2 * x + 1 - 2 * cx, reach as int);
            squares_are_ordered(2 * y + 1 - 2 * cy, reach as int);
        }
    }
    paint_within(
        pixels,
        width,
        (cx as i64 - half, cx as i64 + half),
        (cy as i64 - half, cy as i64 + half),
        color,
        &shape,
    );
    assert(painted(before, width, color@, |x: int, y: int| shape.effect(x, y)) =~= painted(
        before,
        width,
        color@,
        |x: int, y: int| dot_effect(cx as int, cy as int, reach as int, bottom as int, x, y),
    ));
}

/// Lays a rasterized glyph over a buffer, within a clip. The bitmap has
/// `across` columns and begins at the glyph's upper left corner.
pub fn blit(
    pixels: &mut [u8],
    width: usize,
    bitmap: &Vec<u8>,
    across: usize,
    corner: (i64, i64),
    clip: Rect,
    color: [u8; 4],
)
    requires
        across > 0,
        -0x1000_0000_0000 <= corner.0 <= 0x1000_0000_0000,
        -0x1000_0000_0000 <= corner.1 <= 0x1000_0000_0000,
    ensures
        final(pixels)@ == painted(
            old(pixels)@,
            width,
            color@,
            |x: int, y: int|
                glyph_effect(
                    bitmap@,
                    across as int,
                    corner.0 as int,
                    corner.1 as int,
                    clip,
                    color[3],
                    x,
                    y,
                ),
        ),
{
    let ghost before = pixels@;
    let shape = Shape::Glyph {
        bitmap,
        across,
        left: corner.0,
        top: corner.1,
        clip,
        alpha: color[3],
    };
    let (left, top): (i64, i64) = (clip.origin.x as i64, clip.origin.y as i64);
    paint_within(
        pixels,
        width,
        (left, left + clip.size.width as i64),
        (top, top + clip.size.height as i64),
        color,
        &shape,
    );
    assert(painted(before, width, color@, |x: int, y: int| shape.effect(x, y)) =~= painted(
        before,
        width,
        color@,
        |x: int, y: int|
            glyph_effect(
                bitmap@,
                across as int,
                corner.0 as int,
                corner.1 as int,
                clip,
                color[3],
                x,
                y,
            ),
    ));
}

/// The width of a micro-font text: five pixels for each character and one
/// between two.
pub open spec fn measured(text: Seq<char>) -> int {
    if text.len() == 0 {
        0
    } else {
        smaller(6 * text.len() - 1, i32::MAX as int)
    }
}

/// Measures a micro-font text in pixels.
pub fn text_width(text: &str) -> (width: i32)
    ensures
        width == measured(text@),
{
    let count: usize = chars_of(text).len();
    if count == 0 {
        return 0;
    }
    if count > 357_913_941 {
        return i32::MAX;
    }
    (6 * count - 1) as i32
}

// ---- laws ------------------------------------------------------------------------------

/// Drawing never changes the size of a buffer, and a shape that keeps every
/// pixel of it, such as one outside of it, changes nothing at all.
pub proof fn drawing_outside_changes_nothing(
    pixels: Seq<u8>,
    width: usize,
    color: Seq<u8>,
    effect: spec_fn(int, int) -> Effect,
)
    ensures
        painted(pixels, width, color, effect).len() == pixels.len(),
        (forall|x: int, y: int|
            0 <= x < width && 0 <= y < row_count(pixels.len(), width) ==> #[trigger] effect(x, y)
                == Effect::Keep) ==> painted(pixels, width, color, effect) == pixels,
{
    if forall|x: int, y: int|
        0 <= x < width && 0 <= y < row_count(pixels.len(), width) ==> #[trigger] effect(x, y)
            == Effect::Keep {
        assert forall|i: int| 0 <= i < pixels.len() implies painted(pixels, width, color, effect)[i]
            == pixels[i] by {
            if width > 0 {
                pixel_of_byte(i, width as int, 0, 0);
                assert(row(i, width as int) < row_count(pixels.len(), width) ==> effect(
                    column(i, width as int),
                    row(i, width as int),
                ) == Effect::Keep);
            }
        }
        assert(painted(pixels, width, color, effect) =~= pixels);
    }
}

/// A buffer without whole rows is never drawn into.
pub proof fn malformed_buffers_stay_as_they_are(
    pixels: Seq<u8>,
    width: usize,
    color: Seq<u8>,
    effect: spec_fn(int, int) -> Effect,
)
    requires
        width == 0 || width * 4 > usize::MAX || pixels.len() < width * 4,
    ensures
        painted(pixels, width, color, effect) == pixels,
{
    if 0 < width && pixels.len() < width * 4 {
        lemma_basic_div(pixels.len() as int, width * 4);
    }
    assert(painted(pixels, width, color, effect) =~= pixels);
}

/// Filling a rectangle a second time changes nothing.
pub proof fn filling_twice_is_filling_once(pixels: Seq<u8>, width: usize, rect: Rect, color: Seq<u8>)
    ensures
        painted(
            painted(pixels, width, color, |x: int, y: int| rect_effect(rect, x, y)),
            width,
            color,
            |x: int, y: int| rect_effect(rect, x, y),
        ) == painted(pixels, width, color, |x: int, y: int| rect_effect(rect, x, y)),
{
    let once = painted(pixels, width, color, |x: int, y: int| rect_effect(rect, x, y));
    assert(painted(once, width, color, |x: int, y: int| rect_effect(rect, x, y)) =~= once);
}

/// An opaque colour replaces what is below it, and a clear one leaves it.
pub proof fn opacity_decides(above: u8, below: u8)
    ensures
        mixed(above, below, 255) == above,
        mixed(above, below, 0) == below,
{
}

/// A blend lies between the two colours.
pub proof fn blends_lie_between(above: u8, below: u8, alpha: u8)
    ensures
        smaller(above as int, below as int) <= mixed(above, below, alpha) <= larger(
            above as int,
            below as int,
        ),
{
    let total = above * alpha + below * (255 - alpha);
    let low = smaller(above as int, below as int);
    let high = larger(above as int, below as int);
    assert(low * 255 <= total <= high * 255) by (nonlinear_arith)
        requires
            total == above * alpha + below * (255 - alpha),
            low <= above <= high,
            low <= below <= high,
            0 <= alpha <= 255,
    ;
}

/// A rounded rectangle stays within its rectangle, and is all of it where the
/// radius is zero.
pub proof fn rounding_only_cuts_corners(rect: Rect, radius: int, x: int, y: int)
    requires
        radius >= 0,
    ensures
        round_effect(rect, radius, x, y) == Effect::Stamp ==> rect_effect(rect, x, y)
            == Effect::Stamp,
        round_effect(rect, 0, x, y) == rect_effect(rect, x, y),
        inside(rect, x, y) && corner_depth(y - rect.origin.y, rect.size.height as int, radius) == 0
            ==> round_effect(rect, radius, x, y) == Effect::Stamp,
{
}

// ---- more laws -------------------------------------------------------------------------

/// A pixel is painted where it stands: the four bytes at its place, from left to
/// right and then from top to bottom, take the colour's own four bytes by the
/// effect there, and nothing else of the row decides.
pub proof fn pixels_are_painted_where_they_stand(
    pixels: Seq<u8>,
    width: usize,
    color: Seq<u8>,
    effect: spec_fn(int, int) -> Effect,
    x: int,
    y: int,
    channel: int,
)
    requires
        0 <= x < width,
        0 <= y,
        0 <= channel < 4,
        width * 4 <= usize::MAX,
        4 * (y * width + x) + 3 < pixels.len(),
        y < row_count(pixels.len(), width),
    ensures
        ({
            let at = 4 * (y * width + x) + channel;
            painted(pixels, width, color, effect)[at] == (match effect(x, y) {
                Effect::Keep => pixels[at],
                Effect::Stamp => color[channel],
                Effect::Blend(alpha) => mixed(color[channel], pixels[at], alpha),
            })
        }),
{
    reveal(column);
    reveal(row);
    let at = 4 * (y * width + x) + channel;
    let place = y * width + x;
    assert(place >= 0) by (nonlinear_arith)
        requires
            place == y * width + x,
            y >= 0,
            x >= 0,
            width >= 0,
    ;
    assert(at / 4 == place && at % 4 == channel);
    assert(place / (width as int) == y && place % (width as int) == x) by {
        vstd::arithmetic::div_mod::lemma_fundamental_div_mod_converse(
            place,
            width as int,
            y,
            x,
        );
    }
    assert(column(at, width as int) == x);
    assert(row(at, width as int) == y);
    let all = painted(pixels, width, color, effect);
    assert(0 <= at < all.len());
    assert(all[at] == applied(effect(x, y), color[at % 4], pixels[at]));
}

/// A blend is the nearest whole number to the weighted mean of the two colours.
pub proof fn blends_are_weighted_means(above: u8, below: u8, alpha: u8)
    ensures
        ({
            let mean = above * alpha + below * (255 - alpha);
            mean - 127 <= 255 * mixed(above, below, alpha) <= mean + 127
        }),
{
    let mean = above * alpha + below * (255 - alpha);
    assert(0 <= mean <= 255 * 255) by (nonlinear_arith)
        requires
            mean == above * alpha + below * (255 - alpha),
            0 <= above <= 255,
            0 <= below <= 255,
            0 <= alpha <= 255,
    ;
    assert((mean + 127) / 255 <= 255);
}

/// A rectangle is stamped on exactly its own pixels; a dot on those whose middle
/// is at most as far from its centre as it reaches.
pub proof fn shapes_stamp_their_own_pixels(
    rect: Rect,
    cx: int,
    cy: int,
    reach: int,
    bottom: int,
    x: int,
    y: int,
)
    ensures
        rect_effect(rect, x, y) == Effect::Stamp <==> {
            &&& rect.origin.x <= x && x < rect.origin.x + rect.size.width
            &&& rect.origin.y <= y && y < rect.origin.y + rect.size.height
        },
        rect_effect(rect, x, y) == Effect::Stamp || rect_effect(rect, x, y) == Effect::Keep,
        dot_effect(cx, cy, reach, bottom, x, y) == Effect::Stamp <==> y < bottom && (2 * x + 1 - 2
            * cx) * (2 * x + 1 - 2 * cx) + (2 * y + 1 - 2 * cy) * (2 * y + 1 - 2 * cy) <= reach
            * reach,
        y >= bottom ==> dot_effect(cx, cy, reach, bottom, x, y) == Effect::Keep,
{
}

/// Corners are rounded by no more than half of the shorter side, and by what is
/// asked where that is less.
pub proof fn corners_keep_to_half_the_side(rect: Rect, radius: int)
    requires
        rect.size.width >= 0 && rect.size.height >= 0,
    ensures
        0 <= corner_radius(rect, radius),
        2 * corner_radius(rect, radius) <= rect.size.width,
        2 * corner_radius(rect, radius) <= rect.size.height,
        0 <= radius && 2 * radius <= rect.size.width && 2 * radius <= rect.size.height
            ==> corner_radius(rect, radius) == radius,
        radius < 0 ==> corner_radius(rect, radius) == 0,
{
}

/// A line of text takes six columns for each character, the last of which is
/// blank, so a whole line is one less.
pub proof fn characters_take_six_columns(
    text: Seq<char>,
    room: int,
    k: int,
    column: int,
    row: int,
)
    requires
        0 <= k < text.len(),
        0 <= column < 6,
    ensures
        6 * k + 5 <= room ==> (line_inked(text, room, 6 * k + column, row) <==> inked(
            text[k],
            row,
            column,
        )),
        6 * k + 5 > room ==> !line_inked(text, room, 6 * k + column, row),
        text.len() < 0x1000_0000 ==> measured(text) == 6 * text.len() - 1,
        measured(Seq::empty()) == 0,
{
    assert((6 * k + column) / 6 == k && (6 * k + column) % 6 == column);
}

/// A glyph inks pixels inside its bitmap and its clip alone, and none that its
/// bitmap leaves blank; a disc inks only within one pixel of its radius.
pub proof fn ink_stays_inside(
    bitmap: Seq<u8>,
    across: int,
    left: int,
    top: int,
    clip: Rect,
    alpha: u8,
    x: int,
    y: int,
    radius: int,
)
    requires
        across > 0,
    ensures
        !inside(clip, x, y) ==> glyph_effect(bitmap, across, left, top, clip, alpha, x, y)
            == Effect::Keep,
        x < left || x >= left + across || y < top ==> glyph_effect(
            bitmap,
            across,
            left,
            top,
            clip,
            alpha,
            x,
            y,
        ) == Effect::Keep,
        0 <= x - left < across && 0 <= y - top && bitmap[(y - top) * across + (x - left)] == 0
            ==> glyph_effect(bitmap, across, left, top, clip, alpha, x, y) == Effect::Keep,
        x < left - radius - 1 || x > left + radius || y < top - radius - 1 || y > top + radius
            ==> disc_effect(left, top, radius, alpha, x, y) == Effect::Keep,
{
}

} // verus!
