//! Points, sizes and rectangles in logical pixels.

use crate::num::{larger, max_i32, plus, saturated};
use vstd::prelude::*;

verus! {

#[derive(Debug, Clone, Copy, PartialEq, Eq, Structural)]
pub struct Point {
    pub x: i32,
    pub y: i32,
}

#[derive(Debug, Clone, Copy, PartialEq, Eq, Structural)]
pub struct Size {
    pub width: i32,
    pub height: i32,
}

#[derive(Debug, Clone, Copy, PartialEq, Eq, Structural)]
pub struct Rect {
    pub origin: Point,
    pub size: Size,
}

/// The rectangle of these whole numbers.
pub open spec fn rect(x: int, y: int, width: int, height: int) -> Rect {
    Rect {
        origin: Point { x: x as i32, y: y as i32 },
        size: Size { width: width as i32, height: height as i32 },
    }
}

/// The rectangle nearest to these whole numbers.
pub open spec fn area(x: int, y: int, width: int, height: int) -> Rect {
    rect(saturated(x), saturated(y), saturated(width), saturated(height))
}

/// The 32-bit number nearest to `n`.
pub fn nearest_i32(n: i128) -> (result: i32)
    ensures
        result == saturated(n as int),
{
    if n > i32::MAX as i128 {
        i32::MAX
    } else if n < i32::MIN as i128 {
        i32::MIN
    } else {
        n as i32
    }
}

pub fn area_of(x: i128, y: i128, width: i128, height: i128) -> (result: Rect)
    ensures
        result == area(x as int, y as int, width as int, height as int),
{
    Rect::new(nearest_i32(x), nearest_i32(y), nearest_i32(width), nearest_i32(height))
}

/// Half of `n`, towards zero.
pub open spec fn half(n: int) -> int {
    if n >= 0 {
        n / 2
    } else {
        -((-n) / 2)
    }
}

pub fn half_of(n: i128) -> (result: i128)
    requires
        -0x1000_0000_0000_0000_0000 < n < 0x1000_0000_0000_0000_0000,
    ensures
        result == half(n as int),
{
    if n >= 0 {
        n / 2
    } else {
        -((-n) / 2)
    }
}

/// `n` divided by `d`, towards zero.
pub open spec fn quotient(n: int, d: int) -> int {
    if n >= 0 {
        n / d
    } else {
        -((-n) / d)
    }
}

pub fn quotient_of(n: i32, d: i32) -> (result: i32)
    requires
        d > 1,
    ensures
        result == quotient(n as int, d as int),
{
    if n >= 0 {
        n / d
    } else {
        let size: i64 = -(n as i64);
        let whole: i64 = size / d as i64;
        assert(0 <= whole <= size) by (nonlinear_arith)
            requires
                whole == size as int / d as int,
                size >= 0,
                d > 1,
        ;
        (-whole) as i32
    }
}

/// A rectangle as seen from another point.
pub open spec fn seen_from(r: Rect, origin: Point) -> Rect {
    area(
        r.origin.x - origin.x,
        r.origin.y - origin.y,
        r.size.width as int,
        r.size.height as int,
    )
}

/// A rectangle in the coordinates of a surface that begins at `origin`.
pub fn local_to(r: Rect, origin: Point) -> (result: Rect)
    ensures
        result == seen_from(r, origin),
{
    area_of(
        r.origin.x as i128 - origin.x as i128,
        r.origin.y as i128 - origin.y as i128,
        r.size.width as i128,
        r.size.height as i128,
    )
}

/// A surface is at least one pixel wide and high.
pub open spec fn at_least_one(size: Size) -> Size {
    Size {
        width: larger(size.width as int, 1) as i32,
        height: larger(size.height as int, 1) as i32,
    }
}

pub fn surface_size(size: Size) -> (result: Size)
    ensures
        result == at_least_one(size),
{
    Size { width: max_i32(size.width, 1), height: max_i32(size.height, 1) }
}

impl Rect {
    pub fn new(x: i32, y: i32, width: i32, height: i32) -> (result: Self)
        ensures
            result == rect(x as int, y as int, width as int, height as int),
    {
        Rect { origin: Point { x, y }, size: Size { width, height } }
    }

    pub open spec fn right_edge(self) -> int {
        saturated(self.origin.x + self.size.width)
    }

    pub open spec fn bottom_edge(self) -> int {
        saturated(self.origin.y + self.size.height)
    }

    pub fn right(self) -> (edge: i32)
        ensures
            edge == self.right_edge(),
    {
        plus(self.origin.x, self.size.width)
    }

    pub fn bottom(self) -> (edge: i32)
        ensures
            edge == self.bottom_edge(),
    {
        plus(self.origin.y, self.size.height)
    }

    /// Whether a point lies inside: the left and top edges count, the right
    /// and bottom ones do not.
    pub open spec fn covers(self, point: Point) -> bool {
        self.origin.x <= point.x < self.right_edge() && self.origin.y <= point.y
            < self.bottom_edge()
    }

    pub fn contains_point(self, point: Point) -> (inside: bool)
        ensures
            inside == self.covers(point),
    {
        point.x >= self.origin.x && point.x < self.right() && point.y >= self.origin.y && point.y
            < self.bottom()
    }
}

// ---- laws ------------------------------------------------------------------------------

/// A rectangle holds exactly the points from its corner on, its right and
/// bottom edges excluded. (Its edges are 32-bit numbers.)
pub proof fn rectangles_cover_their_points(r: Rect, point: Point)
    requires
        i32::MIN <= r.origin.x + r.size.width <= i32::MAX,
        i32::MIN <= r.origin.y + r.size.height <= i32::MAX,
    ensures
        r.covers(point) <==> {
            &&& r.origin.x <= point.x && point.x - r.origin.x < r.size.width
            &&& r.origin.y <= point.y && point.y - r.origin.y < r.size.height
        },
{
}

/// A rectangle seen from its own corner begins at zero, and one seen from
/// anywhere keeps its size.
pub proof fn views_move_rectangles(r: Rect, origin: Point)
    ensures
        seen_from(r, r.origin) == rect(0, 0, r.size.width as int, r.size.height as int),
        seen_from(r, origin).size == r.size,
        i32::MIN <= r.origin.x - origin.x <= i32::MAX ==> seen_from(r, origin).origin.x + origin.x
            == r.origin.x,
        i32::MIN <= r.origin.y - origin.y <= i32::MAX ==> seen_from(r, origin).origin.y + origin.y
            == r.origin.y,
{
}

/// Halves and quotients go towards zero: what is left over has the sign of the
/// whole and is smaller than the divisor.
pub proof fn quotients_go_towards_zero(n: int, d: int)
    requires
        d > 1,
    ensures
        n >= 0 ==> 0 <= n - d * quotient(n, d) < d,
        n < 0 ==> -d < n - d * quotient(n, d) <= 0,
        half(n) == quotient(n, 2),
        n >= 0 ==> 0 <= n - 2 * half(n) < 2,
        n < 0 ==> -2 < n - 2 * half(n) <= 0,
{
    vstd::arithmetic::div_mod::lemma_fundamental_div_mod(n, d);
    vstd::arithmetic::div_mod::lemma_fundamental_div_mod(-n, d);
    vstd::arithmetic::div_mod::lemma_mod_bound(n, d);
    vstd::arithmetic::div_mod::lemma_mod_bound(-n, d);
    if n < 0 {
        assert(d * (-((-n) / d)) == -(d * ((-n) / d))) by (nonlinear_arith);
    }
}

} // verus!
