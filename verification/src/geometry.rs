//! Lengths and rectangles.
//!
//! Geometry is fixed-point: a length is an `i64` count of equal parts of a point, [`POINT`] of
//! them to the point, and a fraction of a length is a count of parts of [`WHOLE`].

use vstd::prelude::*;

verus! {

/// How many units of length make one point.
pub const POINT: i64 = 65_536;

/// How many units of a fraction make one whole.
pub const WHOLE: i64 = 4_294_967_296;

/// A position on a display.
#[derive(Clone, Copy, Debug, PartialEq, Eq, Structural)]
pub struct Point {
    pub x: i64,
    pub y: i64,
}

/// The extent of a window or of a display.
#[derive(Clone, Copy, Debug, PartialEq, Eq, Structural)]
pub struct Size {
    pub width: i64,
    pub height: i64,
}

/// A rectangle: the upper left corner and the extent.
#[derive(Clone, Copy, Debug, PartialEq, Eq, Structural)]
pub struct Rect {
    pub origin: Point,
    pub size: Size,
}

impl Size {
    /// No side is negative.
    pub open spec fn valid(self) -> bool {
        self.width >= 0 && self.height >= 0
    }
}

impl Rect {
    /// The extent is valid; the corner may lie anywhere.
    pub open spec fn valid(self) -> bool {
        self.size.valid()
    }
}

/// The smaller of two integers.
pub open spec fn least(a: int, b: int) -> int {
    if a <= b {
        a
    } else {
        b
    }
}

/// The larger of two integers.
pub open spec fn greatest(a: int, b: int) -> int {
    if a >= b {
        a
    } else {
        b
    }
}

/// How far two coordinates lie apart.
pub open spec fn distance(a: int, b: int) -> int {
    if a >= b {
        a - b
    } else {
        b - a
    }
}

/// `length`, rounded down to whole points.
pub open spec fn floor_point(length: int) -> int {
    (length / POINT as int) * POINT
}

/// The whole points that cover `n`, of which `d` make one point.
pub open spec fn ceil_points(n: int, d: int) -> int {
    -(-n / d) * POINT
}

/// Division rounded toward negative infinity.
pub(crate) fn floor_div(n: i128, d: i128) -> (q: i128)
    requires
        d > 0,
    ensures
        q == n as int / d as int,
{
    proof {
        let (a, b): (int, int) = (n as int, d as int);
        assert(a >= 0 ==> 0 <= a / b <= a) by (nonlinear_arith)
            requires
                b > 0,
        ;
        assert(a < 0 ==> a <= a / b < 0) by (nonlinear_arith)
            requires
                b > 0,
        ;
    }
    n.checked_div_euclid(d).unwrap()
}

/// Of two integers, the smaller one and the larger one are the two, in order; and they lie as far
/// apart as the two do.
pub proof fn law_least_and_greatest(a: int, b: int)
    ensures
        least(a, b) <= a,
        least(a, b) <= b,
        greatest(a, b) >= a,
        greatest(a, b) >= b,
        least(a, b) == a || least(a, b) == b,
        least(a, b) + greatest(a, b) == a + b,
        distance(a, b) == greatest(a, b) - least(a, b),
        distance(a, b) == distance(b, a),
{
}

/// Rounding down to points loses less than one point, and leaves whole points.
pub proof fn law_floor_point(length: int)
    ensures
        floor_point(length) <= length < floor_point(length) + 65_536,
        floor_point(length) % 65_536 == 0,
{
}

/// Rounding up to points adds less than one point, and leaves whole points.
pub proof fn law_ceil_points(n: int, d: int)
    requires
        d > 0,
    ensures
        ceil_points(n, d) * d >= n * 65_536,
        (ceil_points(n, d) - 65_536) * d < n * 65_536,
        ceil_points(n, d) % 65_536 == 0,
{
    let points = -(-n / d);
    assert(points * d >= n && (points - 1) * d < n) by (nonlinear_arith)
        requires
            d > 0,
            points == -(-n / d),
    ;
    let length = ceil_points(n, d);
    assert(length * d == (points * d) * 65_536 && (length - 65_536) * d == ((points - 1) * d)
        * 65_536) by (nonlinear_arith)
        requires
            length == points * 65_536,
    ;
}

} // verus!
