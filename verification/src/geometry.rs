//! Integer screen geometry: points and axis-aligned rectangles.

use vstd::prelude::*;

verus! {

/// A point on the desktop, in whole screen units.
#[derive(Clone, Copy, Debug, PartialEq, Eq, Structural)]
pub struct Point {
    pub x: i32,
    pub y: i32,
}

/// An axis-aligned rectangle given by its two extreme corners. Both corners
/// belong to the rectangle.
#[derive(Clone, Copy, Debug, PartialEq, Eq, Structural)]
pub struct Rect {
    pub min: Point,
    pub max: Point,
}

/// Division by two that rounds toward zero, as signed integer division does.
pub open spec fn half_toward_zero(v: int) -> int {
    if v >= 0 {
        v / 2
    } else {
        -((-v) / 2)
    }
}

pub open spec fn min_int(a: int, b: int) -> int {
    if a <= b {
        a
    } else {
        b
    }
}

pub open spec fn max_int(a: int, b: int) -> int {
    if a <= b {
        b
    } else {
        a
    }
}

impl Point {
    pub fn new(x: i32, y: i32) -> (p: Point)
        ensures
            p.x == x,
            p.y == y,
    {
        Point { x, y }
    }
}

impl Rect {
    /// The corners are ordered: `min` lies below and to the left of `max`.
    pub open spec fn is_normalized(self) -> bool {
        self.min.x <= self.max.x && self.min.y <= self.max.y
    }

    /// The point lies in the rectangle, its edges included.
    pub open spec fn spec_contains(self, p: Point) -> bool {
        &&& self.min.x <= p.x <= self.max.x
        &&& self.min.y <= p.y <= self.max.y
    }

    /// The midpoint of the two corners, each coordinate rounded toward zero.
    pub open spec fn spec_center(self) -> Point {
        Point {
            x: half_toward_zero(self.min.x + self.max.x) as i32,
            y: half_toward_zero(self.min.y + self.max.y) as i32,
        }
    }

    /// The rectangle spanned by two opposite corners, given in any order.
    pub fn new(x0: i32, y0: i32, x1: i32, y1: i32) -> (r: Rect)
        ensures
            r.min.x == min_int(x0 as int, x1 as int),
            r.min.y == min_int(y0 as int, y1 as int),
            r.max.x == max_int(x0 as int, x1 as int),
            r.max.y == max_int(y0 as int, y1 as int),
            r.is_normalized(),
            r.min.x <= x0 && r.min.x <= x1 && (r.min.x == x0 || r.min.x == x1),
            r.max.x >= x0 && r.max.x >= x1 && (r.max.x == x0 || r.max.x == x1),
            r.min.y <= y0 && r.min.y <= y1 && (r.min.y == y0 || r.min.y == y1),
            r.max.y >= y0 && r.max.y >= y1 && (r.max.y == y0 || r.max.y == y1),
    {
        let (lx, hx) = if x0 <= x1 { (x0, x1) } else { (x1, x0) };
        let (ly, hy) = if y0 <= y1 { (y0, y1) } else { (y1, y0) };
        Rect { min: Point { x: lx, y: ly }, max: Point { x: hx, y: hy } }
    }

    /// Whether `p` lies in the rectangle, its edges included.
    pub fn contains(&self, p: Point) -> (b: bool)
        ensures
            b == self.spec_contains(p),
            b == (self.min.x <= p.x && p.x <= self.max.x && self.min.y <= p.y && p.y <= self.max.y),
    {
        self.min.x <= p.x && p.x <= self.max.x && self.min.y <= p.y && p.y <= self.max.y
    }

    /// The midpoint of the two corners, each coordinate rounded toward zero.
    pub fn center(&self) -> (c: Point)
        ensures
            c == self.spec_center(),
    {
        Point { x: midpoint(self.min.x, self.max.x), y: midpoint(self.min.y, self.max.y) }
    }
}

fn midpoint(a: i32, b: i32) -> (m: i32)
    ensures
        m == half_toward_zero(a + b),
{
    let s: i64 = a as i64 + b as i64;
    let h: i64 = if s >= 0 {
        s / 2
    } else {
        -((-s) / 2)
    };
    h as i32
}

/// The centre of a rectangle whose corners are ordered lies in the rectangle.
pub proof fn lemma_center_inside(r: Rect)
    requires
        r.is_normalized(),
    ensures
        r.spec_contains(r.spec_center()),
{
}

/// The centre halves the sum of the corners' coordinates, dropping at most
/// one unit, always toward zero: for a non-negative sum `s` the coordinate
/// `m` has `2m <= s <= 2m + 1`, for a negative one `2m - 1 <= s <= 2m`.
pub proof fn lemma_center_halves_corners(r: Rect)
    ensures
        ({
            let c = r.spec_center();
            let sx = r.min.x + r.max.x;
            let sy = r.min.y + r.max.y;
            &&& sx >= 0 ==> 2 * c.x <= sx <= 2 * c.x + 1
            &&& sx < 0 ==> 2 * c.x - 1 <= sx <= 2 * c.x
            &&& sy >= 0 ==> 2 * c.y <= sy <= 2 * c.y + 1
            &&& sy < 0 ==> 2 * c.y - 1 <= sy <= 2 * c.y
        }),
{
}

} // verus!
