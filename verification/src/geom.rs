//! Fixed-point plane geometry: vectors and axis-aligned rectangles.
//!
//! Every length and coordinate is a whole number of units, `ONE` units to a
//! pixel, so half a pixel and one and a half pixels are exact.

use vstd::prelude::*;

verus! {

/// Units in one pixel; also the denominator of a fraction.
pub const ONE: i64 = 65536;

/// Half a pixel.
pub const HALF: i64 = 32768;

/// A point or an extent in the plane, in units.
#[derive(Clone, Copy, Debug, PartialEq, Eq, Structural)]
pub struct Vector {
    pub x: i64,
    pub y: i64,
}

impl Vector {
    /// The vector with both components zero.
    pub open spec fn zero() -> Vector {
        Vector { x: 0, y: 0 }
    }

    /// The vector that lies `x` units right and `y` units down.
    pub fn new(x: i64, y: i64) -> (v: Vector)
        ensures
            v == (Vector { x, y }),
    {
        Vector { x, y }
    }

    /// What `from_pixels` returns.
    pub open spec fn of_pixels(x: i32, y: i32) -> Vector {
        Vector { x: (x * ONE) as i64, y: (y * ONE) as i64 }
    }

    /// The vector that lies `x` whole pixels right and `y` whole pixels down.
    pub fn from_pixels(x: i32, y: i32) -> (v: Vector)
        ensures
            v == Vector::of_pixels(x, y),
            v.x == x * ONE,
            v.y == y * ONE,
    {
        Vector { x: (x as i64) * ONE, y: (y as i64) * ONE }
    }
}

/// An axis-aligned rectangle: its top-left corner and its extent.
#[derive(Clone, Copy, Debug, PartialEq, Eq, Structural)]
pub struct Rectangle {
    pub pos: Vector,
    pub size: Vector,
}

impl Rectangle {
    /// The rectangle with corner `pos` and extent `size`.
    pub fn new(pos: Vector, size: Vector) -> (r: Rectangle)
        ensures
            r == (Rectangle { pos, size }),
    {
        Rectangle { pos, size }
    }

    /// Two rectangles overlap when each begins strictly before the other
    /// ends, on both axes. Rectangles that only touch do not overlap.
    pub open spec fn overlaps_spec(self, other: Rectangle) -> bool {
        &&& other.pos.x < self.pos.x + self.size.x
        &&& other.pos.x + other.size.x > self.pos.x
        &&& other.pos.y < self.pos.y + self.size.y
        &&& other.pos.y + other.size.y > self.pos.y
    }

    /// Whether the two rectangles share any area.
    pub fn overlaps(&self, other: &Rectangle) -> (hit: bool)
        ensures
            hit == self.overlaps_spec(*other),
    {
        let self_right: i128 = self.pos.x as i128 + self.size.x as i128;
        let self_bottom: i128 = self.pos.y as i128 + self.size.y as i128;
        let other_right: i128 = other.pos.x as i128 + other.size.x as i128;
        let other_bottom: i128 = other.pos.y as i128 + other.size.y as i128;
        (other.pos.x as i128) < self_right && other_right > self.pos.x as i128
            && (other.pos.y as i128) < self_bottom && other_bottom > self.pos.y as i128
    }
}

/// The product of a length and a fraction: `a` times `f` `ONE`-ths,
/// rounded down to a whole unit.
pub open spec fn scaled(a: int, f: int) -> int {
    (a * f) / ONE as int
}

/// `p` divided by `ONE`, rounded down.
pub fn floor_units(p: i128) -> (q: i128)
    requires
        p > i128::MIN + ONE,
    ensures
        q == (p as int) / (ONE as int),
{
    if p >= 0 {
        p / 65536
    } else {
        let n: i128 = -p;
        let up: i128 = (n + 65535) / 65536;
        -up
    }
}

/// Overlap does not depend on which rectangle is asked.
pub proof fn lemma_overlaps_symmetric(a: Rectangle, b: Rectangle)
    ensures
        a.overlaps_spec(b) == b.overlaps_spec(a),
{
}

} // verus!
