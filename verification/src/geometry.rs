//! Points of the world.

use vstd::prelude::*;
use crate::random::draw;
use crate::scalar::{isqrt, sqrt_spec, ONE};

verus! {

/// A point of the plane.
#[derive(Clone, Copy, Debug, PartialEq, Eq, Structural)]
pub struct Point2 {
    pub x: i64,
    pub y: i64,
}

/// The square of the distance between `a` and `b`.
pub open spec fn distance_squared(a: Point2, b: Point2) -> int {
    (a.x - b.x) * (a.x - b.x) + (a.y - b.y) * (a.y - b.y)
}

/// The distance between `a` and `b`, rounded down.
pub open spec fn distance_spec(a: Point2, b: Point2) -> int {
    sqrt_spec(distance_squared(a, b))
}

impl Point2 {
    /// Whether the point lies in the world, the square `[0, ONE)` by
    /// `[0, ONE)`.
    pub open spec fn in_world(self) -> bool {
        &&& 0 <= self.x < ONE
        &&& 0 <= self.y < ONE
    }

    /// A point with the given coordinates.
    pub fn new(x: i64, y: i64) -> (r: Point2)
        ensures
            r == (Point2 { x, y }),
    {
        Point2 { x, y }
    }

    /// A point of the world, drawn from `rng`: first `x`, then `y`.
    pub fn random(rng: &mut rand::rngs::StdRng) -> (r: Point2)
        ensures
            r.in_world(),
    {
        let x: i64 = draw(rng, 0, ONE);
        let y: i64 = draw(rng, 0, ONE);
        Point2 { x, y }
    }
}

/// The distance between two points of the world, rounded down.
pub fn distance(a: &Point2, b: &Point2) -> (r: i64)
    requires
        a.in_world(),
        b.in_world(),
    ensures
        r == distance_spec(*a, *b),
        0 <= r < 2 * ONE,
        r * r <= distance_squared(*a, *b) < (r + 1) * (r + 1),
{
    let dx: i64 = a.x - b.x;
    let dy: i64 = a.y - b.y;
    assert(0 <= dx * dx <= 1_000_000 * 1_000_000) by (nonlinear_arith)
        requires
            -1_000_000 < dx < 1_000_000,
    ;
    assert(0 <= dy * dy <= 1_000_000 * 1_000_000) by (nonlinear_arith)
        requires
            -1_000_000 < dy < 1_000_000,
    ;
    let squared: u64 = (dx * dx + dy * dy) as u64;
    let root: u64 = isqrt(squared);
    assert(root < 2_000_000) by (nonlinear_arith)
        requires
            root * root <= squared,
            squared <= 2_000_000_000_000,
    ;
    root as i64
}

} // verus!
