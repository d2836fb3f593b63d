//! Two-dimensional points in fixed-point coordinates.

use vstd::prelude::*;

use crate::fixed::FX_ONE;
use crate::fixed::fx_mul;
use crate::fixed::fx_mul_spec;
use crate::fixed::lemma_fx_mul_unit;
use crate::fixed::sat64;
use crate::fixed::sat_add;
use crate::fixed::sat_sub;
use crate::range::fits;
use crate::trig::sin_cos_fx;

verus! {

/// A 2-D point (or vector) of fixed-point scalars.
#[derive(Debug, Clone, Copy, PartialEq, Eq, Structural)]
pub struct Point {
    /// X coordinate
    pub x: i64,
    /// Y coordinate
    pub y: i64,
}

/// Whether both coordinates of a point sit far enough from the pivot that
/// the saturating arithmetic of a rotation around the pivot is exact.
pub open spec fn rotation_fits(p: Point, pivot: Point) -> bool {
    &&& fits(p.x - pivot.x)
    &&& fits(p.y - pivot.y)
    &&& fits(pivot.x - p.x)
    &&& fits(pivot.y - p.y)
}

/// The sine and cosine pairs the trigonometric layer pins exactly: the
/// quadrant boundaries and the odd multiples of 45 degrees; `None` for
/// every other normalised angle, where they are approximations.
pub open spec fn exact_sin_cos(dm: int) -> Option<(int, int)> {
    if dm == 0 {
        Some((0int, FX_ONE as int))
    } else if dm == 45_000_000 {
        Some((707_107int, 707_107int))
    } else if dm == 90_000_000 {
        Some((FX_ONE as int, 0int))
    } else if dm == 135_000_000 {
        Some((707_107int, -707_107int))
    } else if dm == 180_000_000 {
        Some((0int, -(FX_ONE as int)))
    } else if dm == 225_000_000 {
        Some((-707_107int, -707_107int))
    } else if dm == 270_000_000 {
        Some((-(FX_ONE as int), 0int))
    } else if dm == 315_000_000 {
        Some((-707_107int, 707_107int))
    } else {
        None
    }
}

/// The exact result of rotating a point around a pivot, on the eight
/// angles whose sine and cosine the trigonometric layer pins (the
/// quadrant boundaries and the odd multiples of 45 degrees); `None`
/// between them, where the rotation is approximate.  The arithmetic
/// mirrors the rotation itself, saturating at the `i64` extremes.
pub open spec fn rotated_exact(p: Point, pivot: Point, deg: i64) -> Option<Point> {
    match exact_sin_cos((deg as int) % 360_000_000int) {
        Some(sc) => {
            let s = sc.0;
            let c = sc.1;
            let dx = sat64(p.x - pivot.x);
            let dy = sat64(p.y - pivot.y);
            let x1 = sat64(fx_mul_spec(c, dx) - fx_mul_spec(s, dy));
            let y1 = sat64(fx_mul_spec(c, dy) + fx_mul_spec(s, dx));
            Some(Point { x: sat64(x1 + pivot.x) as i64, y: sat64(y1 + pivot.y) as i64 })
        },
        None => None,
    }
}

impl Point {
    /// The componentwise saturating difference, as a spec-level value.
    pub open spec fn minus_spec(self, other: Point) -> Point {
        Point { x: sat64(self.x - other.x) as i64, y: sat64(self.y - other.y) as i64 }
    }

    /// The componentwise saturating sum, as a spec-level value.
    pub open spec fn plus_spec(self, other: Point) -> Point {
        Point { x: sat64(self.x + other.x) as i64, y: sat64(self.y + other.y) as i64 }
    }

    /// Create a point from its coordinates.
    #[inline]
    pub fn new(x: i64, y: i64) -> (r: Point)
        ensures
            r == (Point { x, y }),
    {
        Point { x, y }
    }

    /// The origin.
    #[inline]
    pub fn zero() -> (r: Point)
        ensures
            r == (Point { x: 0i64, y: 0i64 }),
    {
        Point { x: 0, y: 0 }
    }

    /// Whether this point is the origin.
    #[inline]
    pub fn is_zero(&self) -> (b: bool)
        ensures
            b == (self.x == 0 && self.y == 0),
    {
        self.x == 0 && self.y == 0
    }

    /// Componentwise sum, saturating at the `i64` extremes.
    pub fn plus(self, other: Point) -> (r: Point)
        ensures
            r.x == sat64(self.x + other.x),
            r.y == sat64(self.y + other.y),
    {
        Point { x: sat_add(self.x, other.x), y: sat_add(self.y, other.y) }
    }

    /// Componentwise difference, saturating at the `i64` extremes.
    pub fn minus(self, other: Point) -> (r: Point)
        ensures
            r.x == sat64(self.x - other.x),
            r.y == sat64(self.y - other.y),
    {
        Point { x: sat_sub(self.x, other.x), y: sat_sub(self.y, other.y) }
    }

    /// Both coordinates scaled by a fixed-point factor.
    pub fn scaled(self, s: i64) -> (r: Point)
        ensures
            r.x == fx_mul_spec(self.x as int, s as int),
            r.y == fx_mul_spec(self.y as int, s as int),
    {
        Point { x: fx_mul(self.x, s), y: fx_mul(self.y, s) }
    }

    /// Rotate this point counterclockwise around a pivot by an angle in
    /// fixed-point degrees.
    ///
    /// On the quadrant boundaries the rotation is exact (up to saturation);
    /// elsewhere it uses the approximated sine and cosine.
    pub fn rotate_around(self, pivot: &Point, deg: i64) -> (r: Point)
        ensures
            rotated_exact(self, *pivot, deg) matches Some(q) ==> r == q,
            rotation_fits(self, *pivot) ==> {
                let dm = (deg as int) % 360_000_000int;
                let dx = self.x - pivot.x;
                let dy = self.y - pivot.y;
                &&& dm == 0 ==> r == self
                &&& dm == 90_000_000 ==> r.x == sat64(pivot.x - dy) && r.y == sat64(
                    pivot.y + dx,
                )
                &&& dm == 180_000_000 ==> r.x == sat64(pivot.x - dx) && r.y == sat64(
                    pivot.y - dy,
                )
                &&& dm == 270_000_000 ==> r.x == sat64(pivot.x + dy) && r.y == sat64(
                    pivot.y - dx,
                )
            },
    {
        let (s, c) = sin_cos_fx(deg);
        let dx = sat_sub(self.x, pivot.x);
        let dy = sat_sub(self.y, pivot.y);
        let x1 = sat_sub(fx_mul(c, dx), fx_mul(s, dy));
        let y1 = sat_add(fx_mul(c, dy), fx_mul(s, dx));
        proof {
            lemma_fx_mul_unit(dx);
            lemma_fx_mul_unit(dy);
        }
        Point { x: sat_add(x1, pivot.x), y: sat_add(y1, pivot.y) }
    }
}

} // verus!
