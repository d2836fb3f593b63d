//! Axis-aligned bounding boxes built from two ranges.

use vstd::prelude::*;

use crate::fixed::fx_div;
use crate::fixed::fx_div_spec;
use crate::fixed::fx_mul;
use crate::fixed::fx_mul_spec;
use crate::fixed::sat64;
use crate::fixed::sat_add;
use crate::fixed::sat_sub;
use crate::point::Point;
use crate::range::Range;
use crate::range::enlarge_of;
use crate::range::extend_of;
use crate::range::intersect_of;
use crate::range::reduce_of;
use crate::range::union_of;

verus! {

/// A region bounded by an X range and a Y range; it is empty (*none*) when
/// either range is empty.
#[derive(Debug, Clone, Copy, PartialEq, Eq, Structural)]
pub struct BBox {
    /// X range
    pub x: Range,
    /// Y range
    pub y: Range,
}

/// Whether a box is empty.
pub open spec fn bbox_is_none(b: BBox) -> bool {
    b.x.min > b.x.max || b.y.min > b.y.max
}

/// Whether all four corners of a box sit close enough to a pivot for a
/// rotation around the pivot to be free of saturation.
pub open spec fn box_rotation_fits(b: BBox, pt: Point) -> bool {
    &&& crate::point::rotation_fits(Point { x: b.x.min, y: b.y.min }, pt)
    &&& crate::point::rotation_fits(Point { x: b.x.max, y: b.y.max }, pt)
    &&& crate::point::rotation_fits(Point { x: b.x.min, y: b.y.max }, pt)
    &&& crate::point::rotation_fits(Point { x: b.x.max, y: b.y.min }, pt)
}

/// The union of two boxes, with an empty operand acting as the neutral
/// element.
pub open spec fn bbox_union_of(a: BBox, b: BBox) -> BBox {
    if bbox_is_none(b) {
        a
    } else if bbox_is_none(a) {
        b
    } else {
        BBox { x: union_of(a.x, b.x), y: union_of(a.y, b.y) }
    }
}

/// The intersection of two boxes, with an empty operand absorbing.
pub open spec fn bbox_intersect_of(a: BBox, b: BBox) -> BBox {
    if bbox_is_none(b) {
        b
    } else if bbox_is_none(a) {
        a
    } else {
        BBox { x: intersect_of(a.x, b.x), y: intersect_of(a.y, b.y) }
    }
}

/// A box grown to hold one more point.
pub open spec fn bbox_extend_of(a: BBox, p: Point) -> BBox {
    BBox { x: extend_of(a.x, p.x), y: extend_of(a.y, p.y) }
}

/// The bounding box of a sequence of points.
pub open spec fn bbox_of_points_spec(s: Seq<Point>) -> BBox
    decreases s.len(),
{
    if s.len() == 0 {
        BBox { x: Range { min: 0i64, max: -1i64 }, y: Range { min: 0i64, max: -1i64 } }
    } else {
        bbox_extend_of(bbox_of_points_spec(s.drop_last()), s.last())
    }
}

impl BBox {
    /// Create an empty box.
    pub fn none() -> (r: BBox)
        ensures
            r == (BBox {
                x: Range { min: 0i64, max: -1i64 },
                y: Range { min: 0i64, max: -1i64 },
            }),
    {
        BBox { x: Range::none(), y: Range::none() }
    }

    /// Return `true` if the box describes an empty region.
    pub fn is_none(&self) -> (b: bool)
        ensures
            b == bbox_is_none(*self),
    {
        self.x.is_none() || self.y.is_none()
    }

    /// Make a box from two corner coordinates, normalising the order of the
    /// bounds on each axis.
    pub fn new(x0: i64, y0: i64, x1: i64, y1: i64) -> (r: BBox)
        ensures
            r.x.min == if x0 < x1 {
                x0
            } else {
                x1
            },
            r.x.max == if x0 < x1 {
                x1
            } else {
                x0
            },
            r.y.min == if y0 < y1 {
                y0
            } else {
                y1
            },
            r.y.max == if y0 < y1 {
                y1
            } else {
                y0
            },
    {
        let x = if x0 < x1 {
            Range::new(x0, x1)
        } else {
            Range::new(x1, x0)
        };
        let y = if y0 < y1 {
            Range::new(y0, y1)
        } else {
            Range::new(y1, y0)
        };
        BBox { x, y }
    }

    /// Create a box from two ranges.
    pub fn of_ranges(x: Range, y: Range) -> (r: BBox)
        ensures
            r == (BBox { x, y }),
    {
        BBox { x, y }
    }

    /// The bounding box of a vector of points.
    pub fn of_points(pts: &Vec<Point>) -> (r: BBox)
        ensures
            r == bbox_of_points_spec(pts@),
    {
        let mut s = BBox::none();
        let mut i: usize = 0;
        while i < pts.len()
            invariant
                i <= pts.len(),
                s == bbox_of_points_spec(pts@.take(i as int)),
            decreases pts.len() - i,
        {
            proof {
                assert(pts@.take(i + 1).drop_last() =~= pts@.take(i as int));
                assert(pts@.take(i + 1).last() == pts@[i as int]);
            }
            let p = pts[i];
            s.x = s.x.extend_to(p.x);
            s.y = s.y.extend_to(p.y);
            i = i + 1;
        }
        proof {
            assert(pts@.take(pts@.len() as int) =~= pts@);
        }
        s
    }

    /// A box described by its centre and its width and height; an odd
    /// fixed-point width or height loses its last millionth to the halving.
    pub fn of_cwh(centre: Point, width: i64, height: i64) -> (r: BBox)
        ensures
            ({
                let hw = crate::fixed::trunc_div(width as int, 2);
                let hh = crate::fixed::trunc_div(height as int, 2);
                r == BBox::new_spec(
                    sat64(centre.x - hw) as i64,
                    sat64(centre.y - hh) as i64,
                    sat64(centre.x + hw) as i64,
                    sat64(centre.y + hh) as i64,
                )
            }),
    {
        let hw = half(width);
        let hh = half(height);
        BBox::new(
            sat_sub(centre.x, hw),
            sat_sub(centre.y, hh),
            sat_add(centre.x, hw),
            sat_add(centre.y, hh),
        )
    }

    /// What [`BBox::new`] builds, as a spec-level value.
    pub open spec fn new_spec(x0: i64, y0: i64, x1: i64, y1: i64) -> BBox {
        BBox {
            x: Range {
                min: if x0 < x1 {
                    x0
                } else {
                    x1
                },
                max: if x0 < x1 {
                    x1
                } else {
                    x0
                },
            },
            y: Range {
                min: if y0 < y1 {
                    y0
                } else {
                    y1
                },
                max: if y0 < y1 {
                    y1
                } else {
                    y0
                },
            },
        }
    }

    /// Map a point into box-relative fractional coordinates; on an empty or
    /// degenerate (zero-width or zero-height) box the point comes back
    /// unchanged.
    pub fn pt_within(&self, pt: Point) -> (r: Point)
        ensures
            bbox_is_none(*self) ==> r == pt,
            !bbox_is_none(*self) && self.x.min < self.x.max && self.y.min < self.y.max ==> {
                &&& r.x == fx_div_spec(sat64(pt.x - self.x.min), sat64(self.x.max - self.x.min))
                &&& r.y == fx_div_spec(sat64(pt.y - self.y.min), sat64(self.y.max - self.y.min))
            },
    {
        if self.is_none() {
            pt
        } else {
            let w = self.x.size();
            let h = self.y.size();
            if w == 0 || h == 0 {
                pt
            } else {
                let rx = sat_sub(pt.x, self.x.min);
                let ry = sat_sub(pt.y, self.y.min);
                Point { x: fx_div(rx, w), y: fx_div(ry, h) }
            }
        }
    }

    /// Append the four corners of the box to a vector of points, in
    /// anticlockwise order starting at the minimum corner, repeating the
    /// first corner when `close` is set.
    pub fn add_as_points(&self, close: bool, v: Vec<Point>) -> (r: Vec<Point>)
        ensures
            !close ==> r@ == v@ + seq![
                Point { x: self.x.min, y: self.y.min },
                Point { x: self.x.max, y: self.y.min },
                Point { x: self.x.max, y: self.y.max },
                Point { x: self.x.min, y: self.y.max },
            ],
            close ==> r@ == v@ + seq![
                Point { x: self.x.min, y: self.y.min },
                Point { x: self.x.max, y: self.y.min },
                Point { x: self.x.max, y: self.y.max },
                Point { x: self.x.min, y: self.y.max },
                Point { x: self.x.min, y: self.y.min },
            ],
    {
        let ghost v0 = v@;
        let mut v = v;
        v.push(Point::new(self.x.min, self.y.min));
        v.push(Point::new(self.x.max, self.y.min));
        v.push(Point::new(self.x.max, self.y.max));
        v.push(Point::new(self.x.min, self.y.max));
        if close {
            v.push(Point::new(self.x.min, self.y.min));
        }
        proof {
            assert(v@ =~= if close {
                v0 + seq![
                    Point { x: self.x.min, y: self.y.min },
                    Point { x: self.x.max, y: self.y.min },
                    Point { x: self.x.max, y: self.y.max },
                    Point { x: self.x.min, y: self.y.max },
                    Point { x: self.x.min, y: self.y.min },
                ]
            } else {
                v0 + seq![
                    Point { x: self.x.min, y: self.y.min },
                    Point { x: self.x.max, y: self.y.min },
                    Point { x: self.x.max, y: self.y.max },
                    Point { x: self.x.min, y: self.y.max },
                ]
            });
        }
        v
    }

    /// The width and height of the box.
    pub fn get_wh(&self) -> (r: (i64, i64))
        ensures
            r.0 == if self.x.min > self.x.max {
                0int
            } else {
                sat64(self.x.max - self.x.min)
            },
            r.1 == if self.y.min > self.y.max {
                0int
            } else {
                sat64(self.y.max - self.y.min)
            },
    {
        (self.x.size(), self.y.size())
    }

    /// The centre of the box, each coordinate rounded toward minus infinity.
    pub fn center(&self) -> (c: Point)
        ensures
            c.x == (self.x.min + self.x.max) / 2,
            c.y == (self.y.min + self.y.max) / 2,
    {
        Point { x: self.x.center(), y: self.y.center() }
    }

    /// The X range of the box.
    pub fn xrange(&self) -> (r: Range)
        ensures
            r == self.x,
    {
        self.x
    }

    /// The Y range of the box.
    pub fn yrange(&self) -> (r: Range)
        ensures
            r == self.y,
    {
        self.y
    }

    /// The width of the box.
    pub fn width(&self) -> (w: i64)
        ensures
            w == if self.x.min > self.x.max {
                0int
            } else {
                sat64(self.x.max - self.x.min)
            },
    {
        self.x.size()
    }

    /// The height of the box.
    pub fn height(&self) -> (h: i64)
        ensures
            h == if self.y.min > self.y.max {
                0int
            } else {
                sat64(self.y.max - self.y.min)
            },
    {
        self.y.size()
    }

    /// The centre, width and height of the box.
    pub fn get_cwh(&self) -> (r: (Point, i64, i64))
        ensures
            r.0.x == (self.x.min + self.x.max) / 2,
            r.0.y == (self.y.min + self.y.max) / 2,
            r.1 == if self.x.min > self.x.max {
                0int
            } else {
                sat64(self.x.max - self.x.min)
            },
            r.2 == if self.y.min > self.y.max {
                0int
            } else {
                sat64(self.y.max - self.y.min)
            },
    {
        (self.center(), self.width(), self.height())
    }

    /// The minimum corner and the width and height of the box, for a viewport
    /// description.
    pub fn get_bounds(&self) -> (r: (i64, i64, i64, i64))
        ensures
            r.0 == self.x.min,
            r.1 == self.y.min,
            r.2 == if self.x.min > self.x.max {
                0int
            } else {
                sat64(self.x.max - self.x.min)
            },
            r.3 == if self.y.min > self.y.max {
                0int
            } else {
                sat64(self.y.max - self.y.min)
            },
    {
        (self.x.min, self.y.min, self.x.size(), self.y.size())
    }

    /// Enlarge the box by a fixed value on every side; a no-op on an empty
    /// box (one with either axis empty).
    pub fn enlarge(self, value: i64) -> (r: BBox)
        ensures
            bbox_is_none(self) ==> r == self,
            !bbox_is_none(self) ==> r == (BBox {
                x: enlarge_of(self.x, value),
                y: enlarge_of(self.y, value),
            }),
    {
        if self.is_none() {
            self
        } else {
            BBox { x: self.x.enlarge(value), y: self.y.enlarge(value) }
        }
    }

    /// Shrink the box by a fixed value on every side, keeping the same
    /// centre; a no-op on an empty box (one with either axis empty).
    pub fn reduce(self, value: i64) -> (r: BBox)
        ensures
            bbox_is_none(self) ==> r == self,
            !bbox_is_none(self) ==> r == (BBox {
                x: reduce_of(self.x, value),
                y: reduce_of(self.y, value),
            }),
    {
        if self.is_none() {
            self
        } else {
            BBox { x: self.x.reduce(value), y: self.y.reduce(value) }
        }
    }

    /// Adjust each of the four sides outward independently, scaling the four
    /// deltas `[x.min, y.min, x.max, y.max]` by `scale`.
    pub fn expand(self, other: &[i64; 4], scale: i64) -> (r: BBox)
        ensures
            r.x.min == sat64(self.x.min - fx_mul_spec(scale as int, other[0] as int)),
            r.y.min == sat64(self.y.min - fx_mul_spec(scale as int, other[1] as int)),
            r.x.max == sat64(self.x.max + fx_mul_spec(scale as int, other[2] as int)),
            r.y.max == sat64(self.y.max + fx_mul_spec(scale as int, other[3] as int)),
    {
        let x = Range::new(
            sat_sub(self.x.min, fx_mul(scale, other[0])),
            sat_add(self.x.max, fx_mul(scale, other[2])),
        );
        let y = Range::new(
            sat_sub(self.y.min, fx_mul(scale, other[1])),
            sat_add(self.y.max, fx_mul(scale, other[3])),
        );
        BBox { x, y }
    }

    /// Adjust each of the four sides inward independently: `expand` with the
    /// scale negated.
    pub fn shrink(self, other: &[i64; 4], scale: i64) -> (r: BBox)
        requires
            scale > i64::MIN,
        ensures
            r.x.min == sat64(self.x.min - fx_mul_spec(-(scale as int), other[0] as int)),
            r.y.min == sat64(self.y.min - fx_mul_spec(-(scale as int), other[1] as int)),
            r.x.max == sat64(self.x.max + fx_mul_spec(-(scale as int), other[2] as int)),
            r.y.max == sat64(self.y.max + fx_mul_spec(-(scale as int), other[3] as int)),
    {
        self.expand(other, -scale)
    }

    /// The union of this box with another.
    pub fn union(self, other: BBox) -> (r: BBox)
        ensures
            r == bbox_union_of(self, other),
    {
        if other.is_none() {
            self
        } else if self.is_none() {
            other
        } else {
            BBox { x: self.x.union(&other.x), y: self.y.union(&other.y) }
        }
    }

    /// The intersection of this box with another.
    pub fn intersect(self, other: BBox) -> (r: BBox)
        ensures
            r == bbox_intersect_of(self, other),
    {
        if other.is_none() {
            other
        } else if self.is_none() {
            self
        } else {
            BBox { x: self.x.intersect(&other.x), y: self.y.intersect(&other.y) }
        }
    }

    /// Grow the box to hold one more point.
    pub fn extend_to(self, p: Point) -> (r: BBox)
        ensures
            r == bbox_extend_of(self, p),
    {
        BBox { x: self.x.extend_to(p.x), y: self.y.extend_to(p.y) }
    }

    /// Rotate the box around a point by an angle in fixed-point degrees and
    /// return the axis-aligned bounding box of the four rotated corners
    /// (never a rotated rectangle).
    ///
    /// Rotating by a multiple of a full turn gives the box back with the
    /// bounds of each axis normalised into order, and on the other quadrant
    /// boundaries the result is exactly the box of the four rotated
    /// corners; between the quadrants the corners go through the
    /// approximated sine and cosine.
    pub fn new_rotated_around(&self, pt: &Point, degrees: i64) -> (r: BBox)
        ensures
            box_rotation_fits(*self, *pt) && (degrees as int) % 360_000_000int == 0 ==> r
                == BBox::new_spec(self.x.min, self.y.min, self.x.max, self.y.max),
            box_rotation_fits(*self, *pt) && !bbox_is_none(*self) ==> ({
                let dm = (degrees as int) % 360_000_000int;
                let px = pt.x as int;
                let py = pt.y as int;
                let x0 = self.x.min as int;
                let x1 = self.x.max as int;
                let y0 = self.y.min as int;
                let y1 = self.y.max as int;
                &&& dm == 90_000_000 ==> r.x.min == sat64(px + py - y1) && r.x.max == sat64(
                    px + py - y0,
                ) && r.y.min == sat64(py - px + x0) && r.y.max == sat64(py - px + x1)
                &&& dm == 180_000_000 ==> r.x.min == sat64(2 * px - x1) && r.x.max == sat64(
                    2 * px - x0,
                ) && r.y.min == sat64(2 * py - y1) && r.y.max == sat64(2 * py - y0)
                &&& dm == 270_000_000 ==> r.x.min == sat64(px - py + y0) && r.x.max == sat64(
                    px - py + y1,
                ) && r.y.min == sat64(py + px - x1) && r.y.max == sat64(py + px - x0)
            }),
    {
        let p0 = Point::new(self.x.min, self.y.min).rotate_around(pt, degrees);
        let p1 = Point::new(self.x.max, self.y.min).rotate_around(pt, degrees);
        let p2 = Point::new(self.x.min, self.y.max).rotate_around(pt, degrees);
        let p3 = Point::new(self.x.max, self.y.max).rotate_around(pt, degrees);
        let mut x = Range::none();
        let mut y = Range::none();
        x = x.extend_to(p0.x).extend_to(p1.x).extend_to(p2.x).extend_to(p3.x);
        y = y.extend_to(p0.y).extend_to(p1.y).extend_to(p2.y).extend_to(p3.y);
        BBox { x, y }
    }
}

/// Halve a scalar, rounding toward zero.
fn half(v: i64) -> (r: i64)
    ensures
        r == crate::fixed::trunc_div(v as int, 2),
{
    if v >= 0 {
        ((v as u64) / 2) as i64
    } else {
        -((((-(v as i128)) as u128 / 2) as i128) as i64)
    }
}

/// The union of two boxes holds every point of either operand, and a union
/// with an empty box gives the other operand back.
pub proof fn lemma_bbox_union_superset(a: BBox, b: BBox)
    ensures
        forall|px: int, py: int|
            range_contains_box(a, px, py) ==> range_contains_box(bbox_union_of(a, b), px, py),
        forall|px: int, py: int|
            range_contains_box(b, px, py) ==> range_contains_box(bbox_union_of(a, b), px, py),
        bbox_is_none(a) && !bbox_is_none(b) ==> bbox_union_of(a, b) == b,
        bbox_is_none(b) ==> bbox_union_of(a, b) == a,
{
}

/// The intersection of two boxes holds only points both operands hold, and
/// an intersection with an empty box is empty.
pub proof fn lemma_bbox_intersect_subset(a: BBox, b: BBox)
    ensures
        forall|px: int, py: int|
            range_contains_box(bbox_intersect_of(a, b), px, py) ==> range_contains_box(a, px, py)
                && range_contains_box(b, px, py),
        bbox_is_none(a) || bbox_is_none(b) ==> bbox_is_none(bbox_intersect_of(a, b)),
{
}

/// A box holds a point when both coordinates lie within its ranges.
pub open spec fn range_contains_box(b: BBox, px: int, py: int) -> bool {
    !bbox_is_none(b) && b.x.min <= px <= b.x.max && b.y.min <= py <= b.y.max
}

/// Growing a box to hold a point keeps everything it held and holds the
/// new point.
pub proof fn lemma_bbox_extend(b: BBox, p: Point)
    ensures
        range_contains_box(bbox_extend_of(b, p), p.x as int, p.y as int),
        forall|px: int, py: int|
            range_contains_box(b, px, py) ==> range_contains_box(bbox_extend_of(b, p), px, py),
{
}

/// Union with another box keeps everything the first box held.
pub proof fn lemma_bbox_union_keeps(a: BBox, b: BBox)
    ensures
        forall|px: int, py: int|
            range_contains_box(a, px, py) ==> range_contains_box(bbox_union_of(a, b), px, py),
{
}

/// Enlarging a non-empty box and then reducing it by the same amount
/// restores the original box, as long as no bound saturates.
pub proof fn lemma_bbox_enlarge_reduce(a: BBox, v: i64)
    requires
        !bbox_is_none(a),
        crate::range::fits(a.x.min - v),
        crate::range::fits(a.x.max + v),
        crate::range::fits(a.y.min - v),
        crate::range::fits(a.y.max + v),
        a.x.min - v <= a.x.max + v,
        a.y.min - v <= a.y.max + v,
    ensures
        (BBox {
            x: reduce_of(enlarge_of(a.x, v), v),
            y: reduce_of(enlarge_of(a.y, v), v),
        }) == a,
{
    crate::range::lemma_enlarge_reduce(a.x, v);
    crate::range::lemma_enlarge_reduce(a.y, v);
}

} // verus!
