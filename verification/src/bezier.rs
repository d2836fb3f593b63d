//! A single curve segment: a linear, quadratic or cubic Bezier.
//!
//! This is the curve primitive under the path layer: line and arc
//! construction, rounded-corner construction, tangents, approximate arc
//! length and subdivision, all in fixed-point coordinates.

use vstd::arithmetic::div_mod::lemma_div_is_ordered;
use vstd::arithmetic::div_mod::lemma_div_multiples_vanish;
use vstd::arithmetic::div_mod::lemma_div_pos_is_pos;
use vstd::prelude::*;

use crate::fixed::FX_ONE;
use crate::fixed::avg2;
use crate::fixed::avg4_121;
use crate::fixed::avg8_1331;
use crate::fixed::fx_div;
use crate::fixed::fx_div_spec;
use crate::fixed::fx_mul;
use crate::fixed::fx_mul_spec;
use crate::fixed::fx_sqrt;
use crate::fixed::lemma_fx_mul_unit;
use crate::fixed::sat_add;
use crate::fixed::sat_sub;
use crate::point::Point;

verus! {

/// How deep the bisection of a curve may recurse when approximating arc
/// length or sampling points.
const SUBDIVISION_DEPTH: u32 = 16;

/// A Bezier curve segment of degree one, two or three.
#[derive(Debug, Clone, Copy, PartialEq, Eq, Structural)]
pub enum Bezier {
    /// A straight line between two points.
    Linear {
        /// Start point
        p0: Point,
        /// End point
        p1: Point,
    },
    /// A quadratic curve with one control point.
    Quadratic {
        /// Start point
        p0: Point,
        /// Control point
        c: Point,
        /// End point
        p1: Point,
    },
    /// A cubic curve with two control points.
    Cubic {
        /// Start point
        p0: Point,
        /// First control point
        c0: Point,
        /// Second control point
        c1: Point,
        /// End point
        p1: Point,
    },
}

/// Two segments of the same degree.
pub open spec fn same_kind(a: Bezier, b: Bezier) -> bool {
    match a {
        Bezier::Linear { .. } => b matches Bezier::Linear { .. },
        Bezier::Quadratic { .. } => b matches Bezier::Quadratic { .. },
        Bezier::Cubic { .. } => b matches Bezier::Cubic { .. },
    }
}

/// The bracket the fixed-point chord length of a straight segment
/// satisfies: the value whose square brackets the squared chord length in
/// the millionths encoding.
pub open spec fn line_length_bracket(b: Bezier, l: int) -> bool {
    match b {
        Bezier::Linear { p0, p1 } => {
            let dx = crate::fixed::sat64(p0.x - p1.x);
            let dy = crate::fixed::sat64(p0.y - p1.y);
            let q = crate::fixed::sat64(fx_mul_spec(dx, dx) + fx_mul_spec(dy, dy));
            &&& l >= 0
            &&& l * l <= q * (FX_ONE as int) < (l + 1) * (l + 1)
        },
        _ => false,
    }
}

/// The fixed-point length of a straight segment: the unique value its
/// bracket admits.
pub open spec fn line_length_of(b: Bezier) -> int {
    choose|l: int| line_length_bracket(b, l)
}

/// The bracket pins the length: any bracketed value is the length.
pub proof fn lemma_line_length_unique(b: Bezier, l: int)
    requires
        line_length_bracket(b, l),
    ensures
        line_length_of(b) == l,
{
    let c = choose|l2: int| line_length_bracket(b, l2);
    assert(line_length_bracket(b, c));
    if c < l {
        assert(false) by (nonlinear_arith)
            requires
                c >= 0,
                l >= 0,
                c < l,
                l * l <= (c + 1) * (c + 1) - 1,
        ;
    } else if l < c {
        assert(false) by (nonlinear_arith)
            requires
                c >= 0,
                l >= 0,
                l < c,
                c * c <= (l + 1) * (l + 1) - 1,
        ;
    }
}

/// The start point of a segment.
pub open spec fn start_of(b: Bezier) -> Point {
    match b {
        Bezier::Linear { p0, .. } => p0,
        Bezier::Quadratic { p0, .. } => p0,
        Bezier::Cubic { p0, .. } => p0,
    }
}

/// The end point of a segment.
pub open spec fn end_of(b: Bezier) -> Point {
    match b {
        Bezier::Linear { p1, .. } => p1,
        Bezier::Quadratic { p1, .. } => p1,
        Bezier::Cubic { p1, .. } => p1,
    }
}

impl Bezier {
    /// A straight line between two points.
    pub fn line(p0: &Point, p1: &Point) -> (r: Bezier)
        ensures
            r == (Bezier::Linear { p0: *p0, p1: *p1 }),
    {
        Bezier::Linear { p0: *p0, p1: *p1 }
    }

    /// A quadratic Bezier with one absolute control point.
    pub fn quadratic(p0: &Point, c: &Point, p1: &Point) -> (r: Bezier)
        ensures
            r == (Bezier::Quadratic { p0: *p0, c: *c, p1: *p1 }),
    {
        Bezier::Quadratic { p0: *p0, c: *c, p1: *p1 }
    }

    /// A cubic Bezier with two absolute control points.
    pub fn cubic(p0: &Point, c0: &Point, c1: &Point, p1: &Point) -> (r: Bezier)
        ensures
            r == (Bezier::Cubic { p0: *p0, c0: *c0, c1: *c1, p1: *p1 }),
    {
        Bezier::Cubic { p0: *p0, c0: *c0, c1: *c1, p1: *p1 }
    }

    /// The degree of the segment: one for a line, two for a quadratic,
    /// three for a cubic.
    pub fn degree(&self) -> (d: usize)
        ensures
            d == match *self {
                Bezier::Linear { .. } => 1int,
                Bezier::Quadratic { .. } => 2int,
                Bezier::Cubic { .. } => 3int,
            },
    {
        match self {
            Bezier::Linear { .. } => 1,
            Bezier::Quadratic { .. } => 2,
            Bezier::Cubic { .. } => 3,
        }
    }

    /// Whether the segment is a straight line.
    pub fn is_line(&self) -> (b: bool)
        ensures
            b == (*self matches Bezier::Linear { .. }),
    {
        matches!(self, Bezier::Linear { .. })
    }

    /// Whether the segment is a quadratic curve.
    pub fn is_quadratic(&self) -> (b: bool)
        ensures
            b == (*self matches Bezier::Quadratic { .. }),
    {
        matches!(self, Bezier::Quadratic { .. })
    }

    /// Whether the segment is a cubic curve.
    pub fn is_cubic(&self) -> (b: bool)
        ensures
            b == (*self matches Bezier::Cubic { .. }),
    {
        matches!(self, Bezier::Cubic { .. })
    }

    /// Borrow a defining point of the segment: index 0 is the start point,
    /// 1 the end point, 2 the first control point, 3 the second control
    /// point of a cubic.
    pub fn borrow_pt(&self, index: usize) -> (r: Point)
        requires
            index <= 1 || (index == 2 && !(*self matches Bezier::Linear { .. })) || (index == 3
                && *self matches Bezier::Cubic { .. }),
        ensures
            index == 0 ==> r == start_of(*self),
            index == 1 ==> r == end_of(*self),
            index == 2 ==> r == match *self {
                Bezier::Linear { p0, .. } => p0,
                Bezier::Quadratic { c, .. } => c,
                Bezier::Cubic { c0, .. } => c0,
            },
            index == 3 ==> r == match *self {
                Bezier::Linear { p0, .. } => p0,
                Bezier::Quadratic { p0, .. } => p0,
                Bezier::Cubic { c1, .. } => c1,
            },
    {
        match self {
            Bezier::Linear { p0, p1 } => {
                if index == 0 {
                    *p0
                } else if index == 1 {
                    *p1
                } else {
                    *p0
                }
            },
            Bezier::Quadratic { p0, c, p1 } => {
                if index == 0 {
                    *p0
                } else if index == 1 {
                    *p1
                } else if index == 2 {
                    *c
                } else {
                    *p0
                }
            },
            Bezier::Cubic { p0, c0, c1, p1 } => {
                if index == 0 {
                    *p0
                } else if index == 1 {
                    *p1
                } else if index == 2 {
                    *c0
                } else {
                    *c1
                }
            },
        }
    }

    /// The point at parameter `t` (a fixed-point fraction) along the
    /// segment; exact at the endpoints.
    pub fn point_at(&self, t: i64) -> (r: Point)
        requires
            0 <= t <= FX_ONE,
        ensures
            t == 0 ==> r == start_of(*self),
            t == FX_ONE ==> r == end_of(*self),
    {
        let u = FX_ONE - t;
        proof {
            lemma_fx_mul_unit(FX_ONE);
            lemma_fx_mul_unit(0);
        }
        match self {
            Bezier::Linear { p0, p1 } => {
                combo2(*p0, u, *p1, t)
            },
            Bezier::Quadratic { p0, c, p1 } => {
                proof {
                    lemma_fx_frac_mul(u, t as int);
                }
                let w0 = fx_mul(u, u);
                let wc = 2 * fx_mul(u, t);
                let w1 = fx_mul(t, t);
                combo3(*p0, w0, *c, wc, *p1, w1)
            },
            Bezier::Cubic { p0, c0, c1, p1 } => {
                let u2 = fx_mul(u, u);
                let t2 = fx_mul(t, t);
                proof {
                    lemma_fx_frac_mul(u, u as int);
                    lemma_fx_frac_mul(u, t as int);
                }
                let ut = fx_mul(u, t);
                proof {
                    lemma_fx_frac_mul(u2, t as int);
                    lemma_fx_frac_mul(ut, t as int);
                }
                let w0 = fx_mul(u2, u);
                let wc0 = 3 * fx_mul(u2, t);
                let wc1 = 3 * fx_mul(ut, t);
                let w1 = fx_mul(t2, t);
                combo4(*p0, w0, *c0, wc0, *c1, wc1, *p1, w1)
            },
        }
    }

    /// A tangent direction at parameter `t` along the segment (a scaled
    /// derivative, not a unit vector); exact at the endpoints, where it
    /// points from the neighbouring control point through the endpoint.
    pub fn tangent_at(&self, t: i64) -> (r: Point)
        requires
            0 <= t <= FX_ONE,
        ensures
            *self matches Bezier::Linear { p0, p1 } ==> r == p1.minus_spec(p0),
            *self matches Bezier::Quadratic { p0, c, p1 } ==> {
                &&& t == 0 && p0.x > i64::MIN && p0.y > i64::MIN ==> r == c.minus_spec(p0)
                &&& t == FX_ONE && c.x > i64::MIN && c.y > i64::MIN ==> r == p1.minus_spec(c)
            },
            *self matches Bezier::Cubic { p0, c0, c1, p1 } ==> {
                &&& t == 0 && p0.x > i64::MIN && p0.y > i64::MIN ==> r == c0.minus_spec(p0)
                &&& t == FX_ONE && c1.x > i64::MIN && c1.y > i64::MIN ==> r == p1.minus_spec(c1)
            },
    {
        proof {
            lemma_fx_mul_unit(FX_ONE);
            lemma_fx_mul_unit(0);
        }
        match self {
            Bezier::Linear { p0, p1 } => p1.minus(*p0),
            Bezier::Quadratic { p0, c, p1 } => {
                // coefficients: d/dt of (1-t)^2, 2t(1-t), t^2, all halved
                let w0 = sat_sub(t, FX_ONE);
                let wc = sat_sub(FX_ONE, 2 * t);
                let w1 = t;
                combo3(*p0, w0, *c, wc, *p1, w1)
            },
            Bezier::Cubic { p0, c0, c1, p1 } => {
                // coefficients: d/dt of (1-t)^3, 3t(1-t)^2, 3t^2(1-t), t^3,
                // all divided by three
                let t2 = fx_mul(t, t);
                proof {
                    lemma_fx_frac_mul(t, t as int);
                }
                let w0 = sat_sub(sat_sub(2 * t, t2), FX_ONE);
                let wc0 = sat_add(sat_sub(3 * t2, 4 * t), FX_ONE);
                let wc1 = sat_sub(2 * t, 3 * t2);
                let w1 = t2;
                combo4(*p0, w0, *c0, wc0, *c1, wc1, *p1, w1)
            },
        }
    }

    /// The distance between the two endpoints (not the arc length).
    pub fn get_distance(&self) -> (d: i64)
        ensures
            d >= 0,
            ({
                let dx = crate::fixed::sat64(start_of(*self).x - end_of(*self).x);
                let dy = crate::fixed::sat64(start_of(*self).y - end_of(*self).y);
                let q = crate::fixed::sat64(fx_mul_spec(dx, dx) + fx_mul_spec(dy, dy));
                d * d <= q * (FX_ONE as int) < (d + 1) * (d + 1)
            }),
            *self matches Bezier::Linear { .. } ==> d == line_length_of(*self),
    {
        let d = distance(self.start(), self.end());
        proof {
            if *self is Linear {
                lemma_line_length_unique(*self, d as int);
            }
        }
        d
    }

    /// The start point of the segment.
    pub fn start(&self) -> (p: Point)
        ensures
            p == start_of(*self),
    {
        match self {
            Bezier::Linear { p0, .. } => *p0,
            Bezier::Quadratic { p0, .. } => *p0,
            Bezier::Cubic { p0, .. } => *p0,
        }
    }

    /// The end point of the segment.
    pub fn end(&self) -> (p: Point)
        ensures
            p == end_of(*self),
    {
        match self {
            Bezier::Linear { p1, .. } => *p1,
            Bezier::Quadratic { p1, .. } => *p1,
            Bezier::Cubic { p1, .. } => *p1,
        }
    }

    /// Split the segment at its midpoint into two halves of the same
    /// degree, which chain: the first half starts where this segment
    /// starts, the halves meet, and the second half ends where this
    /// segment ends.
    pub fn bisect(&self) -> (r: (Bezier, Bezier))
        ensures
            start_of(r.0) == start_of(*self),
            end_of(r.1) == end_of(*self),
            end_of(r.0) == start_of(r.1),
    {
        match self {
            Bezier::Linear { p0, p1 } => {
                let pm = midpoint(*p0, *p1);
                (Bezier::line(p0, &pm), Bezier::line(&pm, p1))
            },
            Bezier::Quadratic { p0, c, p1 } => {
                let c0 = midpoint(*p0, *c);
                let c1 = midpoint(*c, *p1);
                let pm = midpoint(c0, c1);
                (Bezier::quadratic(p0, &c0, &pm), Bezier::quadratic(&pm, &c1, p1))
            },
            Bezier::Cubic { p0, c0, c1, p1 } => {
                let pm = Point::new(
                    avg8_1331(p0.x, c0.x, c1.x, p1.x),
                    avg8_1331(p0.y, c0.y, c1.y, p1.y),
                );
                let l0 = midpoint(*p0, *c0);
                let l1 = Point::new(avg4_121(p0.x, c0.x, c1.x), avg4_121(p0.y, c0.y, c1.y));
                let r0 = Point::new(avg4_121(c0.x, c1.x, p1.x), avg4_121(c0.y, c1.y, p1.y));
                let r1 = midpoint(*c1, *p1);
                (Bezier::cubic(p0, &l0, &l1, &pm), Bezier::cubic(&pm, &r0, &r1, p1))
            },
        }
    }

    /// The part of the segment between parameters `t0` and `t1`, as a
    /// segment of the same degree; keeping an endpoint parameter keeps that
    /// endpoint exactly.
    pub fn bezier_between(&self, t0: i64, t1: i64) -> (r: Bezier)
        requires
            0 <= t0 <= t1 <= FX_ONE,
        ensures
            t0 == 0 ==> start_of(r) == start_of(*self),
            t1 == FX_ONE ==> end_of(r) == end_of(*self),
            same_kind(r, *self),
    {
        match self {
            Bezier::Linear { p0, p1 } => {
                let r0 = self.point_at(t0);
                let r1 = self.point_at(t1);
                Bezier::line(&r0, &r1)
            },
            Bezier::Quadratic { p0, c, p1 } => {
                let u0 = FX_ONE - t0;
                let u1 = FX_ONE - t1;
                let rp0 = self.point_at(t0);
                let rp1 = self.point_at(t1);
                let w0 = fx_mul(u0, u1);
                let wc = sat_add(fx_mul(u0, t1), fx_mul(u1, t0));
                let w1 = fx_mul(t1, t0);
                let rc = combo3(*p0, w0, *c, wc, *p1, w1);
                Bezier::quadratic(&rp0, &rc, &rp1)
            },
            Bezier::Cubic { .. } => {
                let rp0 = self.point_at(t0);
                let rp1 = self.point_at(t1);
                let rt0 = self.tangent_at(t0);
                let rt1 = self.tangent_at(t1);
                let dt = sat_sub(t1, t0);
                let rc0 = rp0.plus(rt0.scaled(dt));
                let rc1 = rp1.minus(rt1.scaled(dt));
                Bezier::cubic(&rp0, &rc0, &rc1, &rp1)
            },
        }
    }

    /// Whether the segment deviates from its chord by no more than the
    /// given fraction of the chord's extent.
    ///
    /// The deviation of each control point is measured against the linear
    /// interpolation of the endpoints, in the maximum norm; a line is
    /// always straight.
    pub fn is_straight(&self, straightness: i64) -> (b: bool)
        requires
            straightness >= 0,
        ensures
            *self matches Bezier::Linear { .. } ==> b,
    {
        match self {
            Bezier::Linear { .. } => true,
            Bezier::Quadratic { p0, c, p1 } => {
                let mid = midpoint(*p0, *p1);
                let span = chebyshev(*p0, *p1);
                let dev = chebyshev(*c, mid);
                dev <= fx_mul(straightness, span)
            },
            Bezier::Cubic { p0, c0, c1, p1 } => {
                let span = chebyshev(*p0, *p1);
                let bound = fx_mul(straightness, span);
                let m0 = Point::new(
                    avg4_121(p0.x, p0.x, p1.x),
                    avg4_121(p0.y, p0.y, p1.y),
                );
                let m1 = Point::new(
                    avg4_121(p1.x, p1.x, p0.x),
                    avg4_121(p1.y, p1.y, p0.y),
                );
                let dev0 = chebyshev(*c0, m0);
                let dev1 = chebyshev(*c1, m1);
                dev0 <= bound && dev1 <= bound
            },
        }
    }

    /// The approximate arc length of the segment, rendered down to the
    /// given straightness by bisection.
    pub fn length(&self, straightness: i64) -> (l: i64)
        requires
            straightness >= 0,
        ensures
            l >= 0,
            *self matches Bezier::Linear { p0, p1 } ==> {
                let dx = crate::fixed::sat64(p0.x - p1.x);
                let dy = crate::fixed::sat64(p0.y - p1.y);
                let q = crate::fixed::sat64(fx_mul_spec(dx, dx) + fx_mul_spec(dy, dy));
                l * l <= q * (FX_ONE as int) < (l + 1) * (l + 1)
            },
            *self matches Bezier::Linear { .. } ==> l == line_length_of(*self),
    {
        let l = self.length_rec(straightness, SUBDIVISION_DEPTH);
        proof {
            if *self is Linear {
                lemma_line_length_unique(*self, l as int);
            }
        }
        l
    }

    /// Arc length by bisection with a depth bound.
    fn length_rec(&self, straightness: i64, depth: u32) -> (l: i64)
        requires
            straightness >= 0,
        ensures
            l >= 0,
            *self matches Bezier::Linear { p0, p1 } ==> {
                let dx = crate::fixed::sat64(p0.x - p1.x);
                let dy = crate::fixed::sat64(p0.y - p1.y);
                let q = crate::fixed::sat64(fx_mul_spec(dx, dx) + fx_mul_spec(dy, dy));
                l * l <= q * (FX_ONE as int) < (l + 1) * (l + 1)
            },
        decreases depth,
    {
        if depth == 0 || self.is_straight(straightness) {
            self.get_distance()
        } else {
            let (b0, b1) = self.bisect();
            let l0 = b0.length_rec(straightness, depth - 1);
            let l1 = b1.length_rec(straightness, depth - 1);
            let l = sat_add(l0, l1);
            if l < 0 {
                0
            } else {
                l
            }
        }
    }

    /// The parameter at a given distance along the segment.
    ///
    /// Returns `(t, true)` when the distance lies along the segment,
    /// `(0, false)` when it is negative, and `(1, false)` when it is beyond
    /// the end.
    pub fn t_of_distance(&self, straightness: i64, distance: i64) -> (r: (i64, bool))
        requires
            straightness >= 0,
        ensures
            0 <= r.0 <= FX_ONE,
            distance < 0 ==> r == (0i64, false),
            distance == 0 ==> r == (0i64, true),
            *self matches Bezier::Linear { .. } && r.0 == FX_ONE ==> line_length_of(*self)
                <= distance,
            *self matches Bezier::Linear { .. } && r.0 == 0 ==> distance <= 0 || distance * (
            FX_ONE as int) < line_length_of(*self),
    {
        if distance < 0 {
            (0, false)
        } else {
            let (t_opt, _) = self.t_of_distance_rec(
                straightness,
                distance,
                0,
                FX_ONE,
                0,
                SUBDIVISION_DEPTH,
            );
            match t_opt {
                None => (FX_ONE, false),
                Some(t) => (t, true),
            }
        }
    }

    /// Walk the curve left to right accumulating approximate length until
    /// the requested distance is reached, returning the parameter there.
    fn t_of_distance_rec(
        &self,
        straightness: i64,
        distance: i64,
        t_start: i64,
        t_scale: i64,
        acc_length: i64,
        depth: u32,
    ) -> (r: (Option<i64>, i64))
        requires
            straightness >= 0,
            0 <= t_start,
            0 <= t_scale,
            t_start + t_scale <= FX_ONE,
            acc_length >= 0,
        ensures
            r.1 >= 0,
            r.0 matches Some(t) ==> t_start <= t <= t_start + t_scale,
            distance <= acc_length ==> r.0 == Some(t_start),
            *self matches Bezier::Linear { .. } && t_start == 0 && t_scale == FX_ONE
                && acc_length == 0 ==> {
                &&& (r.0 matches Some(t) ==> (t == FX_ONE ==> line_length_of(*self)
                    <= distance))
                &&& (r.0 matches Some(t) ==> (t == 0 ==> distance <= 0 || distance * (
                FX_ONE as int) < line_length_of(*self)))
                &&& (r.0 is None ==> line_length_of(*self) <= distance)
            },
        decreases depth,
    {
        if distance <= acc_length {
            (Some(t_start), 0)
        } else if depth == 0 || self.is_straight(straightness) {
            let d = self.get_distance();
            let here = sat_add(acc_length, d);
            if distance > here {
                (None, here)
            } else if d == 0 {
                (Some(sat_add(t_start, t_scale)), here)
            } else {
                let rel_d = sat_sub(distance, acc_length);
                let rel_d = if rel_d > d {
                    d
                } else {
                    rel_d
                };
                let frac = fx_div(rel_d, d);
                proof {
                    lemma_fx_frac(rel_d, d, t_scale);
                    if *self is Linear && t_start == 0 && t_scale == FX_ONE && acc_length
                        == 0 {
                        crate::fixed::lemma_fx_mul_unit(frac);
                        let one = FX_ONE as int;
                        let x = (rel_d as int) * one;
                        let q = crate::fixed::trunc_div(x, d as int);
                        vstd::arithmetic::div_mod::lemma_fundamental_div_mod(x, d as int);
                        lemma_div_pos_is_pos(x, d as int);
                        vstd::arithmetic::div_mod::lemma_mod_bound(x, d as int);
                        assert(rel_d == distance);
                        assert(d == line_length_of(*self));
                        assert(0 <= x);
                        assert(q == x / (d as int));
                        assert(x == (d as int) * q + x % (d as int));
                        assert(0 <= x % (d as int) < (d as int));
                        assert(frac as int == crate::fixed::sat64(q));
                        assert(q >= 0);
                        assert(frac == FX_ONE ==> q == one);
                        assert(q == one ==> x >= (d as int) * one);
                        assert(q == one ==> (distance as int) * one >= (d as int) * one);
                        assert(q == one ==> distance >= d);
                        assert(frac == 0 ==> q == 0);
                        assert(q == 0 ==> (d as int) * q == 0) by (nonlinear_arith);
                        assert(q == 0 ==> x < (d as int));
                    }
                }
                let t = sat_add(t_start, fx_mul(t_scale, frac));
                (Some(t), here)
            }
        } else {
            let t_subscale = half_nonneg(t_scale);
            let (b0, b1) = self.bisect();
            let (t_opt, len) = b0.t_of_distance_rec(
                straightness,
                distance,
                t_start,
                t_subscale,
                acc_length,
                depth - 1,
            );
            match t_opt {
                None => {
                    b1.t_of_distance_rec(
                        straightness,
                        distance,
                        sat_add(t_start, t_subscale),
                        t_subscale,
                        len,
                        depth - 1,
                    )
                },
                Some(t) => (Some(t), len),
            }
        }
    }

    /// The points of the segment rendered down to the given straightness:
    /// the start point, the interior subdivision points, and the end point.
    pub fn as_points(&self, straightness: i64) -> (v: Vec<Point>)
        requires
            straightness >= 0,
        ensures
            v@.len() >= 2,
            v@[0] == start_of(*self),
            v@.last() == end_of(*self),
    {
        let mut v: Vec<Point> = Vec::new();
        v.push(self.start());
        self.push_points(straightness, SUBDIVISION_DEPTH, &mut v);
        v
    }

    /// Append the interior points and the end point of the segment.
    fn push_points(&self, straightness: i64, depth: u32, v: &mut Vec<Point>)
        requires
            straightness >= 0,
        ensures
            final(v)@.len() > old(v)@.len(),
            forall|i: int| 0 <= i < old(v)@.len() ==> final(v)@[i] == old(v)@[i],
            final(v)@.last() == end_of(*self),
        decreases depth,
    {
        if depth == 0 || self.is_straight(straightness) {
            v.push(self.end());
        } else {
            let (b0, b1) = self.bisect();
            b0.push_points(straightness, depth - 1, v);
            b1.push_points(straightness, depth - 1, v);
        }
    }
}

impl Bezier {
    /// A cubic approximation of a circular arc of the given angle and
    /// radius around a centre, swept between the two planar direction
    /// vectors, starting at `rotate` degrees from the first.
    ///
    /// When `rotate` is a multiple of a full turn the start point is
    /// exactly the centre moved by `radius` along `unit`; when additionally
    /// the angle is a quarter turn, the end point is exactly the centre
    /// moved by `radius` along `normal`.
    pub fn arc(angle: i64, radius: i64, center: &Point, unit: &Point, normal: &Point, rotate:
        i64) -> (r: Bezier)
        requires
            0 <= angle,
            0 <= radius,
            rotate + angle <= i64::MAX,
        ensures
            r matches Bezier::Cubic { .. },
            (rotate as int) % 360_000_000int == 0 ==> {
                &&& start_of(r).x == crate::fixed::sat64(
                    center.x + fx_mul_spec(unit.x as int, radius as int),
                )
                &&& start_of(r).y == crate::fixed::sat64(
                    center.y + fx_mul_spec(unit.y as int, radius as int),
                )
            },
            (rotate as int) % 360_000_000int == 0 && angle == 90_000_000 ==> {
                &&& end_of(r).x == crate::fixed::sat64(
                    center.x + fx_mul_spec(normal.x as int, radius as int),
                )
                &&& end_of(r).y == crate::fixed::sat64(
                    center.y + fx_mul_spec(normal.y as int, radius as int),
                )
            },
            r matches Bezier::Cubic { p0, c0, c1, p1 } ==> ((rotate as int) % 360_000_000int
                == 0 && angle == 90_000_000 ==> {
                let lam = fx_mul_spec(radius as int, lambda_spec(707_107, FX_ONE));
                &&& c0.x == crate::fixed::sat64(p0.x + fx_mul_spec(normal.x as int, lam))
                &&& c0.y == crate::fixed::sat64(p0.y + fx_mul_spec(normal.y as int, lam))
                &&& c1.x == crate::fixed::sat64(p1.x + fx_mul_spec(unit.x as int, lam))
                &&& c1.y == crate::fixed::sat64(p1.y + fx_mul_spec(unit.y as int, lam))
            }),
    {
        let half_angle = half_nonneg(angle);
        let (s, _) = crate::trig::sin_cos_fx(half_angle);
        let s = if s < 0 {
            0
        } else {
            s
        };
        proof {
            if angle == 90_000_000 {
                assert((45_000_000int) % 360_000_000int == 45_000_000int);
                assert(s == 707_107);
            }
        }
        let lam = fx_mul(radius, lambda_of_k_d(s, FX_ONE));
        let (d0s, d0c) = crate::trig::sin_cos_fx(rotate);
        let (d1s, d1c) = crate::trig::sin_cos_fx(rotate + angle);
        proof {
            lemma_fx_mul_unit(radius);
            lemma_fx_mul_unit(lam);
        }
        let p0 = center.plus(unit.scaled(fx_mul(d0c, radius))).plus(
            normal.scaled(fx_mul(d0s, radius)),
        );
        let p1 = center.plus(unit.scaled(fx_mul(d1c, radius))).plus(
            normal.scaled(fx_mul(d1s, radius)),
        );
        let c0 = p0.minus(unit.scaled(fx_mul(d0s, lam))).plus(normal.scaled(fx_mul(d0c, lam)));
        let c1 = p1.plus(unit.scaled(fx_mul(d1s, lam))).minus(normal.scaled(fx_mul(d1c, lam)));
        Bezier::cubic(&p0, &c0, &c1, &p1)
    }

    /// A circular-arc rounding curve focused on a corner point, between two
    /// unit-ish direction vectors pointing *into* the corner, with the given
    /// radius.
    ///
    /// The curve starts and ends on the two directions at the trim distance
    /// from the corner; when the directions are (anti)parallel it
    /// degenerates to a quadratic through the corner itself.
    pub fn of_round_corner(corner: &Point, v0: &Point, v1: &Point, radius: i64) -> (r: Bezier)
        requires
            radius >= 0,
        ensures
            !(r matches Bezier::Linear { .. }),
            exact_axis_direction(*v0) && exact_axis_direction(*v1) && ((v0.y == 0) != (v1.y
                == 0)) && radius <= 2_000_000_000_000 && (radius * radius) % (
            crate::fixed::FX_ONE as int) == 0 ==> {
                &&& start_of(r) == corner.minus_spec(axis_scaled(*v0, radius))
                &&& end_of(r) == corner.minus_spec(axis_scaled(*v1, radius))
            },
    {
        proof {
            lemma_fx_mul_unit(radius);
            if exact_axis_direction(*v0) && exact_axis_direction(*v1) && ((v0.y == 0) != (
            v1.y == 0)) && radius <= 2_000_000_000_000 && (radius * radius) % (
            crate::fixed::FX_ONE as int) == 0 {
                crate::fixed::lemma_fx_square_exact(radius);
                crate::fixed::lemma_fx_div_one(
                    crate::fixed::sat64(
                        fx_mul_spec(radius as int, radius as int) + fx_mul_spec(
                            radius as int,
                            radius as int,
                        ),
                    ) as i64,
                );
            }
        }
        let v0n = normalize(*v0);
        let v1n = normalize(*v1);
        let cos_alpha = sat_add(fx_mul(v0n.x, v1n.x), fx_mul(v0n.y, v1n.y));
        if cos_alpha >= 999_999 || cos_alpha <= -999_999 {
            // the two directions are (anti)parallel
            let p0 = corner.minus(v0n.scaled(radius));
            let p1 = corner.minus(v1n.scaled(radius));
            Bezier::quadratic(&p0, corner, &p1)
        } else {
            let r2 = fx_mul(radius, radius);
            proof {
                lemma_fx_square_nonneg(radius);
            }
            let denom = sat_sub(FX_ONE, cos_alpha);
            let d2 = fx_div(sat_add(r2, r2), denom);
            let k2 = sat_sub(d2, r2);
            let k2 = if k2 < 0 {
                0
            } else {
                k2
            };
            let d2 = if d2 < 0 {
                0
            } else {
                d2
            };
            let d = fx_sqrt(d2);
            let k = fx_sqrt(k2);
            let lam = if d == 0 {
                0
            } else {
                fx_mul(radius, lambda_of_k_d(k, d))
            };
            proof {
                if exact_axis_direction(*v0) && exact_axis_direction(*v1) && ((v0.y == 0) != (
                v1.y == 0)) && radius <= 2_000_000_000_000 && (radius * radius) % (
                crate::fixed::FX_ONE as int) == 0 {
                    crate::fixed::lemma_sqrt_bracket(k as int, radius as int);
                }
            }
            let p0 = corner.minus(v0n.scaled(k));
            let p1 = corner.minus(v1n.scaled(k));
            let c0 = p0.plus(v0n.scaled(lam));
            let c1 = p1.plus(v1n.scaled(lam));
            Bezier::cubic(&p0, &c0, &c1, &p1)
        }
    }
}

/// The control-point offset factor for a circular arc, as a quintic in
/// `(k/d)^2`: the ratio between the offset of a control point along its
/// tangent and the arc's radius, clamped into `[0, 1.3]`.
pub open spec fn lambda_spec(k: i64, d: i64) -> int
    recommends
        d != 0,
{
    let kd = fx_div_spec(k as int, d as int);
    let x = fx_mul_spec(kd, kd);
    let a1 = crate::fixed::sat64(fx_mul_spec(13_779_430, x) - 32_845_223);
    let a2 = crate::fixed::sat64(fx_mul_spec(a1, x) + 28_975_369);
    let a3 = crate::fixed::sat64(fx_mul_spec(a2, x) - 11_486_743);
    let a4 = crate::fixed::sat64(fx_mul_spec(a3, x) + 2_795_054);
    let a5 = crate::fixed::sat64(fx_mul_spec(a4, x) + 31_603);
    if a5 < 0 {
        0
    } else if a5 > 1_300_000 {
        1_300_000
    } else {
        a5
    }
}

/// The control-point offset factor for a circular arc, as a quintic in
/// `(k/d)^2`: the ratio between the offset of a control point along its
/// tangent and the arc's radius.
fn lambda_of_k_d(k: i64, d: i64) -> (r: i64)
    requires
        0 <= k,
        0 < d,
    ensures
        0 <= r <= 1_300_000,
        r == lambda_spec(k, d),
{
    let kd = fx_div(k, d);
    let x = fx_mul(kd, kd);
    let mut acc: i64 = 13_779_430;
    acc = sat_add(fx_mul(acc, x), -32_845_223);
    acc = sat_add(fx_mul(acc, x), 28_975_369);
    acc = sat_add(fx_mul(acc, x), -11_486_743);
    acc = sat_add(fx_mul(acc, x), 2_795_054);
    acc = sat_add(fx_mul(acc, x), 31_603);
    if acc < 0 {
        0
    } else if acc > 1_300_000 {
        1_300_000
    } else {
        acc
    }
}

/// A vector along one axis whose length is exactly representable in the
/// fixed-point encoding, so normalising it is exact.
pub open spec fn exact_axis_direction(v: Point) -> bool {
    ||| (v.y == 0 && v.x != 0 && -3_000_000_000_000 <= v.x <= 3_000_000_000_000 && (v.x
        * v.x) % (FX_ONE as int) == 0)
    ||| (v.x == 0 && v.y != 0 && -3_000_000_000_000 <= v.y <= 3_000_000_000_000 && (v.y
        * v.y) % (FX_ONE as int) == 0)
}

/// A non-negative length laid along the direction of an axis vector.
pub open spec fn axis_scaled(v: Point, k: i64) -> Point
    recommends
        k >= 0,
{
    if v.y == 0 {
        Point {
            x: (if v.x > 0 {
                k as int
            } else {
                -(k as int)
            }) as i64,
            y: 0i64,
        }
    } else {
        Point {
            x: 0i64,
            y: (if v.y > 0 {
                k as int
            } else {
                -(k as int)
            }) as i64,
        }
    }
}

/// Scale a vector to (fixed-point) unit length; the zero vector and exact
/// axis vectors come back unchanged in direction, the axis ones exactly.
pub fn normalize(v: Point) -> (r: Point)
    ensures
        ({
            let exact = (v.x * v.x) % (FX_ONE as int) == 0 && (v.y * v.y) % (FX_ONE as int)
                == 0;
            &&& v.y == 0 && 0 < v.x <= 3_000_000_000_000 && exact ==> r == (Point {
                x: FX_ONE,
                y: 0i64,
            })
            &&& v.y == 0 && -3_000_000_000_000 <= v.x < 0 && exact ==> r == (Point {
                x: (-1_000_000i64),
                y: 0i64,
            })
            &&& v.x == 0 && 0 < v.y <= 3_000_000_000_000 && exact ==> r == (Point {
                x: 0i64,
                y: FX_ONE,
            })
            &&& v.x == 0 && -3_000_000_000_000 <= v.y < 0 && exact ==> r == (Point {
                x: 0i64,
                y: (-1_000_000i64),
            })
        }),
{
    let n = distance(v, Point::zero());
    proof {
        lemma_normalize_axis(v, n as int);
    }
    if n == 0 {
        v
    } else {
        Point::new(fx_div(v.x, n), fx_div(v.y, n))
    }
}

/// On an exactly-representable axis vector, the computed length is the
/// vector's magnitude and the normalised coordinates are exactly one unit.
proof fn lemma_normalize_axis(v: Point, n: int)
    requires
        n >= 0,
        ({
            let qx = fx_mul_spec(v.x as int, v.x as int);
            let qy = fx_mul_spec(v.y as int, v.y as int);
            let q = crate::fixed::sat64(qx + qy);
            n * n <= q * (FX_ONE as int) < (n + 1) * (n + 1)
        }),
    ensures
        ({
            let a = if v.x != 0 {
                v.x as int
            } else {
                v.y as int
            };
            let m = if a >= 0 {
                a
            } else {
                -a
            };
            (v.x == 0 || v.y == 0) && m != 0 && m <= 3_000_000_000_000 && (a * a) % (
            FX_ONE as int) == 0 ==> {
                &&& n == m
                &&& fx_div_spec(a, n) == if a >= 0 {
                    FX_ONE as int
                } else {
                    -(FX_ONE as int)
                }
                &&& fx_div_spec(0, n) == 0
            }
        }),
{
    let one = FX_ONE as int;
    let a = if v.x != 0 {
        v.x as int
    } else {
        v.y as int
    };
    let m = if a >= 0 {
        a
    } else {
        -a
    };
    if (v.x == 0 || v.y == 0) && m != 0 && m <= 3_000_000_000_000 && (a * a) % one == 0 {
        assert(a * a == m * m) by (nonlinear_arith)
            requires
                m == if a >= 0 { a } else { -a },
        ;
        assert(0 < m * m <= 9_000_000_000_000_000_000_000_000) by (nonlinear_arith)
            requires
                0 < m <= 3_000_000_000_000,
        ;
        lemma_div_pos_is_pos(m * m, one);
        lemma_div_is_ordered(m * m, 9_000_000_000_000_000_000_000_000, one);
        assert(fx_mul_spec(a, a) == m * m / one);
        assert(fx_mul_spec(0, 0) == 0);
        let q = crate::fixed::sat64(fx_mul_spec(v.x as int, v.x as int) + fx_mul_spec(
            v.y as int,
            v.y as int,
        ));
        assert(q == m * m / one);
        vstd::arithmetic::div_mod::lemma_fundamental_div_mod(m * m, one);
        assert(q * one == m * m);
        crate::fixed::lemma_sqrt_bracket(n, m);
        assert(m * one == one * m) by (nonlinear_arith);
        lemma_div_multiples_vanish(one, m);
        if a < 0 {
            assert((-a) * one == m * one) by (nonlinear_arith)
                requires
                    m == -a,
            ;
        }
    }
}

/// Halve a non-negative scalar, rounding down.
fn half_nonneg(v: i64) -> (r: i64)
    requires
        v >= 0,
    ensures
        0 <= r,
        2 * r <= v,
        r == v as int / 2,
{
    ((v as u64) / 2) as i64
}

/// The midpoint of two points, each coordinate rounded toward minus
/// infinity.
pub fn midpoint(a: Point, b: Point) -> (r: Point)
    ensures
        r.x == (a.x + b.x) / 2,
        r.y == (a.y + b.y) / 2,
{
    Point::new(avg2(a.x, b.x), avg2(a.y, b.y))
}

/// The Chebyshev (maximum-coordinate) distance between two points.
fn chebyshev(a: Point, b: Point) -> (r: i64)
    ensures
        r >= 0,
{
    let dx = abs_diff(a.x, b.x);
    let dy = abs_diff(a.y, b.y);
    if dx > dy {
        dx
    } else {
        dy
    }
}

/// The absolute difference of two scalars, saturating at `i64::MAX`.
fn abs_diff(a: i64, b: i64) -> (r: i64)
    ensures
        r >= 0,
{
    if a >= b {
        sat_sub(a, b)
    } else {
        sat_sub(b, a)
    }
}

/// The Euclidean distance between two points (in the truncating
/// fixed-point arithmetic).
pub fn distance(a: Point, b: Point) -> (r: i64)
    ensures
        r >= 0,
        ({
            let dx = crate::fixed::sat64(a.x - b.x);
            let dy = crate::fixed::sat64(a.y - b.y);
            let q = crate::fixed::sat64(fx_mul_spec(dx, dx) + fx_mul_spec(dy, dy));
            r * r <= q * (FX_ONE as int) < (r + 1) * (r + 1)
        }),
{
    let dx = sat_sub(a.x, b.x);
    let dy = sat_sub(a.y, b.y);
    let qx = fx_mul(dx, dx);
    let qy = fx_mul(dy, dy);
    proof {
        lemma_fx_square_nonneg(dx);
        lemma_fx_square_nonneg(dy);
    }
    fx_sqrt(sat_add(qx, qy))
}

/// The fixed-point square of a scalar is never negative.
proof fn lemma_fx_square_nonneg(v: i64)
    ensures
        fx_mul_spec(v as int, v as int) >= 0,
{
    assert((v as int) * (v as int) >= 0) by (nonlinear_arith);
    if (v as int) * (v as int) > 0 {
        lemma_div_pos_is_pos((v as int) * (v as int), FX_ONE as int);
    }
}

/// A fixed-point fraction of a non-negative scalar stays between zero and
/// the scalar, and the fixed-point ratio of a part to a whole stays between
/// zero and one.
proof fn lemma_fx_frac(rel: i64, d: i64, scale: i64)
    requires
        0 <= rel <= d,
        0 < d,
        0 <= scale,
    ensures
        0 <= fx_div_spec(rel as int, d as int) <= FX_ONE,
        0 <= fx_mul_spec(scale as int, fx_div_spec(rel as int, d as int)) <= scale,
{
    let one = FX_ONE as int;
    lemma_div_pos_is_pos(rel * one, d as int);
    lemma_div_is_ordered(rel * one, (d as int) * one, d as int);
    assert(rel * one <= (d as int) * one) by (nonlinear_arith)
        requires
            0 <= rel <= d,
            one > 0,
    ;
    assert((d as int) * one == one * (d as int)) by (nonlinear_arith);
    lemma_div_multiples_vanish(one, d as int);
    let f = fx_div_spec(rel as int, d as int);
    lemma_fx_frac_mul(scale, f);
}

/// Multiplying a non-negative scalar by a fraction in `[0, 1]` stays
/// between zero and the scalar.
proof fn lemma_fx_frac_mul(scale: i64, f: int)
    requires
        0 <= scale,
        0 <= f <= FX_ONE,
    ensures
        0 <= fx_mul_spec(scale as int, f) <= scale,
{
    let one = FX_ONE as int;
    assert(0 <= (scale as int) * f <= (scale as int) * one) by (nonlinear_arith)
        requires
            0 <= scale,
            0 <= f <= one,
    ;
    lemma_div_pos_is_pos((scale as int) * f, one);
    lemma_div_is_ordered((scale as int) * f, (scale as int) * one, one);
    lemma_div_multiples_vanish(scale as int, one);
    assert((scale as int) * one == one * (scale as int)) by (nonlinear_arith);
}

/// The weighted combination of two points with fixed-point weights.
fn combo2(a: Point, wa: i64, b: Point, wb: i64) -> (r: Point)
    ensures
        wa == FX_ONE && wb == 0 ==> r == a,
        wa == 0 && wb == FX_ONE ==> r == b,
        r.x == crate::fixed::sat64(fx_mul_spec(wa as int, a.x as int) + fx_mul_spec(
            wb as int,
            b.x as int,
        )),
        r.y == crate::fixed::sat64(fx_mul_spec(wa as int, a.y as int) + fx_mul_spec(
            wb as int,
            b.y as int,
        )),
{
    proof {
        lemma_fx_mul_unit(a.x);
        lemma_fx_mul_unit(a.y);
        lemma_fx_mul_unit(b.x);
        lemma_fx_mul_unit(b.y);
    }
    Point::new(
        sat_add(fx_mul(wa, a.x), fx_mul(wb, b.x)),
        sat_add(fx_mul(wa, a.y), fx_mul(wb, b.y)),
    )
}

/// The weighted combination of three points with fixed-point weights.
fn combo3(a: Point, wa: i64, b: Point, wb: i64, c: Point, wc: i64) -> (r: Point)
    ensures
        wa == FX_ONE && wb == 0 && wc == 0 ==> r == a,
        wa == 0 && wb == 0 && wc == FX_ONE ==> r == c,
        wa == 0 && wb == FX_ONE && wc == 0 ==> r == b,
        wa == -FX_ONE && wb == FX_ONE && wc == 0 && a.x > i64::MIN && a.y > i64::MIN ==> r
            == b.minus_spec(a),
        wa == 0 && wb == -FX_ONE && wc == FX_ONE && b.x > i64::MIN && b.y > i64::MIN ==> r
            == c.minus_spec(b),
{
    proof {
        lemma_fx_mul_unit(a.x);
        lemma_fx_mul_unit(a.y);
        lemma_fx_mul_unit(b.x);
        lemma_fx_mul_unit(b.y);
        lemma_fx_mul_unit(c.x);
        lemma_fx_mul_unit(c.y);
    }
    Point::new(
        sat_add(sat_add(fx_mul(wa, a.x), fx_mul(wb, b.x)), fx_mul(wc, c.x)),
        sat_add(sat_add(fx_mul(wa, a.y), fx_mul(wb, b.y)), fx_mul(wc, c.y)),
    )
}

/// The weighted combination of four points with fixed-point weights.
fn combo4(a: Point, wa: i64, b: Point, wb: i64, c: Point, wc: i64, d: Point, wd: i64) -> (r:
    Point)
    ensures
        wa == FX_ONE && wb == 0 && wc == 0 && wd == 0 ==> r == a,
        wa == 0 && wb == 0 && wc == 0 && wd == FX_ONE ==> r == d,
        wa == -FX_ONE && wb == FX_ONE && wc == 0 && wd == 0 && a.x > i64::MIN && a.y > i64::MIN
            ==> r == b.minus_spec(a),
        wa == 0 && wb == 0 && wc == -FX_ONE && wd == FX_ONE && c.x > i64::MIN && c.y > i64::MIN
            ==> r == d.minus_spec(c),
{
    proof {
        lemma_fx_mul_unit(a.x);
        lemma_fx_mul_unit(a.y);
        lemma_fx_mul_unit(b.x);
        lemma_fx_mul_unit(b.y);
        lemma_fx_mul_unit(c.x);
        lemma_fx_mul_unit(c.y);
        lemma_fx_mul_unit(d.x);
        lemma_fx_mul_unit(d.y);
    }
    Point::new(
        sat_add(
            sat_add(sat_add(fx_mul(wa, a.x), fx_mul(wb, b.x)), fx_mul(wc, c.x)),
            fx_mul(wd, d.x),
        ),
        sat_add(
            sat_add(sat_add(fx_mul(wa, a.y), fx_mul(wb, b.y)), fx_mul(wc, c.y)),
            fx_mul(wd, d.y),
        ),
    )
}

} // verus!
