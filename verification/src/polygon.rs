//! A parametric polygon: an n-gon, star, circle or ellipse that generates a
//! curve path on demand.

use vstd::prelude::*;

use crate::bezier_path::BezierPath;
use crate::bezier_path::chained;
use crate::bezier_path::closed_chain;
use crate::bezier_path::lines_of;
use crate::bezier_path::rounding_of;
use crate::point::rotated_exact;
use crate::fixed::FX_ONE;
use crate::fixed::fx_div;
use crate::fixed::fx_div_spec;
use crate::fixed::fx_mul;
use crate::fixed::fx_mul_spec;
use crate::fixed::sat_narrow;
use crate::point::Point;

verus! {

/// The fixed-point square root of two, used to size a rectangle's
/// circumscribing polygon.
pub const FX_SQRT2: i64 = 1_414_214;

/// A polygon descriptor: nominally a regular n-gon, possibly eccentric,
/// stellated or rounded.
///
/// Zero vertices describe an ellipse, one a degenerate empty path, two or
/// more a (rounded, stellated) n-gon.  It owns no child objects: it is a
/// pure generator of a [`BezierPath`].
#[derive(Debug, Clone, Copy, PartialEq, Eq, Structural)]
pub struct Polygon {
    /// Centre of the polygon
    pub center: Point,
    /// Number of vertices; 0 for an ellipse, 1 for an empty path
    pub vertices: usize,
    /// Height (the distance of a vertex from the centre before
    /// eccentricity)
    pub size: i64,
    /// If not zero, an interleaved second radius that doubles the points
    /// and makes a star
    pub stellate_size: i64,
    /// Width over height: the X coordinates are scaled by this factor
    pub eccentricity: i64,
    /// Rotation in fixed-point degrees, applied after the eccentricity
    pub rotation: i64,
    /// Corner rounding radius; zero for sharp corners
    pub rounding: i64,
}

/// The angular step of an n-gon, in fixed-point degrees (truncated).
pub open spec fn angular_step(n: int) -> int {
    360_000_000int / n
}

/// The angle of corner `i`: half a step past the axis, stepping clockwise.
pub open spec fn corner_angle(n: int, i: int) -> int {
    angular_step(n) / 2 - i * angular_step(n)
}

/// The angle of stellation point `i`: on the axis angles themselves.
pub open spec fn stellate_angle(n: int, i: int) -> int {
    -(i * angular_step(n))
}

/// Where the generator puts a corner of radius `radius` at angle `a`:
/// whenever both the corner angle and the polygon's rotation land on
/// angles the trigonometric layer pins exactly, the point is the rotated
/// radius vector, widened by the eccentricity, rotated again and
/// recentred.  (Between those angles the placement goes through the
/// approximated sine and cosine and is left open.)
pub open spec fn placed_corner(poly: Polygon, radius: i64, a: int, p: Point) -> bool {
    let o = Point { x: 0i64, y: 0i64 };
    match rotated_exact(Point { x: radius, y: 0i64 }, o, a as i64) {
        Some(q) => {
            let w = Point {
                x: fx_mul_spec(q.x as int, poly.eccentricity as int) as i64,
                y: q.y,
            };
            match rotated_exact(w, o, poly.rotation) {
                Some(u) => p == u.plus_spec(poly.center),
                None => true,
            }
        },
        None => true,
    }
}

/// The corner points the generator produces for a polygon: one per vertex
/// (two when stellated, the stellation point following its vertex), each
/// placed by [`placed_corner`] at its angle.
pub open spec fn polygon_corners(poly: Polygon, pts: Seq<Point>) -> bool {
    let n = poly.vertices as int;
    &&& (poly.stellate_size == 0 ==> pts.len() == n)
    &&& (poly.stellate_size != 0 ==> pts.len() == 2 * n)
    &&& (poly.stellate_size == 0 ==> forall|j: int| 0 <= j < n ==> placed_corner(
        poly,
        poly.size,
        corner_angle(n, j),
        #[trigger] pts[j],
    ))
    &&& (poly.stellate_size != 0 ==> forall|j: int| 0 <= j < n ==> placed_corner(
        poly,
        poly.size,
        corner_angle(n, j),
        #[trigger] pts[2 * j],
    ))
    &&& (poly.stellate_size != 0 ==> forall|j: int| 0 <= j < n ==> placed_corner(
        poly,
        poly.stellate_size,
        stellate_angle(n, j),
        #[trigger] pts[2 * j + 1],
    ))
}

impl Default for Polygon {
    /// An ellipse of size zero: no vertices, no rotation, no rounding, no
    /// stellation, unit eccentricity.
    fn default() -> (r: Polygon)
        ensures
            r == Polygon::default_spec(),
    {
        Polygon {
            center: Point::new(0, 0),
            vertices: 0,
            rotation: 0,
            rounding: 0,
            size: 0,
            eccentricity: FX_ONE,
            stellate_size: 0,
        }
    }
}

impl Polygon {
    /// The default polygon value.
    pub open spec fn default_spec() -> Polygon {
        Polygon {
            center: Point { x: 0i64, y: 0i64 },
            vertices: 0usize,
            rotation: 0i64,
            rounding: 0i64,
            size: 0i64,
            eccentricity: FX_ONE,
            stellate_size: 0i64,
        }
    }

    /// A polygon with a number of vertices and a stellation size, and
    /// otherwise default parameters.
    pub fn new(vertices: usize, stellate_size: i64) -> (r: Polygon)
        ensures
            r == (Polygon { vertices, stellate_size, ..Polygon::default_spec() }),
    {
        Polygon::default().set_vertices(vertices).set_stellate_size(stellate_size)
    }

    /// A rectangle of the given width and height, with no rotation and no
    /// rounding: a four-gon sized so that its corners land on half the
    /// width and height.
    pub fn new_rect(w: i64, h: i64) -> (r: Polygon)
        requires
            h != 0,
        ensures
            r == (Polygon {
                vertices: 4usize,
                size: fx_div_spec(h as int, FX_SQRT2 as int) as i64,
                eccentricity: fx_div_spec(w as int, h as int) as i64,
                ..Polygon::default_spec()
            }),
    {
        Polygon::default().set_vertices(4).set_size(fx_div(h, FX_SQRT2), fx_div(w, h))
    }

    /// A regular polygon with a number of vertices and a size, rotated and
    /// rounded as given.
    pub fn new_polygon(vertices: usize, size: i64, rotation: i64, rounding: i64) -> (r: Polygon)
        ensures
            r == (Polygon {
                vertices,
                size,
                rotation,
                rounding,
                ..Polygon::default_spec()
            }),
    {
        Polygon::default().set_vertices(vertices).set_size(size, FX_ONE).set_rotation(
            rotation,
        ).set_rounding(rounding)
    }

    /// A star with a number of points: a polygon stellated at `in_out`
    /// times its size.
    pub fn new_star(vertices: usize, size: i64, in_out: i64, rotation: i64, rounding: i64) -> (r:
        Polygon)
        ensures
            r == (Polygon {
                vertices,
                size,
                rotation,
                rounding,
                stellate_size: fx_mul_spec(size as int, in_out as int) as i64,
                ..Polygon::default_spec()
            }),
    {
        Polygon::default().set_vertices(vertices).set_size(size, FX_ONE).set_rotation(
            rotation,
        ).set_rounding(rounding).set_stellate_size(fx_mul(size, in_out))
    }

    /// A circle of the given radius.
    pub fn new_circle(r: i64) -> (p: Polygon)
        ensures
            p == (Polygon { size: r, ..Polygon::default_spec() }),
    {
        Polygon::default().set_vertices(0).set_size(r, FX_ONE)
    }

    /// An ellipse with the two radii, at a rotation.
    pub fn new_ellipse(rx: i64, ry: i64, rotation: i64) -> (r: Polygon)
        requires
            ry != 0,
        ensures
            r == (Polygon {
                size: ry,
                eccentricity: fx_div_spec(rx as int, ry as int) as i64,
                rotation,
                ..Polygon::default_spec()
            }),
    {
        Polygon::default().set_vertices(0).set_rotation(rotation).set_size(ry, fx_div(rx, ry))
    }

    /// Set the number of vertices (zero makes it an ellipse).
    pub fn set_vertices(self, vertices: usize) -> (r: Polygon)
        ensures
            r == (Polygon { vertices, ..self }),
    {
        Polygon { vertices, ..self }
    }

    /// Set the size and the eccentricity (effectively height and
    /// width-over-height).
    pub fn set_size(self, size: i64, eccentricity: i64) -> (r: Polygon)
        ensures
            r == (Polygon { size, eccentricity, ..self }),
    {
        Polygon { size, eccentricity, ..self }
    }

    /// Set the corner rounding radius.
    pub fn set_rounding(self, rounding: i64) -> (r: Polygon)
        ensures
            r == (Polygon { rounding, ..self }),
    {
        Polygon { rounding, ..self }
    }

    /// Set the rotation.
    pub fn set_rotation(self, rotation: i64) -> (r: Polygon)
        ensures
            r == (Polygon { rotation, ..self }),
    {
        Polygon { rotation, ..self }
    }

    /// The polygon moved by an offset (saturating).
    pub fn translated(self, dxy: Point) -> (r: Polygon)
        ensures
            r == (Polygon { center: self.center.plus_spec(dxy), ..self }),
    {
        let center = self.center.plus(dxy);
        proof {
            assert(center == self.center.plus_spec(dxy));
        }
        Polygon { center, ..self }
    }

    /// Set the stellation radius (meaningless for an ellipse).
    pub fn set_stellate_size(self, stellate_size: i64) -> (r: Polygon)
        ensures
            r == (Polygon { stellate_size, ..self }),
    {
        Polygon { stellate_size, ..self }
    }

    /// Generate the polygon as a path of curve segments: four arcs for an
    /// ellipse, nothing for one vertex, and otherwise the rounded polygon
    /// of the corner points.  The result chains and closes.
    pub fn as_paths(&self) -> (r: BezierPath)
        requires
            self.vertices == 0 ==> 0 <= self.size && -360_000_000 <= self.rotation
                <= i64::MAX - 360_000_000 && self.eccentricity > i64::MIN,
            self.vertices >= 2 ==> 0 <= self.rounding,
        ensures
            chained(r.elements@),
            closed_chain(r.elements@),
            self.vertices == 0 ==> r.elements@.len() == 4,
            self.vertices == 1 ==> r.elements@.len() == 0,
            self.vertices >= 2 && self.stellate_size == 0 ==> r.elements@.len()
                >= self.vertices,
            self.vertices >= 2 && self.stellate_size != 0 ==> r.elements@.len() >= 2
                * self.vertices,
            self.vertices >= 2 && self.stellate_size == 0 && self.rounding == 0
                ==> r.elements@.len() == self.vertices,
            self.vertices >= 2 && self.stellate_size != 0 && self.rounding == 0
                ==> r.elements@.len() == 2 * self.vertices,
            self.vertices == 0 && (self.rotation as int) % 360_000_000int == 0
                ==> r.elements@ == crate::bezier_path::ellipse_arcs(
                self.size,
                self.eccentricity,
            ),
            self.vertices >= 2 && self.rounding == 0 ==> exists|pts: Seq<Point>|
                #[trigger] polygon_corners(*self, pts) && r.elements@ == lines_of(pts),
            self.vertices >= 2 && self.rounding > 0 ==> exists|pts: Seq<Point>|
                #[trigger] polygon_corners(*self, pts) && rounding_of(
                    lines_of(pts),
                    r.elements@,
                    true,
                    self.rounding,
                ),
    {
        if self.vertices == 0 {
            BezierPath::of_ellipse(Point::zero(), self.size, self.eccentricity, self.rotation)
        } else if self.vertices == 1 {
            BezierPath::new()
        } else {
            let corners = self.get_points();
            let r = BezierPath::of_points(&corners, self.rounding);
            proof {
                if self.rounding == 0 {
                    assert(polygon_corners(*self, corners@) && r.elements@ == lines_of(
                        corners@,
                    ));
                } else {
                    assert(polygon_corners(*self, corners@) && rounding_of(
                        lines_of(corners@),
                        r.elements@,
                        true,
                        self.rounding,
                    ));
                }
            }
            r
        }
    }

    /// The corner points of the polygon, in anticlockwise order: each
    /// vertex sits half an angular step past the axis, scaled by the size,
    /// widened by the eccentricity, rotated and recentred; a stellated
    /// polygon interleaves a second point per edge on the axis angles at
    /// the stellation radius.
    #[verifier::rlimit(100)]
    fn get_points(&self) -> (v: Vec<Point>)
        requires
            self.vertices >= 2,
        ensures
            self.stellate_size == 0 ==> v@.len() == self.vertices,
            self.stellate_size != 0 ==> v@.len() == 2 * self.vertices,
            polygon_corners(*self, v@),
    {
        let origin = Point::zero();
        let mut corners: Vec<Point> = Vec::new();
        let n = self.vertices;
        let delta: i64 = (360_000_000u64 / (n as u64)) as i64;
        let mut i: usize = 0;
        while i < n
            invariant
                i <= n,
                self.vertices == n,
                2 <= n,
                delta == 360_000_000int / (n as int),
                origin == (Point { x: 0i64, y: 0i64 }),
                self.stellate_size == 0 ==> corners@.len() == i,
                self.stellate_size != 0 ==> corners@.len() == 2 * i,
                self.stellate_size == 0 ==> forall|j: int| 0 <= j < i ==> placed_corner(
                    *self,
                    self.size,
                    corner_angle(n as int, j),
                    #[trigger] corners@[j],
                ),
                self.stellate_size != 0 ==> forall|j: int| 0 <= j < i ==> placed_corner(
                    *self,
                    self.size,
                    corner_angle(n as int, j),
                    #[trigger] corners@[2 * j],
                ),
                self.stellate_size != 0 ==> forall|j: int| 0 <= j < i ==> placed_corner(
                    *self,
                    self.stellate_size,
                    stellate_angle(n as int, j),
                    #[trigger] corners@[2 * j + 1],
                ),
            decreases n - i,
        {
            proof {
                lemma_step_product(i as int, delta as int);
                lemma_angle_range(i as int, n as int);
            }
            let angle = sat_narrow(
                ((delta as u64 / 2) as i128) - (i as i128) * (delta as i128),
            );
            proof {
                assert(angle == corner_angle(n as int, i as int) as i64);
            }
            let p1 = Point::new(self.size, 0).rotate_around(&origin, angle);
            let pw = Point::new(fx_mul(p1.x, self.eccentricity), p1.y);
            let p2 = pw.rotate_around(&origin, self.rotation);
            let p = p2.plus(self.center);
            proof {
                let o = Point { x: 0i64, y: 0i64 };
                let av = corner_angle(n as int, i as int);
                assert(origin == o);
                assert(angle == av as i64);
                let e1 = rotated_exact(Point { x: self.size, y: 0i64 }, o, av as i64);
                if e1 is Some {
                    let q = e1->0;
                    assert(p1 == q);
                    assert(pw == (Point {
                        x: fx_mul_spec(q.x as int, self.eccentricity as int) as i64,
                        y: q.y,
                    }));
                    let e2 = rotated_exact(pw, o, self.rotation);
                    if e2 is Some {
                        assert(p2 == e2->0);
                        assert(p == (e2->0).plus_spec(self.center));
                    }
                }
                assert(placed_corner(*self, self.size, av, p));
            }
            corners.push(p);
            if self.stellate_size != 0 {
                let angle = sat_narrow(-((i as i128) * (delta as i128)));
                proof {
                    assert(angle == stellate_angle(n as int, i as int) as i64);
                }
                let p1 = Point::new(self.stellate_size, 0).rotate_around(&origin, angle);
                let pw = Point::new(fx_mul(p1.x, self.eccentricity), p1.y);
                let p2 = pw.rotate_around(&origin, self.rotation);
                let p = p2.plus(self.center);
                proof {
                    let o = Point { x: 0i64, y: 0i64 };
                    let av = stellate_angle(n as int, i as int);
                    let e1 = rotated_exact(
                        Point { x: self.stellate_size, y: 0i64 },
                        o,
                        av as i64,
                    );
                    if e1 is Some {
                        let q = e1->0;
                        assert(p1 == q);
                        assert(pw == (Point {
                            x: fx_mul_spec(q.x as int, self.eccentricity as int) as i64,
                            y: q.y,
                        }));
                        let e2 = rotated_exact(pw, o, self.rotation);
                        if e2 is Some {
                            assert(p2 == e2->0);
                            assert(p == (e2->0).plus_spec(self.center));
                        }
                    }
                    assert(placed_corner(*self, self.stellate_size, av, p));
                }
                corners.push(p);
            }
            i = i + 1;
        }
        corners
    }
}

/// A vertex index times the angular step stays within one full turn.
proof fn lemma_angle_range(i: int, n: int)
    requires
        0 <= i < n,
        2 <= n,
    ensures
        0 <= i * (360_000_000int / n) <= 360_000_000,
{
    let d = 360_000_000int / n;
    vstd::arithmetic::div_mod::lemma_div_pos_is_pos(360_000_000int, n);
    vstd::arithmetic::div_mod::lemma_fundamental_div_mod(360_000_000int, n);
    vstd::arithmetic::div_mod::lemma_mod_bound(360_000_000int, n);
    assert(n * d <= 360_000_000);
    assert(0 <= i * d <= (n - 1) * d) by (nonlinear_arith)
        requires
            0 <= i <= n - 1,
            d >= 0,
    ;
    assert((n - 1) * d <= n * d) by (nonlinear_arith)
        requires
            d >= 0,
    ;
}

/// The product of a vertex index and the angular step stays far inside the
/// `i128` range.
proof fn lemma_step_product(i: int, delta: int)
    requires
        0 <= i < 0x1_0000_0000_0000_0000,
        0 <= delta <= 360_000_000,
    ensures
        0 <= i * delta <= 0x1_0000_0000_0000_0000 * 360_000_000,
{
    assert(0 <= i * delta <= 0x1_0000_0000_0000_0000 * 360_000_000) by (nonlinear_arith)
        requires
            0 <= i < 0x1_0000_0000_0000_0000,
            0 <= delta <= 360_000_000,
    ;
}

} // verus!
