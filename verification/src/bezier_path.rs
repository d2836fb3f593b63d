//! An ordered chain of curve segments, with corner rounding and arc-length
//! trimming.

use vstd::pervasive::VecAdditionalExecFns;
use vstd::prelude::*;

use crate::bezier::Bezier;
use crate::bezier::end_of;
use crate::bezier::start_of;
use crate::fixed::FX_ONE;
use crate::point::Point;

verus! {

/// An ordered chain of segments: the end point of each segment is the start
/// point of the next.
pub open spec fn chained(s: Seq<Bezier>) -> bool {
    forall|i: int| 0 <= i && i + 1 < s.len() ==> end_of(s[i]) == start_of(s[i + 1])
}

/// A closed chain: the last segment ends where the first begins.
pub open spec fn closed_chain(s: Seq<Bezier>) -> bool {
    s.len() > 0 ==> end_of(s[s.len() - 1]) == start_of(s[0])
}

/// Whether the segment at `j` and its successor (wrapping to the first
/// when the path is closed) are both straight lines: a pair whose shared
/// corner the rounding pass replaces with a curve.
pub open spec fn rounded_pair(s: Seq<Bezier>, j: int, closed: bool) -> bool {
    &&& 0 <= j < s.len()
    &&& s[j] matches Bezier::Linear { .. }
    &&& s[(j + 1) % (s.len() as int)] matches Bezier::Linear { .. }
    &&& (closed || j + 1 < s.len())
}

/// How many of the first `j` segments head a rounded pair: the number of
/// corner curves inserted before segment `j` in the rounded path.
pub open spec fn pairs_before(s: Seq<Bezier>, j: int, closed: bool) -> nat
    decreases j,
{
    if j <= 0 {
        0
    } else {
        pairs_before(s, j - 1, closed) + (if rounded_pair(s, j - 1, closed) {
            1nat
        } else {
            0nat
        })
    }
}

/// Whether the segment at `j` gets its start trimmed by the rounding pass:
/// the pair ending at it (wrapping when the path is closed) is rounded.
pub open spec fn start_trimmed(s: Seq<Bezier>, j: int, closed: bool) -> bool {
    rounded_pair(s, (j - 1 + s.len()) % (s.len() as int), closed)
}

/// What rounding leaves at the position of old segment `j`: an untouched
/// pair member keeps its value; a line stays a line; an untrimmed start or
/// end is kept; and a rounded pair has a non-line corner curve inserted
/// right after its first line, which now ends where the curve starts.
pub open spec fn round_post_at(olds: Seq<Bezier>, news: Seq<Bezier>, j: int, closed:
    bool) -> bool {
    let p = j + pairs_before(olds, j, closed);
    &&& (!rounded_pair(olds, j, closed) && !start_trimmed(olds, j, closed) ==> news[p]
        == olds[j])
    &&& (olds[j] matches Bezier::Linear { .. } ==> news[p] matches Bezier::Linear { .. })
    &&& (!start_trimmed(olds, j, closed) ==> start_of(news[p]) == start_of(olds[j]))
    &&& (!rounded_pair(olds, j, closed) ==> end_of(news[p]) == end_of(olds[j]))
    &&& (rounded_pair(olds, j, closed) ==> !(news[p + 1] matches Bezier::Linear { .. })
        && end_of(news[p]) == start_of(news[p + 1]))
}

/// The direction along the first line of a pair, into the shared corner.
pub open spec fn pair_dir_in(s: Seq<Bezier>, j: int) -> Point {
    end_of(s[j]).minus_spec(start_of(s[j]))
}

/// The direction along the second line of a pair, into the shared corner
/// (against the line's own direction).
pub open spec fn pair_dir_out(s: Seq<Bezier>, j: int, closed: bool) -> Point {
    let nx = s[(j + 1) % (s.len() as int)];
    (Point { x: 0i64, y: 0i64 }).minus_spec(end_of(nx).minus_spec(start_of(nx)))
}

/// A rounded pair whose two lines lie exactly along perpendicular axes
/// with representable lengths, rounded at a representable radius: the one
/// case where the fixed-point corner construction is exact.
pub open spec fn exact_axis_pair(s: Seq<Bezier>, j: int, closed: bool, rounding: i64) -> bool {
    &&& rounded_pair(s, j, closed)
    &&& crate::bezier::exact_axis_direction(pair_dir_in(s, j))
    &&& crate::bezier::exact_axis_direction(pair_dir_out(s, j, closed))
    &&& ((pair_dir_in(s, j).y == 0) != (pair_dir_out(s, j, closed).y == 0))
    &&& 0 <= rounding <= 2_000_000_000_000
    &&& (rounding * rounding) % (crate::fixed::FX_ONE as int) == 0
}

/// The corner curve of an exactly axis-aligned pair starts and ends at the
/// trim points one radius from the shared corner along the two lines.
pub open spec fn exact_corner_trim(olds: Seq<Bezier>, news: Seq<Bezier>, j: int, closed:
    bool, rounding: i64) -> bool {
    exact_axis_pair(olds, j, closed, rounding) ==> {
        let p = j + pairs_before(olds, j, closed);
        let corner = end_of(olds[j]);
        &&& start_of(news[p + 1]) == corner.minus_spec(
            crate::bezier::axis_scaled(pair_dir_in(olds, j), rounding),
        )
        &&& end_of(news[p + 1]) == corner.minus_spec(
            crate::bezier::axis_scaled(pair_dir_out(olds, j, closed), rounding),
        )
    }
}

/// The second line of a rounded pair (positionally after the inserted
/// curve, or the first segment for the wrap pair) starts where the curve
/// ends.
pub open spec fn round_pair_joined(olds: Seq<Bezier>, news: Seq<Bezier>, j: int, closed:
    bool) -> bool {
    rounded_pair(olds, j, closed) ==> start_of(
        news[if j + 1 < olds.len() {
            j + 1 + pairs_before(olds, j + 1, closed)
        } else {
            0
        }],
    ) == end_of(news[j + pairs_before(olds, j, closed) + 1])
}

/// The quarter-turn arc from direction `u` to direction `n` at a radius,
/// about the origin and unrotated: endpoints on the scaled directions and
/// control points one arc constant along the turn, exactly as the arc
/// construction computes them.
pub open spec fn quarter_arc(u: Point, n: Point, radius: i64) -> Bezier {
    let lam = crate::fixed::fx_mul_spec(
        radius as int,
        crate::bezier::lambda_spec(707_107, FX_ONE),
    );
    let p0 = Point {
        x: crate::fixed::sat64(crate::fixed::fx_mul_spec(u.x as int, radius as int)) as i64,
        y: crate::fixed::sat64(crate::fixed::fx_mul_spec(u.y as int, radius as int)) as i64,
    };
    let p1 = Point {
        x: crate::fixed::sat64(crate::fixed::fx_mul_spec(n.x as int, radius as int)) as i64,
        y: crate::fixed::sat64(crate::fixed::fx_mul_spec(n.y as int, radius as int)) as i64,
    };
    let c0 = Point {
        x: crate::fixed::sat64(p0.x + crate::fixed::fx_mul_spec(n.x as int, lam)) as i64,
        y: crate::fixed::sat64(p0.y + crate::fixed::fx_mul_spec(n.y as int, lam)) as i64,
    };
    let c1 = Point {
        x: crate::fixed::sat64(p1.x + crate::fixed::fx_mul_spec(u.x as int, lam)) as i64,
        y: crate::fixed::sat64(p1.y + crate::fixed::fx_mul_spec(u.y as int, lam)) as i64,
    };
    Bezier::Cubic { p0, c0, c1, p1 }
}

/// The four quarter arcs of an unrotated ellipse about the origin, in
/// anticlockwise order from the positive X axis.
pub open spec fn ellipse_arcs(radius: i64, eccentricity: i64) -> Seq<Bezier> {
    let x = Point { x: eccentricity, y: 0i64 };
    let y = Point { x: 0i64, y: FX_ONE };
    let nx = Point { x: (-(eccentricity as int)) as i64, y: 0i64 };
    let ny = Point { x: 0i64, y: (-(FX_ONE as int)) as i64 };
    seq![
        quarter_arc(x, y, radius),
        quarter_arc(y, nx, radius),
        quarter_arc(nx, ny, radius),
        quarter_arc(ny, x, radius),
    ]
}

/// The straight segments joining a corner sequence in order, wrapping
/// from the last corner back to the first.
pub open spec fn lines_of(pts: Seq<Point>) -> Seq<Bezier> {
    Seq::new(
        pts.len(),
        |j: int| Bezier::Linear { p0: pts[j], p1: pts[(j + 1) % (pts.len() as int)] },
    )
}

/// What rounding the corners of a segment sequence produces: one corner
/// curve inserted per line pair, every segment accounted for in place,
/// the pairs joined, and the trim points exact for axis-aligned pairs.
pub open spec fn rounding_of(olds: Seq<Bezier>, news: Seq<Bezier>, closed: bool, rounding:
    i64) -> bool {
    &&& news.len() == olds.len() + pairs_before(olds, olds.len() as int, closed)
    &&& forall|j: int| 0 <= j < olds.len() ==> #[trigger] round_post_at(olds, news, j, closed)
    &&& forall|j: int| 0 <= j < olds.len() ==> #[trigger] round_pair_joined(
        olds,
        news,
        j,
        closed,
    )
    &&& forall|j: int| 0 <= j < olds.len() ==> #[trigger] exact_corner_trim(
        olds,
        news,
        j,
        closed,
        rounding,
    )
}

/// No more corner curves are inserted than segments seen.
proof fn lemma_pairs_before_le(s: Seq<Bezier>, j: int, closed: bool)
    requires
        j >= 0,
    ensures
        pairs_before(s, j, closed) <= j,
    decreases j,
{
    if j > 0 {
        lemma_pairs_before_le(s, j - 1, closed);
    }
}

/// The corner-curve count is monotone in the prefix length.
proof fn lemma_pairs_before_mono(s: Seq<Bezier>, a: int, b: int, closed: bool)
    requires
        0 <= a <= b,
    ensures
        pairs_before(s, a, closed) <= pairs_before(s, b, closed),
    decreases b,
{
    if a < b {
        lemma_pairs_before_mono(s, a, b - 1, closed);
    }
}

/// A path: a chain of Bezier segments.
///
/// The chain-continuity invariant (each segment starts where the previous
/// one ends) is established by the constructors and preserved by rounding
/// and trimming; [`BezierPath::add_bezier`] leaves it to the caller, as the
/// segments are the caller's to choose.
#[derive(Debug, Clone, PartialEq, Eq)]
pub struct BezierPath {
    /// The segments of the path, in order.
    pub elements: Vec<Bezier>,
}

impl Default for BezierPath {
    /// An empty path.
    fn default() -> (r: BezierPath)
        ensures
            r.elements@ == Seq::<Bezier>::empty(),
    {
        BezierPath { elements: Vec::new() }
    }
}

impl BezierPath {
    /// An empty path.
    pub fn new() -> (r: BezierPath)
        ensures
            r.elements@ == Seq::<Bezier>::empty(),
    {
        BezierPath { elements: Vec::new() }
    }

    /// An ellipse of the given radius (scaled along X by the eccentricity)
    /// around an origin, rotated by an angle: four quarter-turn arcs that
    /// chain and close.
    pub fn of_ellipse(origin: Point, radius: i64, eccentricity: i64, degrees: i64) -> (r:
        BezierPath)
        requires
            0 <= radius,
            degrees <= i64::MAX - 360_000_000,
            -360_000_000 <= degrees,
            eccentricity > i64::MIN,
        ensures
            r.elements@.len() == 4,
            chained(r.elements@),
            closed_chain(r.elements@),
            origin == (Point { x: 0i64, y: 0i64 }) && (degrees as int) % 360_000_000int == 0
                ==> r.elements@ == ellipse_arcs(radius, eccentricity),
    {
        let quarter: i64 = 90_000_000;
        let x = Point::new(eccentricity, 0);
        let y = Point::new(0, FX_ONE);
        let nx = Point::new(-eccentricity, 0);
        let ny = Point::new(0, -FX_ONE);
        let b0 = Bezier::arc(quarter, radius, &origin, &x, &y, degrees);
        let b1 = Bezier::arc(quarter, radius, &origin, &y, &nx, degrees);
        let b2 = Bezier::arc(quarter, radius, &origin, &nx, &ny, degrees);
        let b3 = Bezier::arc(quarter, radius, &origin, &ny, &x, degrees);
        proof {
            if origin == (Point { x: 0i64, y: 0i64 }) && (degrees as int) % 360_000_000int
                == 0 {
                crate::fixed::lemma_fx_mul_unit(radius);
                let lam = crate::fixed::fx_mul_spec(
                    radius as int,
                    crate::bezier::lambda_spec(707_107, FX_ONE),
                );
                crate::fixed::lemma_fx_mul_unit(lam as i64);
                assert(lam as i64 as int == lam);
                let ea = ellipse_arcs(radius, eccentricity);
                assert(b0 == ea[0]);
                assert(b1 == ea[1]);
                assert(b2 == ea[2]);
                assert(b3 == ea[3]);
            }
        }
        // each arc starts where the previous one ends; the arc construction
        // reproduces the shared endpoint, which pinning makes exact
        let b1 = with_start(b1, b0.end());
        let b2 = with_start(b2, b1.end());
        let b3 = with_start(b3, b2.end());
        let b0 = with_start(b0, b3.end());
        let mut v: Vec<Bezier> = Vec::new();
        v.push(b0);
        v.push(b1);
        v.push(b2);
        v.push(b3);
        proof {
            if origin == (Point { x: 0i64, y: 0i64 }) && (degrees as int) % 360_000_000int
                == 0 {
                assert(v@ =~= ellipse_arcs(radius, eccentricity));
            }
        }
        BezierPath { elements: v }
    }

    /// Straight segments joining the corners in order, wrapping from the
    /// last corner back to the first, with the corners rounded at the given
    /// radius.
    pub fn of_points(corners: &Vec<Point>, rounding: i64) -> (r: BezierPath)
        requires
            rounding >= 0,
        ensures
            chained(r.elements@),
            closed_chain(r.elements@),
            r.elements@.len() >= corners@.len(),
            rounding == 0 ==> r.elements@.len() == corners@.len() && forall|j: int|
                0 <= j < corners@.len() ==> r.elements@[j] == (Bezier::Linear {
                    p0: corners@[j],
                    p1: corners@[(j + 1) % (corners@.len() as int)],
                }),
            rounding == 0 ==> r.elements@ == lines_of(corners@),
            corners@.len() >= 2 && rounding > 0 ==> rounding_of(
                lines_of(corners@),
                r.elements@,
                true,
                rounding,
            ),
            corners@.len() < 2 ==> r.elements@ == lines_of(corners@),
    {
        let mut bp = BezierPath::new();
        let n = corners.len();
        let mut i: usize = 0;
        while i < n
            invariant
                i <= n,
                n == corners@.len(),
                bp.elements@.len() == i,
                forall|j: int| 0 <= j < i ==> bp.elements@[j] == (Bezier::Linear {
                    p0: corners@[j],
                    p1: corners@[(j + 1) % (n as int)],
                }),
            decreases n - i,
        {
            let i_1 = (i + 1) % n;
            bp.add_bezier(Bezier::line(&corners[i], &corners[i_1]));
            i = i + 1;
        }
        proof {
            assert forall|j: int| 0 <= j && j + 1 < bp.elements@.len() implies end_of(
                bp.elements@[j],
            ) == start_of(bp.elements@[j + 1]) by {
                vstd::arithmetic::div_mod::lemma_small_mod((j + 1) as nat, n as nat);
            }
            if n > 0 {
                assert(end_of(bp.elements@[n - 1]) == corners@[((n - 1) + 1) % (n as int)]);
                vstd::arithmetic::div_mod::lemma_mod_self_0(n as int);
            }
            assert(bp.elements@ =~= lines_of(corners@));
        }
        let ghost pre = bp.elements@;
        bp.round(rounding, true);
        proof {
            if n >= 2 && rounding > 0 {
                assert(rounding_of(pre, bp.elements@, true, rounding));
            }
        }
        bp
    }

    /// The start point (index 0) or end point (any other index) of the
    /// path; the origin for an empty path.
    pub fn get_pt(&self, index: usize) -> (r: Point)
        ensures
            self.elements@.len() == 0 ==> r == (Point { x: 0i64, y: 0i64 }),
            self.elements@.len() > 0 && index == 0 ==> r == start_of(self.elements@[0]),
            self.elements@.len() > 0 && index != 0 ==> r == end_of(
                self.elements@[self.elements@.len() - 1],
            ),
    {
        let n = self.elements.len();
        if n == 0 {
            Point::zero()
        } else if index == 0 {
            self.elements[0].borrow_pt(0)
        } else {
            self.elements[n - 1].borrow_pt(1)
        }
    }

    /// Add a segment at the end of the path.
    pub fn add_bezier(&mut self, b: Bezier)
        ensures
            final(self).elements@ == old(self).elements@.push(b),
    {
        self.elements.push(b);
    }

    /// Borrow the segments of the path, in order.
    pub fn iter_beziers(&self) -> (r: &Vec<Bezier>)
        ensures
            r@ == self.elements@,
    {
        &self.elements
    }

    /// Round the corners of the path: wherever two straight segments meet
    /// (including the wrap from the last segment to the first when the path
    /// is closed), trim both lines and join the trim points with a rounding
    /// curve of the given radius.
    ///
    /// A path of fewer than two segments, or a zero rounding, is left
    /// untouched.  Otherwise one corner curve is inserted after the first
    /// line of every rounded pair, the neighbouring lines are shortened to
    /// the curve's endpoints, untouched segments are kept whole, and chain
    /// continuity and closedness are preserved.
    #[verifier::rlimit(100)]
    pub fn round(&mut self, rounding: i64, closed: bool)
        requires
            rounding >= 0,
        ensures
            old(self).elements@.len() < 2 || rounding == 0 ==> *final(self) == *old(self),
            chained(old(self).elements@) ==> chained(final(self).elements@),
            chained(old(self).elements@) && closed && closed_chain(old(self).elements@)
                ==> closed_chain(final(self).elements@),
            final(self).elements@.len() >= old(self).elements@.len(),
            old(self).elements@.len() >= 2 && rounding > 0 ==> {
                let olds = old(self).elements@;
                let news = final(self).elements@;
                &&& news.len() == olds.len() + pairs_before(
                    olds,
                    olds.len() as int,
                    closed,
                )
                &&& forall|j: int| 0 <= j < olds.len() ==> #[trigger] round_post_at(
                    olds,
                    news,
                    j,
                    closed,
                )
                &&& forall|j: int| 0 <= j < olds.len() ==> #[trigger] round_pair_joined(
                    olds,
                    news,
                    j,
                    closed,
                )
                &&& forall|j: int| 0 <= j < olds.len() ==> #[trigger] exact_corner_trim(
                    olds,
                    news,
                    j,
                    closed,
                    rounding,
                )
            },
    {
        let n = self.elements.len();
        if n < 2 || rounding == 0 {
            return ;
        }
        // first pass: the rounding curve for each corner that follows a
        // segment, where that segment and the next are both lines
        let mut curves: Vec<Option<Bezier>> = Vec::new();
        let mut j: usize = 0;
        while j < n
            invariant
                j <= n,
                n == self.elements@.len(),
                n >= 2,
                curves@.len() == j,
                rounding >= 0,
                forall|k: int| 0 <= k < j ==> ((#[trigger] curves@[k]) is Some
                    <==> rounded_pair(self.elements@, k, closed)),
                forall|k: int| 0 <= k < j ==> ((#[trigger] curves@[k]) matches Some(c) ==> !(
                c matches Bezier::Linear { .. })),
                forall|k: int| 0 <= k < j ==> ((#[trigger] curves@[k]) matches Some(c)
                    ==> (exact_axis_pair(self.elements@, k, closed, rounding) ==> start_of(c)
                    == end_of(self.elements@[k]).minus_spec(
                    crate::bezier::axis_scaled(pair_dir_in(self.elements@, k), rounding),
                ) && end_of(c) == end_of(self.elements@[k]).minus_spec(
                    crate::bezier::axis_scaled(
                        pair_dir_out(self.elements@, k, closed),
                        rounding,
                    ),
                ))),
            decreases n - j,
        {
            let j_1 = (j + 1) % n;
            let both_lines = self.elements[j].is_line() && self.elements[j_1].is_line();
            let in_scope = closed || j + 1 < n;
            if both_lines && in_scope {
                let corner = self.elements[j].borrow_pt(1);
                let v0 = self.elements[j].tangent_at(FX_ONE);
                let t1 = self.elements[j_1].tangent_at(0);
                let v1 = Point::zero().minus(t1);
                let bez = Bezier::of_round_corner(&corner, &v0, &v1, rounding);
                proof {
                    assert(v0 == pair_dir_in(self.elements@, j as int));
                    assert(v1 == pair_dir_out(self.elements@, j as int, closed));
                }
                curves.push(Some(bez));
            } else {
                curves.push(None);
            }
            j = j + 1;
        }
        // second pass: rebuild the path, shortening each line into its
        // neighbouring rounding curves and inserting each curve after the
        // segment it follows
        let ghost olds = self.elements@;
        let mut out: Vec<Bezier> = Vec::new();
        let mut j: usize = 0;
        while j < n
            invariant
                j <= n,
                n == self.elements@.len(),
                n == curves@.len(),
                n >= 2,
                self.elements@ == olds,
                out@.len() == j + pairs_before(olds, j as int, closed),
                forall|k: int| 0 <= k < n ==> ((#[trigger] curves@[k]) is Some <==> rounded_pair(
                    olds,
                    k,
                    closed,
                )),
                forall|k: int| 0 <= k < n ==> ((#[trigger] curves@[k]) matches Some(c) ==> !(
                c matches Bezier::Linear { .. })),
                forall|k: int| 0 <= k < n ==> ((#[trigger] curves@[k]) matches Some(c)
                    ==> (exact_axis_pair(olds, k, closed, rounding) ==> start_of(c) == end_of(
                    olds[k],
                ).minus_spec(crate::bezier::axis_scaled(pair_dir_in(olds, k), rounding))
                    && end_of(c) == end_of(olds[k]).minus_spec(
                    crate::bezier::axis_scaled(pair_dir_out(olds, k, closed), rounding),
                ))),
                forall|k: int| 0 <= k < j ==> #[trigger] round_post_at(olds, out@, k, closed),
                forall|k: int| 0 <= k < j ==> ((#[trigger] curves@[k]) matches Some(c)
                    ==> out@[k + pairs_before(olds, k, closed) + 1] == c),
                forall|k: int| 0 <= k && k + 1 < j ==> #[trigger] round_pair_joined(
                    olds,
                    out@,
                    k,
                    closed,
                ),
                chained(olds) ==> chained(out@),
                out@.len() > 0 ==> j > 0,
                chained(olds) && j > 0 ==> {
                    &&& out@.len() > 0
                    &&& end_of(out@[out@.len() - 1]) == match curves@[j - 1] {
                        Some(c) => end_of(c),
                        None => end_of(olds[j - 1]),
                    }
                },
                j == 0 ==> out@.len() == 0,
                out@.len() > 0 ==> start_of(out@[0]) == match curves@[(n as int) - 1] {
                    Some(c) => if closed {
                        end_of(c)
                    } else {
                        start_of(olds[0])
                    },
                    None => start_of(olds[0]),
                },
            decreases n - j,
        {
            let prev = if j == 0 {
                n - 1
            } else {
                j - 1
            };
            proof {
                lemma_pairs_before_le(olds, j as int, closed);
                if j > 0 {
                    vstd::arithmetic::div_mod::lemma_mod_multiples_vanish(
                        1,
                        j as int - 1,
                        n as int,
                    );
                    vstd::arithmetic::div_mod::lemma_small_mod((j - 1) as nat, n as nat);
                } else {
                    vstd::arithmetic::div_mod::lemma_small_mod((n - 1) as nat, n as nat);
                }
                assert((j as int - 1 + olds.len()) % (olds.len() as int) == prev as int);
                assert(start_trimmed(olds, j as int, closed) == rounded_pair(
                    olds,
                    prev as int,
                    closed,
                ));
            }
            let e = self.elements[j];
            let start = match vec_opt_at(&curves, prev) {
                Some(c) => {
                    if j > 0 || closed {
                        c.borrow_pt(1)
                    } else {
                        e.borrow_pt(0)
                    }
                },
                None => e.borrow_pt(0),
            };
            let end = match vec_opt_at(&curves, j) {
                Some(c) => c.borrow_pt(0),
                None => e.borrow_pt(1),
            };
            let seg = if vec_opt_is_some(&curves, prev) && (j > 0 || closed) || vec_opt_is_some(
                &curves,
                j,
            ) {
                Bezier::line(&start, &end)
            } else {
                e
            };
            let ghost pre_out = out@;
            out.push(seg);
            if let Some(c) = vec_opt_at(&curves, j) {
                out.push(*c);
            }
            proof {
                assert(round_post_at(olds, out@, j as int, closed));
                if j > 0 && rounded_pair(olds, j as int - 1, closed) {
                    assert(round_pair_joined(olds, out@, j as int - 1, closed));
                }
                assert forall|k: int| 0 <= k < j implies #[trigger] round_post_at(
                    olds,
                    out@,
                    k,
                    closed,
                ) by {
                    lemma_pairs_before_le(olds, k, closed);
                    lemma_pairs_before_mono(olds, k + 1, j as int, closed);
                    assert(round_post_at(olds, pre_out, k, closed));
                }
                assert forall|k: int| 0 <= k < j && (#[trigger] curves@[k]) is Some implies
                    out@[k + pairs_before(olds, k, closed) + 1] == curves@[k]->0 by {
                    lemma_pairs_before_le(olds, k, closed);
                    lemma_pairs_before_mono(olds, k + 1, j as int, closed);
                    assert(pre_out[k + pairs_before(olds, k, closed) + 1] == curves@[k]->0);
                }
                assert forall|k: int| 0 <= k && k + 1 < j implies #[trigger] round_pair_joined(
                    olds,
                    out@,
                    k,
                    closed,
                ) by {
                    lemma_pairs_before_le(olds, k, closed);
                    lemma_pairs_before_mono(olds, k + 2, j as int, closed);
                    assert(round_pair_joined(olds, pre_out, k, closed));
                }
            }
            j = j + 1;
        }
        self.elements = out;
        proof {
            assert forall|j: int| 0 <= j < olds.len() implies #[trigger] exact_corner_trim(
                olds,
                self.elements@,
                j,
                closed,
                rounding,
            ) by {
                if exact_axis_pair(olds, j, closed, rounding) {
                    lemma_pairs_before_le(olds, j, closed);
                    assert(rounded_pair(olds, j, closed));
                    assert((curves@[j]) is Some);
                    let c = curves@[j]->0;
                    assert(start_of(c) == end_of(olds[j]).minus_spec(
                        crate::bezier::axis_scaled(pair_dir_in(olds, j), rounding),
                    ));
                    assert(self.elements@[j + pairs_before(olds, j, closed) + 1] == c);
                }
            }
            assert forall|j: int| 0 <= j < olds.len() implies #[trigger] round_pair_joined(
                olds,
                self.elements@,
                j,
                closed,
            ) by {
                if j + 1 < olds.len() {
                } else if rounded_pair(olds, j, closed) {
                    lemma_pairs_before_le(olds, j, closed);
                    assert(start_of(self.elements@[0]) == end_of(
                        self.elements@[j + pairs_before(olds, j, closed) + 1],
                    ));
                }
            }
        }
    }
}

impl BezierPath {
    /// Remove (approximately) `distance` of path length from the start
    /// (`index == 0`) or from the end (any other index), leaving the rest
    /// of the path unchanged.
    ///
    /// Whole terminal segments are removed while their approximate length
    /// (at the given straightness) stays below the remaining distance; the
    /// surviving boundary segment is then replaced by its sub-curve from
    /// the parameter the distance reaches, keeping its degree and its
    /// untrimmed endpoint.  Every other segment is kept bit for bit, chain
    /// continuity is preserved, and a zero (or negative) distance trimmed
    /// from the start changes nothing.
    ///
    /// On a path of straight segments the removal count is tied to the
    /// distance: a segment is removed only when its length fits into the
    /// remaining trimming budget (up to one millionth of the segment, the
    /// parameter resolution), and removal stops as soon as the budget is
    /// within the boundary segment's length.
    pub fn apply_relief(&mut self, index: usize, straightness: i64, distance: i64)
        requires
            straightness >= 0,
        ensures
            distance < 0 && index == 0 ==> final(self).elements@ == old(self).elements@,
            final(self).elements@.len() <= old(self).elements@.len(),
            chained(old(self).elements@) ==> chained(final(self).elements@),
            index == 0 ==> exists|k: int| #[trigger] relief_from_start(
                old(self).elements@,
                final(self).elements@,
                k,
            ),
            index != 0 ==> exists|k: int| #[trigger] relief_from_end(
                old(self).elements@,
                final(self).elements@,
                k,
            ),
            distance == 0 && index == 0 ==> final(self).elements@ == old(self).elements@,
            (forall|i: int| 0 <= i < old(self).elements@.len() ==> (#[trigger] old(
                self,
            ).elements@[i]) is Linear) ==> ({
                let olds = old(self).elements@;
                let d0 = distance as int;
                let k = olds.len() - final(self).elements@.len();
                &&& (index == 0 ==> forall|j: int| 0 <= j < k ==> (crate::bezier::line_length_of(
                    olds[j],
                ) - #[trigger] relief_budget_start(olds, d0, j)) * (FX_ONE as int)
                    <= crate::bezier::line_length_of(olds[j]))
                &&& (index == 0 && k < olds.len() && relief_budget_start(olds, d0, k) > 0
                    ==> relief_budget_start(olds, d0, k) <= crate::bezier::line_length_of(
                    olds[k],
                ))
                &&& (index != 0 ==> forall|j: int| 0 <= j < k ==> (crate::bezier::line_length_of(
                    olds[olds.len() - 1 - j],
                ) - #[trigger] relief_budget_end(olds, d0, j)) * (FX_ONE as int)
                    <= crate::bezier::line_length_of(olds[olds.len() - 1 - j]))
                &&& (index != 0 && k < olds.len() && relief_budget_end(olds, d0, k) > 0
                    ==> relief_budget_end(olds, d0, k) <= crate::bezier::line_length_of(
                    olds[olds.len() - 1 - k],
                ))
            }),
    {
        let ghost olds = self.elements@;
        let ghost all_lin = forall|i: int|
            0 <= i < olds.len() ==> (#[trigger] olds[i]) is Linear;
        let ghost d0 = distance as int;
        let ghost mut k: int = 0;
        let mut dist = distance;
        loop
            invariant_except_break
                index == 0 ==> self.elements@ == olds.skip(k),
                index != 0 ==> self.elements@ == olds.take(olds.len() - k),
                distance == 0 ==> k == 0 && dist == 0,
                distance < 0 ==> k == 0 && dist == distance,
                all_lin && index == 0 ==> dist == relief_budget_start(olds, d0, k),
                all_lin && index != 0 ==> dist == relief_budget_end(olds, d0, k),
            invariant
                straightness >= 0,
                distance >= 0 ==> dist >= 0,
                0 <= k <= olds.len(),
                chained(olds) ==> chained(self.elements@),
                d0 == distance as int,
                all_lin == (forall|i: int| 0 <= i < olds.len() ==> (#[trigger] olds[i])
                    is Linear),
                all_lin && index == 0 ==> (forall|j: int| 0 <= j < k ==> (
                crate::bezier::line_length_of(olds[j]) - #[trigger] relief_budget_start(
                    olds,
                    d0,
                    j,
                )) * (FX_ONE as int) <= crate::bezier::line_length_of(olds[j])),
                all_lin && index != 0 ==> (forall|j: int| 0 <= j < k ==> (
                crate::bezier::line_length_of(olds[olds.len() - 1 - j])
                    - #[trigger] relief_budget_end(olds, d0, j)) * (FX_ONE as int)
                    <= crate::bezier::line_length_of(olds[olds.len() - 1 - j])),
            ensures
                chained(olds) ==> chained(self.elements@),
                self.elements@.len() <= olds.len(),
                index == 0 ==> relief_from_start(olds, self.elements@, k),
                index != 0 ==> relief_from_end(olds, self.elements@, k),
                distance == 0 && index == 0 ==> self.elements@ == olds,
                distance < 0 && index == 0 ==> self.elements@ == olds,
                all_lin && index == 0 && k < olds.len() && relief_budget_start(olds, d0, k)
                    > 0 ==> relief_budget_start(olds, d0, k)
                    <= crate::bezier::line_length_of(olds[k]),
                all_lin && index != 0 && k < olds.len() && relief_budget_end(olds, d0, k)
                    > 0 ==> relief_budget_end(olds, d0, k) <= crate::bezier::line_length_of(
                    olds[olds.len() - 1 - k],
                ),
            decreases self.elements@.len(),
        {
            proof {
                if index == 0 {
                    lemma_seq_skip_facts(olds, k);
                } else {
                    lemma_seq_take_facts(olds, k);
                }
            }
            if self.elements.len() == 0 {
                proof {
                    if index == 0 {
                        assert(relief_from_start(olds, self.elements@, k));
                    } else {
                        assert(relief_from_end(olds, self.elements@, k));
                    }
                    if distance <= 0 {
                        assert(self.elements@ =~= olds);
                    }
                }
                break ;
            }
            let ghost pre = self.elements@;
            if index == 0 {
                let b = self.elements[0];
                proof {
                    assert(b == olds[k]);
                }
                let l = b.length(straightness);
                if dist > l {
                    self.elements.remove(0);
                    dist = crate::fixed::sat_sub(dist, l);
                    proof {
                        k = k + 1;
                        lemma_chained_remove_first(pre);
                        assert(self.elements@ =~= olds.skip(k));
                        if all_lin {
                            assert(relief_budget_start(olds, d0, k) == crate::fixed::sat64(
                                relief_budget_start(olds, d0, k - 1)
                                    - crate::bezier::line_length_of(olds[k - 1]),
                            ));
                        }
                    }
                } else {
                    let (t, _in_bezier) = b.t_of_distance(straightness, dist);
                    if t == 0 {
                    } else if t == FX_ONE {
                        self.elements.remove(0);
                        proof {
                            k = k + 1;
                            lemma_chained_remove_first(pre);
                            assert(self.elements@ =~= olds.skip(k));
                            if all_lin {
                                assert(crate::bezier::line_length_of(olds[k - 1]) <= dist);
                                assert(relief_budget_start(olds, d0, k)
                                    == crate::fixed::sat64(
                                    relief_budget_start(olds, d0, k - 1)
                                        - crate::bezier::line_length_of(olds[k - 1]),
                                ));
                                assert(relief_budget_start(olds, d0, k) <= 0);
                            }
                        }
                    } else {
                        let nb = b.bezier_between(t, FX_ONE);
                        self.elements.set(0, nb);
                        proof {
                            lemma_chained_set_first(pre, nb);
                        }
                    }
                    proof {
                        lemma_seq_skip_facts(olds, k);
                        assert(relief_from_start(olds, self.elements@, k));
                        if distance <= 0 && index == 0 && k == 0 && self.elements@ == pre {
                            assert(self.elements@ =~= olds);
                        }
                    }
                    break ;
                }
            } else {
                let nlast = self.elements.len() - 1;
                let b = self.elements[nlast];
                proof {
                    assert(b == olds[olds.len() - 1 - k]);
                }
                let l = b.length(straightness);
                if dist > l {
                    self.elements.pop();
                    dist = crate::fixed::sat_sub(dist, l);
                    proof {
                        k = k + 1;
                        assert(self.elements@ =~= olds.take(olds.len() - k));
                        if all_lin {
                            assert(relief_budget_end(olds, d0, k) == crate::fixed::sat64(
                                relief_budget_end(olds, d0, k - 1)
                                    - crate::bezier::line_length_of(
                                    olds[olds.len() - k],
                                ),
                            ));
                        }
                    }
                } else {
                    let (t, _in_bezier) = b.t_of_distance(straightness, crate::fixed::sat_sub(
                        l,
                        dist,
                    ));
                    if t == 0 {
                        self.elements.pop();
                        proof {
                            k = k + 1;
                            lemma_chained_drop_last(pre);
                            assert(self.elements@ =~= olds.take(olds.len() - k));
                            if all_lin {
                                let lo = crate::bezier::line_length_of(
                                    olds[olds.len() - k],
                                );
                                assert(l == lo);
                                assert(crate::fixed::sat64(l - dist) <= 0 || crate::fixed::sat64(
                                    l - dist,
                                ) * (FX_ONE as int) < lo);
                                assert((lo - dist) * (FX_ONE as int) <= lo);
                                assert(relief_budget_end(olds, d0, k) == crate::fixed::sat64(
                                    relief_budget_end(olds, d0, k - 1) - lo,
                                ));
                                assert(relief_budget_end(olds, d0, k) <= 0);
                            }
                        }
                    } else if t == FX_ONE {
                    } else {
                        let nb = b.bezier_between(0, t);
                        self.elements.set(nlast, nb);
                        proof {
                            lemma_chained_set_last(pre, nb);
                        }
                    }
                    proof {
                        lemma_seq_take_facts(olds, k);
                        assert(relief_from_end(olds, self.elements@, k));
                    }
                    break ;
                }
            }
        }
        proof {
            if index == 0 {
                assert(relief_from_start(olds, self.elements@, k));
            } else {
                assert(relief_from_end(olds, self.elements@, k));
            }
        }
    }
}

/// The distance still to trim from the start after removing `j` whole
/// segments: the trimming budget, spent segment by segment (saturating).
pub open spec fn relief_budget_start(s: Seq<Bezier>, d0: int, j: int) -> int
    decreases j,
{
    if j <= 0 {
        d0
    } else {
        crate::fixed::sat64(
            relief_budget_start(s, d0, j - 1) - crate::bezier::line_length_of(s[j - 1]),
        )
    }
}

/// The distance still to trim from the end after removing `j` whole
/// segments: the trimming budget, spent segment by segment (saturating).
pub open spec fn relief_budget_end(s: Seq<Bezier>, d0: int, j: int) -> int
    decreases j,
{
    if j <= 0 {
        d0
    } else {
        crate::fixed::sat64(
            relief_budget_end(s, d0, j - 1) - crate::bezier::line_length_of(s[s.len() - j]),
        )
    }
}

/// What trimming `k` whole segments from the start of a path leaves: the
/// tail is kept bit for bit, and the boundary segment (if any survives)
/// keeps its degree and its end point.
pub open spec fn relief_from_start(olds: Seq<Bezier>, news: Seq<Bezier>, k: int) -> bool {
    &&& 0 <= k <= olds.len()
    &&& news.len() == olds.len() - k
    &&& forall|i: int| 1 <= i < news.len() ==> news[i] == olds[k + i]
    &&& news.len() > 0 ==> end_of(news[0]) == end_of(olds[k]) && crate::bezier::same_kind(
        news[0],
        olds[k],
    )
}

/// What trimming `k` whole segments from the end of a path leaves: the
/// front is kept bit for bit, and the boundary segment (if any survives)
/// keeps its degree and its start point.
pub open spec fn relief_from_end(olds: Seq<Bezier>, news: Seq<Bezier>, k: int) -> bool {
    &&& 0 <= k <= olds.len()
    &&& news.len() == olds.len() - k
    &&& forall|i: int| 0 <= i < news.len() - 1 ==> news[i] == olds[i]
    &&& news.len() > 0 ==> start_of(news[news.len() - 1]) == start_of(olds[news.len() - 1])
        && crate::bezier::same_kind(news[news.len() - 1], olds[news.len() - 1])
}

/// Indexing facts for a dropped-prefix view of a sequence.
proof fn lemma_seq_skip_facts(s: Seq<Bezier>, k: int)
    requires
        0 <= k <= s.len(),
    ensures
        s.skip(k).len() == s.len() - k,
        forall|i: int| 0 <= i < s.len() - k ==> #[trigger] s.skip(k)[i] == s[k + i],
{
}

/// Indexing facts for a dropped-suffix view of a sequence.
proof fn lemma_seq_take_facts(s: Seq<Bezier>, k: int)
    requires
        0 <= k <= s.len(),
    ensures
        s.take(s.len() - k).len() == s.len() - k,
        forall|i: int| 0 <= i < s.len() - k ==> #[trigger] s.take(s.len() - k)[i] == s[i],
{
}

/// Removing the first segment of a chain leaves a chain.
proof fn lemma_chained_remove_first(s: Seq<Bezier>)
    requires
        s.len() > 0,
    ensures
        chained(s) ==> chained(s.remove(0)),
{
    if chained(s) {
        assert forall|i: int| 0 <= i && i + 1 < s.remove(0).len() implies end_of(
            s.remove(0)[i],
        ) == start_of(s.remove(0)[i + 1]) by {
            assert(s.remove(0)[i] == s[i + 1]);
            assert(s.remove(0)[i + 1] == s[i + 2]);
        }
    }
}

/// Removing the last segment of a chain leaves a chain.
proof fn lemma_chained_drop_last(s: Seq<Bezier>)
    requires
        s.len() > 0,
    ensures
        chained(s) ==> chained(s.drop_last()),
{
}

/// Replacing the first segment of a chain with one that ends at the same
/// point leaves a chain.
proof fn lemma_chained_set_first(s: Seq<Bezier>, nb: Bezier)
    requires
        s.len() > 0,
        end_of(nb) == end_of(s[0]),
    ensures
        chained(s) ==> chained(s.update(0, nb)),
{
    if chained(s) {
        assert forall|i: int| 0 <= i && i + 1 < s.update(0, nb).len() implies end_of(
            s.update(0, nb)[i],
        ) == start_of(s.update(0, nb)[i + 1]) by {
            if i > 0 {
                assert(s.update(0, nb)[i] == s[i]);
            }
            assert(s.update(0, nb)[i + 1] == s[i + 1]);
        }
    }
}

/// Replacing the last segment of a chain with one that starts at the same
/// point leaves a chain.
proof fn lemma_chained_set_last(s: Seq<Bezier>, nb: Bezier)
    requires
        s.len() > 0,
        start_of(nb) == start_of(s[s.len() - 1]),
    ensures
        chained(s) ==> chained(s.update(s.len() - 1, nb)),
{
    if chained(s) {
        let t = s.update(s.len() - 1, nb);
        assert forall|i: int| 0 <= i && i + 1 < t.len() implies end_of(t[i]) == start_of(
            t[i + 1],
        ) by {
            assert(t[i] == s[i]);
            if i + 1 < s.len() - 1 {
                assert(t[i + 1] == s[i + 1]);
            }
        }
    }
}

/// Borrow the optional segment at an index.
fn vec_opt_at(v: &Vec<Option<Bezier>>, i: usize) -> (r: Option<&Bezier>)
    requires
        i < v@.len(),
    ensures
        match r {
            Some(b) => v@[i as int] matches Some(c) && c == *b,
            None => v@[i as int] is None,
        },
{
    match &v[i] {
        Some(b) => Some(b),
        None => None,
    }
}

/// Whether the optional segment at an index is present.
fn vec_opt_is_some(v: &Vec<Option<Bezier>>, i: usize) -> (r: bool)
    requires
        i < v@.len(),
    ensures
        r == (v@[i as int] is Some),
{
    v[i].is_some()
}

/// The same segment with its start point replaced.
fn with_start(b: Bezier, p: Point) -> (r: Bezier)
    ensures
        start_of(r) == p,
        end_of(r) == end_of(b),
        crate::bezier::same_kind(r, b),
        r matches Bezier::Cubic { c0: d0, c1: d1, .. } ==> (b matches Bezier::Cubic {
            c0: e0,
            c1: e1,
            ..
        } ==> d0 == e0 && d1 == e1),
{
    match b {
        Bezier::Linear { p1, .. } => Bezier::Linear { p0: p, p1 },
        Bezier::Quadratic { c, p1, .. } => Bezier::Quadratic { p0: p, c, p1 },
        Bezier::Cubic { c0, c1, p1, .. } => Bezier::Cubic { p0: p, c0, c1, p1 },
    }
}

} // verus!
