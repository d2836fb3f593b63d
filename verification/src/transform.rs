//! Translate-rotate-scale affine transforms and their matrix form.

use vstd::prelude::*;
use vstd::string::StringExecFns;

use crate::fixed::FX_ONE;
use crate::fixed::fx_mul;
use crate::fixed::fx_mul_spec;
use crate::fixed::fx_sqrt;
use crate::fixed::sat64;
use crate::fixed::sat_add;
use crate::fixed::sat_sub;
use crate::fmt::fixed4_digits;
use crate::fmt::push_fixed4;
use crate::point::Point;
use crate::point::rotation_fits;
use crate::trig::atan2_fx;
use crate::trig::sin_cos_fx;

verus! {

/// The one recoverable error of the library: a matrix handed to
/// [`Transform::of_matrix`] that does not describe a
/// translate-rotate-scale transform.
#[derive(Debug)]
pub enum Error {
    /// The matrix is not of the required shape, with the reason in words.
    InvalidTransformationMatrix {
        /// Why the matrix was rejected.
        reason: String,
    },
}

impl Error {
    /// The reason carried by the error.
    pub fn reason(&self) -> (r: &String)
        ensures
            r@ == self->reason@,
    {
        match self {
            Error::InvalidTransformationMatrix { reason } => reason,
        }
    }
}

/// A transformation applied to content to present it in its parent's
/// coordinates: scale, then rotate, then translate.
#[derive(Debug, Clone, Copy, PartialEq, Eq, Structural)]
pub struct Transform {
    /// Translation - applied last
    pub translation: Point,
    /// Rotation around the origin in fixed-point degrees
    pub rotation: i64,
    /// Scale factor
    pub scale: i64,
}

/// The skew measure of a matrix: the dot product of the two rows of the
/// top-left block, which is zero for a pure rotation and scale.
pub open spec fn skew_of(m0: i64, m1: i64, m3: i64, m4: i64) -> int {
    sat64(fx_mul_spec(m0 as int, m1 as int) + fx_mul_spec(m4 as int, m3 as int))
}

/// The determinant of the top-left block of a matrix: the scale squared for
/// a pure rotation and scale.
pub open spec fn det_of(m0: i64, m1: i64, m3: i64, m4: i64) -> int {
    sat64(fx_mul_spec(m0 as int, m4 as int) - fx_mul_spec(m1 as int, m3 as int))
}

/// Whether a nine-entry matrix passes every check of
/// [`Transform::of_matrix`].
pub open spec fn matrix_ok(m: Seq<i64>) -> bool {
    &&& m.len() == 9
    &&& m[8] == FX_ONE && m[7] == 0 && m[6] == 0
    &&& -1 <= skew_of(m[0], m[1], m[3], m[4]) <= 1
    &&& det_of(m[0], m[1], m[3], m[4]) >= 0
}

impl Transform {
    /// The translation of the transform.
    #[inline]
    pub fn translation(&self) -> (r: Point)
        ensures
            r == self.translation,
    {
        self.translation
    }

    /// The rotation of the transform, in fixed-point degrees.
    #[inline]
    pub fn rotation(&self) -> (r: i64)
        ensures
            r == self.rotation,
    {
        self.rotation
    }

    /// The scale factor of the transform.
    #[inline]
    pub fn scale(&self) -> (r: i64)
        ensures
            r == self.scale,
    {
        self.scale
    }

    /// Create a transform from a translation, rotation and scale.
    #[inline]
    pub fn of_trs(translation: Point, rotation: i64, scale: i64) -> (r: Transform)
        ensures
            r == (Transform { translation, rotation, scale }),
    {
        Transform { translation, rotation, scale }
    }

    /// Create a transform from a rotation alone.
    #[inline]
    pub fn of_rotation(rotation: i64) -> (r: Transform)
        ensures
            r == (Transform {
                translation: Point { x: 0i64, y: 0i64 },
                rotation,
                scale: FX_ONE,
            }),
    {
        Transform::of_trs(Point::zero(), rotation, FX_ONE)
    }

    /// Create a transform from a translation alone.
    #[inline]
    pub fn of_translation(translation: Point) -> (r: Transform)
        ensures
            r == (Transform { translation, rotation: 0i64, scale: FX_ONE }),
    {
        Transform::of_trs(translation, 0, FX_ONE)
    }

    /// The identity transform.
    pub fn identity() -> (r: Transform)
        ensures
            r == (Transform {
                translation: Point { x: 0i64, y: 0i64 },
                rotation: 0i64,
                scale: FX_ONE,
            }),
    {
        Transform::of_trs(Point::zero(), 0, FX_ONE)
    }

    /// Return true if this is the identity transform.
    pub fn is_identity(&self) -> (b: bool)
        ensures
            b == (self.rotation == 0 && self.scale == FX_ONE && self.translation.x == 0
                && self.translation.y == 0),
    {
        self.rotation == 0 && self.scale == FX_ONE && self.translation.is_zero()
    }

    /// Recover a transform from a 3x3 homogeneous matrix in row-major order.
    ///
    /// The matrix must be `cs -ss dx; ss cs dy; 0 0 1`; it is rejected, with
    /// the reason in words, when it is not nine entries, when its bottom row
    /// is not `0 0 1`, when the top-left block is skewed by more than one
    /// millionth, or when its determinant is negative.  On success the scale
    /// is the square root of the determinant (rounded down) and the rotation
    /// is recovered from the left column, exactly so on the axes and the
    /// diagonals.
    pub fn of_matrix(matrix: &[i64]) -> (r: Result<Transform, Error>)
        ensures
            r is Ok <==> matrix_ok(matrix@),
            r matches Ok(t) ==> {
                let det = det_of(matrix@[0], matrix@[1], matrix@[3], matrix@[4]);
                &&& t.translation == (Point { x: matrix@[2], y: matrix@[5] })
                &&& -180_000_000 <= t.rotation <= 180_000_000
                &&& t.scale >= 0
                &&& t.scale * t.scale <= det * (FX_ONE as int) < (t.scale + 1) * (t.scale + 1)
                &&& matrix@[3] == 0 && matrix@[4] >= 0 ==> t.rotation == 0
                &&& matrix@[3] == 0 && matrix@[4] < 0 ==> t.rotation == 180_000_000
                &&& matrix@[4] == 0 && matrix@[3] > 0 ==> t.rotation == 90_000_000
                &&& matrix@[4] == 0 && matrix@[3] < 0 ==> t.rotation == -90_000_000
                &&& matrix@[3] == matrix@[4] && matrix@[4] > 0 ==> t.rotation == 45_000_000
                &&& matrix@[3] == -matrix@[4] && matrix@[4] < 0 ==> t.rotation == 135_000_000
                &&& matrix@[3] == matrix@[4] && matrix@[4] < 0 ==> t.rotation == -135_000_000
                &&& matrix@[3] == -matrix@[4] && matrix@[4] > 0 ==> t.rotation == -45_000_000
            },
            r matches Err(e) ==> !matrix_ok(matrix@),
    {
        if matrix.len() != 9 {
            return Err(
                Error::InvalidTransformationMatrix {
                    reason: "matrix was not 3-by-3".to_owned(),
                },
            );
        }
        if !(*slice_at(matrix, 8) == FX_ONE && *slice_at(matrix, 7) == 0 && *slice_at(matrix, 6)
            == 0) {
            return Err(
                Error::InvalidTransformationMatrix {
                    reason: "bottom row must be 0, 0, 1".to_owned(),
                },
            );
        }
        let dx = *slice_at(matrix, 2);
        let dy = *slice_at(matrix, 5);
        let m0 = *slice_at(matrix, 0);
        let m1 = *slice_at(matrix, 1);
        let m3 = *slice_at(matrix, 3);
        let m4 = *slice_at(matrix, 4);
        let skew = sat_add(fx_mul(m0, m1), fx_mul(m4, m3));
        if skew > 1 || skew < -1 {
            return Err(
                Error::InvalidTransformationMatrix {
                    reason: "rotation portion (top left 4 values) represent a skew not a rotation".to_owned(),
                },
            );
        }
        let det = sat_sub(fx_mul(m0, m4), fx_mul(m1, m3));
        if det < 0 {
            return Err(
                Error::InvalidTransformationMatrix {
                    reason: "determinant (scale squared) is negative".to_owned(),
                },
            );
        }
        let sc = fx_sqrt(det);
        let angle = atan2_fx(m3, m4);
        Ok(Transform::of_trs(Point::new(dx, dy), angle, sc))
    }

    /// The 3x3 homogeneous matrix of the transform, in row-major order.
    ///
    /// The two diagonal entries of the rotation block are equal, the two
    /// off-diagonal entries are negations of each other, and on the
    /// quadrant boundaries and the odd multiples of 45 degrees all four
    /// are exact.
    pub fn to_matrix(&self) -> (m: [i64; 9])
        ensures
            m@.len() == 9,
            m@[2] == self.translation.x,
            m@[5] == self.translation.y,
            m@[6] == 0 && m@[7] == 0 && m@[8] == FX_ONE,
            m@[4] == m@[0],
            m@[1] == sat64(-m@[3]),
            ({
                let dm = (self.rotation as int) % 360_000_000int;
                let sc = self.scale as int;
                &&& dm == 0 ==> m@[0] == self.scale && m@[3] == 0
                &&& dm == 90_000_000 ==> m@[0] == 0 && m@[3] == self.scale
                &&& dm == 180_000_000 ==> m@[0] == sat64(-self.scale) && m@[3] == 0
                &&& dm == 270_000_000 ==> m@[0] == 0 && m@[3] == sat64(-self.scale)
                &&& dm == 45_000_000 ==> m@[0] == fx_mul_spec(sc, 707_107) && m@[3]
                    == fx_mul_spec(sc, 707_107)
                &&& dm == 135_000_000 ==> m@[0] == fx_mul_spec(sc, -707_107) && m@[3]
                    == fx_mul_spec(sc, 707_107)
                &&& dm == 225_000_000 ==> m@[0] == fx_mul_spec(sc, -707_107) && m@[3]
                    == fx_mul_spec(sc, -707_107)
                &&& dm == 315_000_000 ==> m@[0] == fx_mul_spec(sc, 707_107) && m@[3]
                    == fx_mul_spec(sc, -707_107)
            }),
    {
        let sc = self.scale;
        let (s, c) = sin_cos_fx(self.rotation);
        let m0 = fx_mul(sc, c);
        let m3 = fx_mul(sc, s);
        proof {
            crate::fixed::lemma_fx_mul_unit(sc);
        }
        [m0, sat_sub(0, m3), self.translation.x, m3, m0, self.translation.y, 0, 0, FX_ONE]
    }

    /// Apply this transform to a point.
    ///
    /// On the quadrant boundaries the result is exact: the scaled point is
    /// rotated by the quarter turns and translated, saturating at the
    /// `i64` extremes.  In particular, when the rotation is a multiple of
    /// a full turn and the scale is one, the result is exactly the
    /// translated point.
    pub fn apply(&self, pt: Point) -> (r: Point)
        ensures
            (self.rotation as int) % 360_000_000int == 0 ==> {
                &&& r.x == sat64(fx_mul_spec(self.scale as int, pt.x as int)
                    + self.translation.x)
                &&& r.y == sat64(fx_mul_spec(self.scale as int, pt.y as int)
                    + self.translation.y)
            },
            (self.rotation as int) % 360_000_000int == 0 && self.scale == FX_ONE ==> {
                &&& r.x == sat64(pt.x + self.translation.x)
                &&& r.y == sat64(pt.y + self.translation.y)
            },
            ({
                let dm = (self.rotation as int) % 360_000_000int;
                let nsc = sat64(-(self.scale as int)) as i64;
                let pos = sat64(-(nsc as int)) as i64;
                &&& dm == 90_000_000 ==> r.x == sat64(fx_mul_spec(nsc as int, pt.y as int)
                    + self.translation.x) && r.y == sat64(fx_mul_spec(
                    self.scale as int,
                    pt.x as int,
                ) + self.translation.y)
                &&& dm == 180_000_000 ==> r.x == sat64(fx_mul_spec(nsc as int, pt.x as int)
                    + self.translation.x) && r.y == sat64(fx_mul_spec(
                    nsc as int,
                    pt.y as int,
                ) + self.translation.y)
                &&& dm == 270_000_000 ==> r.x == sat64(fx_mul_spec(pos as int, pt.y as int)
                    + self.translation.x) && r.y == sat64(fx_mul_spec(nsc as int, pt.x as int)
                    + self.translation.y)
            }),
    {
        let m = self.to_matrix();
        let x = pt.x;
        let y = pt.y;
        proof {
            crate::fixed::lemma_fx_mul_unit(x);
            crate::fixed::lemma_fx_mul_unit(y);
        }
        let rx = sat_add(sat_add(fx_mul(m[0], x), fx_mul(m[1], y)), m[2]);
        let ry = sat_add(sat_add(fx_mul(m[3], x), fx_mul(m[4], y)), m[5]);
        Point::new(rx, ry)
    }

    /// Apply this transform to another transform.
    ///
    /// The rotations add, the scales multiply, and the translation is this
    /// transform applied to the other's translation plus this transform's
    /// own translation.
    pub fn apply_to_transform(&self, other: &Transform) -> (r: Transform)
        ensures
            r.rotation == sat64(self.rotation + other.rotation),
            r.scale == fx_mul_spec(self.scale as int, other.scale as int),
            (self.rotation as int) % 360_000_000int == 0 && self.scale == FX_ONE
                && rotation_fits(other.translation, Point { x: 0i64, y: 0i64 }) ==> {
                &&& r.translation.x == sat64(other.translation.x + self.translation.x)
                &&& r.translation.y == sat64(other.translation.y + self.translation.y)
            },
            rotation_fits(other.translation, Point { x: 0i64, y: 0i64 }) ==> ({
                let dm = (self.rotation as int) % 360_000_000int;
                let tx = other.translation.x as int;
                let ty = other.translation.y as int;
                &&& dm == 0 ==> r.translation.x == sat64(fx_mul_spec(
                    tx,
                    self.scale as int,
                ) + self.translation.x) && r.translation.y == sat64(fx_mul_spec(
                    ty,
                    self.scale as int,
                ) + self.translation.y)
                &&& dm == 90_000_000 ==> r.translation.x == sat64(fx_mul_spec(
                    sat64(-ty),
                    self.scale as int,
                ) + self.translation.x) && r.translation.y == sat64(fx_mul_spec(
                    sat64(tx),
                    self.scale as int,
                ) + self.translation.y)
                &&& dm == 180_000_000 ==> r.translation.x == sat64(fx_mul_spec(
                    sat64(-tx),
                    self.scale as int,
                ) + self.translation.x) && r.translation.y == sat64(fx_mul_spec(
                    sat64(-ty),
                    self.scale as int,
                ) + self.translation.y)
                &&& dm == 270_000_000 ==> r.translation.x == sat64(fx_mul_spec(
                    sat64(ty),
                    self.scale as int,
                ) + self.translation.x) && r.translation.y == sat64(fx_mul_spec(
                    sat64(-tx),
                    self.scale as int,
                ) + self.translation.y)
            }),
            self.rotation == 0 && self.scale == FX_ONE && self.translation == (Point {
                x: 0i64,
                y: 0i64,
            }) && rotation_fits(other.translation, Point { x: 0i64, y: 0i64 }) ==> r == *other,
    {
        let zero = Point::zero();
        let mut dxy = other.translation.rotate_around(&zero, self.rotation);
        dxy = dxy.scaled(self.scale).plus(self.translation);
        proof {
            crate::fixed::lemma_fx_mul_unit(other.translation.x);
            crate::fixed::lemma_fx_mul_unit(other.translation.y);
            crate::fixed::lemma_fx_mul_unit(other.scale);
        }
        Transform::of_trs(
            dxy,
            sat_add(self.rotation, other.rotation),
            fx_mul(self.scale, other.scale),
        )
    }

    /// The transform as an SVG `transform` attribute value: the translation,
    /// rotation and scale parts in that order, each only when it differs
    /// from the identity, each followed by a space.
    pub fn as_svg_attribute_string(&self) -> (s: String)
        ensures
            s@ == svg_attr_spec(*self),
    {
        let mut r = String::new();
        let dxy = self.translation;
        if dxy.x != 0 || dxy.y != 0 {
            r.append("translate(");
            push_fixed4(&mut r, dxy.x);
            r.append(" ");
            push_fixed4(&mut r, dxy.y);
            r.append(") ");
        }
        if self.rotation != 0 {
            r.append("rotate(");
            push_fixed4(&mut r, self.rotation);
            r.append(") ");
        }
        if self.scale != FX_ONE {
            r.append("scale(");
            push_fixed4(&mut r, self.scale);
            r.append(") ");
        }
        proof {
            assert(r@ =~= svg_attr_spec(*self));
        }
        r
    }
}

/// Serialising a transform to its matrix and decomposing the matrix again
/// restores the transform exactly, for every translation, every quadrant
/// rotation in `(-180, 180]` degrees, and every positive scale whose square
/// is exactly representable in the fixed-point encoding.
///
/// (On other rotations and scales the round trip is only approximate, since
/// the matrix entries themselves are approximations: the decomposition then
/// recovers the transform to within the encoding's resolution, which the
/// tests exercise on concrete values.)
pub fn matrix_round_trip(t: Transform) -> (r: Result<Transform, Error>)
    requires
        t.rotation == 0 || t.rotation == 90_000_000 || t.rotation == 180_000_000 || t.rotation
            == -90_000_000,
        0 < t.scale <= 3_000_000_000_000,
        (t.scale * t.scale) % (FX_ONE as int) == 0,
    ensures
        r matches Ok(t2) && t2 == t,
{
    let m = t.to_matrix();
    proof {
        lemma_scale_square(t.scale);
        assert((-90_000_000int) % 360_000_000int == 270_000_000int);
        assert((180_000_000int) % 360_000_000int == 180_000_000int);
        assert((90_000_000int) % 360_000_000int == 90_000_000int);
        assert((0int) % 360_000_000int == 0int);
        crate::fixed::lemma_fx_mul_unit(m@[0]);
        crate::fixed::lemma_fx_mul_unit(m@[1]);
        crate::fixed::lemma_fx_mul_unit(m@[3]);
        crate::fixed::lemma_fx_mul_unit(m@[4]);
    }
    let r = Transform::of_matrix(m.as_slice());
    proof {
        let det = det_of(m@[0], m@[1], m@[3], m@[4]);
        assert(det == t.scale * t.scale / (FX_ONE as int));
        match r {
            Ok(t2) => {
                lemma_sqrt_of_square(t2.scale as int, t.scale as int, det);
            },
            Err(_) => {
                assert(false);
            },
        }
    }
    r
}

/// The fixed-point square of a representable scale is exact in every sign
/// combination, and stays within `i64`.
proof fn lemma_scale_square(sc: i64)
    requires
        0 < sc <= 3_000_000_000_000,
        (sc * sc) % (FX_ONE as int) == 0,
    ensures
        fx_mul_spec(sc as int, sc as int) == sc * sc / (FX_ONE as int),
        fx_mul_spec(-(sc as int), -(sc as int)) == sc * sc / (FX_ONE as int),
        fx_mul_spec(-(sc as int), sc as int) == -(sc * sc / (FX_ONE as int)),
        fx_mul_spec(sc as int, -(sc as int)) == -(sc * sc / (FX_ONE as int)),
        0 <= sc * sc / (FX_ONE as int) <= 9_000_000_000_000_000_000,
{
    let one = FX_ONE as int;
    assert(0 < sc * sc <= 9_000_000_000_000_000_000_000_000) by (nonlinear_arith)
        requires
            0 < sc <= 3_000_000_000_000,
    ;
    assert((-(sc as int)) * (-(sc as int)) == sc * sc) by (nonlinear_arith);
    assert((-(sc as int)) * (sc as int) == -(sc * sc)) by (nonlinear_arith);
    assert((sc as int) * (-(sc as int)) == -(sc * sc)) by (nonlinear_arith);
    vstd::arithmetic::div_mod::lemma_div_is_ordered(
        sc * sc,
        9_000_000_000_000_000_000_000_000,
        one,
    );
    vstd::arithmetic::div_mod::lemma_div_pos_is_pos(sc * sc, one);
}

/// A non-negative integer bracketed between a square and the next square is
/// that square's root.
proof fn lemma_sqrt_of_square(s: int, sc: int, det: int)
    requires
        s >= 0,
        sc >= 0,
        det == sc * sc / (FX_ONE as int),
        (sc * sc) % (FX_ONE as int) == 0,
        s * s <= det * (FX_ONE as int) < (s + 1) * (s + 1),
    ensures
        s == sc,
{
    vstd::arithmetic::div_mod::lemma_fundamental_div_mod(sc * sc, FX_ONE as int);
    assert(det * (FX_ONE as int) == sc * sc);
    assert(s == sc) by (nonlinear_arith)
        requires
            s >= 0,
            sc >= 0,
            s * s <= sc * sc < (s + 1) * (s + 1),
    ;
}

/// The text of a transform's SVG attribute value.
pub open spec fn svg_attr_spec(t: Transform) -> Seq<char> {
    (if t.translation.x != 0 || t.translation.y != 0 {
        ("translate(")@ + fixed4_digits(t.translation.x as int) + (" ")@ + fixed4_digits(
            t.translation.y as int,
        ) + (") ")@
    } else {
        Seq::empty()
    }) + (if t.rotation != 0 {
        ("rotate(")@ + fixed4_digits(t.rotation as int) + (") ")@
    } else {
        Seq::empty()
    }) + (if t.scale != FX_ONE {
        ("scale(")@ + fixed4_digits(t.scale as int) + (") ")@
    } else {
        Seq::empty()
    })
}

/// Borrow an element of a slice.
fn slice_at<T>(s: &[T], i: usize) -> (r: &T)
    requires
        i < s@.len(),
    ensures
        *r == s@[i as int],
{
    &s[i]
}

} // verus!
