//! Ranges, bounding boxes and transforms, exercised on concrete values.
//! Coordinates are fixed-point: an `i64` holds the value times one million.

use svg_nd::BBox;
use svg_nd::FX_ONE;
use svg_nd::Point;
use svg_nd::Range;
use svg_nd::Transform;

fn rng_eq(rng: &Range, min: i64, max: i64) {
    assert_eq!(rng.min, min, "mismatch in min {:?} {} {}", rng, min, max);
    assert_eq!(rng.max, max, "mismatch in max {:?} {} {}", rng, min, max);
}

#[test]
fn test_simple() {
    assert!(Range::none().is_none());
    rng_eq(&Range::new(1_000_000, 2_000_000), 1_000_000, 2_000_000);
    assert!(Range::new(100_000, 0).is_none());
    assert!(!Range::new(0, 100_000).is_none());
    rng_eq(&Range::new(1_000_000, 2_000_000).scaled(3_000_000), 3_000_000, 6_000_000);
    rng_eq(&Range::new(3_000_000, 6_000_000).divided(3_000_000), 1_000_000, 2_000_000);

    assert_eq!(Range::none().size(), 0);
    assert_eq!(Range::new(1_000_000, 0).size(), 0);
    assert_eq!(Range::new(0, 1_000_000).size(), 1_000_000);
    assert_eq!(Range::new(2_000_000, 0).size(), 0);
    assert_eq!(Range::new(0, 2_000_000).size(), 2_000_000);
}

#[test]
fn test_union() {
    let r = |a: i64, b: i64| Range::new(a * 1_000_000, b * 1_000_000);
    rng_eq(&r(0, 4).union(&r(0, 4)), 0, 4_000_000);
    rng_eq(&r(0, 4).union(&r(0, 5)), 0, 5_000_000);
    rng_eq(&r(0, 4).union(&r(2, 5)), 0, 5_000_000);
    rng_eq(&r(0, 4).union(&r(2, 3)), 0, 4_000_000);
    rng_eq(&r(0, 4).union(&r(-1, 3)), -1_000_000, 4_000_000);
    rng_eq(&r(0, 4).union(&r(-1, 5)), -1_000_000, 5_000_000);
}

#[test]
fn test_intersect() {
    let r = |a: i64, b: i64| Range::new(a * 1_000_000, b * 1_000_000);
    rng_eq(&r(0, 4).intersect(&r(0, 4)), 0, 4_000_000);
    rng_eq(&r(0, 4).intersect(&r(0, 5)), 0, 4_000_000);
    rng_eq(&r(0, 4).intersect(&r(2, 5)), 2_000_000, 4_000_000);
    rng_eq(&r(0, 4).intersect(&r(2, 3)), 2_000_000, 3_000_000);
    rng_eq(&r(0, 4).intersect(&r(-1, 3)), 0, 3_000_000);
    rng_eq(&r(0, 4).intersect(&r(-1, 5)), 0, 4_000_000);
}

#[test]
fn union_of_empty_is_neutral_and_intersect_absorbs() {
    let a = Range::new(2_000_000, 5_000_000);
    let u = Range::none().union(&a);
    rng_eq(&u, 2_000_000, 5_000_000);
    let i = Range::none().intersect(&a);
    assert!(i.is_none());
    let i2 = a.intersect(&Range::none());
    assert!(i2.is_none());
}

fn range_eq(rng: &Range, x: i64, y: i64) {
    assert_eq!(rng.min, x, "mismatch in min {:?} {} {}", rng, x, y);
    assert_eq!(rng.max, y, "mismatch in max {:?} {} {}", rng, x, y);
}

fn pt_eq(pt: &Point, x: i64, y: i64) {
    assert_eq!(pt.x, x, "mismatch in x {:?} {} {}", pt, x, y);
    assert_eq!(pt.y, y, "mismatch in y {:?} {} {}", pt, x, y);
}

#[test]
fn test_zero() {
    let x = BBox::none();
    assert!(x.is_none());
    assert_eq!(x.width(), 0);
    assert_eq!(x.height(), 0);
}

#[test]
fn bbox_test_0() {
    let x = BBox::new(-3_000_000, 1_000_000, 5_000_000, 7_000_000);
    pt_eq(&x.center(), 1_000_000, 4_000_000);
    assert_eq!(x.width(), 8_000_000);
    assert_eq!(x.height(), 6_000_000);
    let wh = x.get_wh();
    assert_eq!(wh.0, 8_000_000);
    assert_eq!(wh.1, 6_000_000);
    range_eq(&x.xrange(), -3_000_000, 5_000_000);
    range_eq(&x.yrange(), 1_000_000, 7_000_000);
    pt_eq(&x.get_cwh().0, 1_000_000, 4_000_000);
    assert_eq!(x.get_cwh().1, 8_000_000);
    assert_eq!(x.get_cwh().2, 6_000_000);
}

#[test]
fn test_ops_0() {
    let x = BBox::new(2_000_000, 1_000_000, 5_000_000, 7_000_000);
    let y = BBox::new(4_000_000, 0, 6_000_000, 3_000_000);
    let z = BBox::new(5_000_000, 1_000_000, 7_000_000, 4_000_000);
    let x_and_y = x.intersect(y);
    let x_or_y = x.union(y);
    let x_and_z = x.intersect(z);
    let x_or_z = x.union(z);
    range_eq(&x_and_y.xrange(), 4_000_000, 5_000_000);
    range_eq(&x_and_y.yrange(), 1_000_000, 3_000_000);
    range_eq(&x_or_y.xrange(), 2_000_000, 6_000_000);
    range_eq(&x_or_y.yrange(), 0, 7_000_000);

    assert!(!x_and_z.is_none());
    range_eq(&x_and_z.xrange(), 5_000_000, 5_000_000);
    range_eq(&x_and_z.yrange(), 1_000_000, 4_000_000);
    range_eq(&x_or_z.xrange(), 2_000_000, 7_000_000);
    range_eq(&x_or_z.yrange(), 1_000_000, 7_000_000);
}

#[test]
fn test_ops_1() {
    let x = BBox::new(2_000_000, 1_000_000, 5_000_000, 7_000_000);
    let y = [100_000i64, 200_000, 300_000, 500_000];
    let x_p_y = x.expand(&y, 1_000_000);
    let x_p_2y = x.expand(&y, 2_000_000);
    range_eq(&x_p_y.xrange(), 1_900_000, 5_300_000);
    range_eq(&x_p_y.yrange(), 800_000, 7_500_000);
    range_eq(&x_p_2y.xrange(), 1_800_000, 5_600_000);
    range_eq(&x_p_2y.yrange(), 600_000, 8_000_000);
}

#[test]
fn test_ops_2() {
    let x = BBox::new(2_000_000, 1_000_000, 5_000_000, 7_000_000);
    let y = [100_000i64, 200_000, 300_000, 500_000];
    let x_m_y = x.shrink(&y, 1_000_000);
    let x_m_2y = x.shrink(&y, 2_000_000);
    range_eq(&x_m_y.xrange(), 2_100_000, 4_700_000);
    range_eq(&x_m_y.yrange(), 1_200_000, 6_500_000);
    range_eq(&x_m_2y.xrange(), 2_200_000, 4_400_000);
    range_eq(&x_m_2y.yrange(), 1_400_000, 6_000_000);
}

#[test]
fn enlarge_is_a_no_op_on_an_empty_box() {
    // a box with one empty axis is empty, and enlarge/reduce leave it alone
    let b = BBox::of_ranges(Range::new(0, 1_000_000), Range::none());
    assert!(b.is_none());
    assert_eq!(b.enlarge(1_000_000), b);
    assert_eq!(b.reduce(1_000_000), b);
}

#[test]
fn enlarge_then_reduce_restores_box() {
    let b = BBox::new(-2_000_000, 1_000_000, 3_000_000, 4_000_000);
    let back = b.enlarge(750_000).reduce(750_000);
    assert_eq!(back, b);
}

fn approx_eq(a: i64, b: i64) -> bool {
    let diff = a - b;
    // Tolerance of twenty millionths.  The millionths encoding cannot meet
    // a one-millionth round-trip bound here: at the diagonal rotations the
    // matrix entries are themselves rounded to the nearest millionth, and
    // recovering the scale squares them, so at a scale of a tenth the
    // decomposition is off by about ten millionths.  The quadrant
    // rotations round-trip exactly (see below); the widening concedes the
    // encoding's resolution, not the decomposition.
    diff > -20 && diff < 20
}

fn check_transform(t: &Transform, dx: i64, dy: i64, r: i64, sc: i64) {
    assert!(approx_eq(t.translation.x, dx), "{:?} dx of {} {} {} {}", t, dx, dy, r, sc);
    assert!(approx_eq(t.translation.y, dy), "{:?} dy of {} {} {} {}", t, dx, dy, r, sc);
    assert!(approx_eq(t.rotation, r), "{:?} r of {} {} {} {}", t, dx, dy, r, sc);
    assert!(approx_eq(t.scale, sc), "{:?} sc of {} {} {} {}", t, dx, dy, r, sc);
}

fn check_matrix(m: &[i64], e: &[i64]) {
    let okay = m.iter().zip(e.iter()).fold(true, |acc, (m, e)| acc && approx_eq(*m, *e));
    assert!(okay, "Matrix {:?} expected {:?}", m, e);
}

#[test]
fn transform_test_0() {
    check_transform(&Transform::identity(), 0, 0, 0, FX_ONE);
    check_transform(&Transform::of_translation(Point::zero()), 0, 0, 0, FX_ONE);
    check_transform(
        &Transform::of_translation(Point::new(1_000_000, 2_000_000)),
        1_000_000,
        2_000_000,
        0,
        FX_ONE,
    );
    check_transform(
        &Transform::of_trs(Point::new(3_000_000, -2_000_000), 7_000_000, 6_000_000),
        3_000_000,
        -2_000_000,
        7_000_000,
        6_000_000,
    );
}

#[test]
fn test_1() {
    let m = Transform::of_trs(Point::zero(), 0, 1_000_000).to_matrix();
    assert_eq!(m, [1_000_000, 0, 0, 0, 1_000_000, 0, 0, 0, 1_000_000]);
    let m = Transform::of_trs(Point::zero(), 0, 7_000_000).to_matrix();
    assert_eq!(m, [7_000_000, 0, 0, 0, 7_000_000, 0, 0, 0, 1_000_000]);
    let m = Transform::of_trs(Point::new(4_000_000, 5_000_000), 0, 7_000_000).to_matrix();
    check_matrix(&m, &[7_000_000, 0, 4_000_000, 0, 7_000_000, 5_000_000, 0, 0, 1_000_000]);
    let m = Transform::of_trs(Point::new(4_000_000, 5_000_000), 90_000_000, 7_000_000)
        .to_matrix();
    check_matrix(&m, &[0, -7_000_000, 4_000_000, 7_000_000, 0, 5_000_000, 0, 0, 1_000_000]);
    let m = Transform::of_trs(Point::new(4_000_000, 5_000_000), 180_000_000, 7_000_000)
        .to_matrix();
    check_matrix(&m, &[-7_000_000, 0, 4_000_000, 0, -7_000_000, 5_000_000, 0, 0, 1_000_000]);
    let m = Transform::of_trs(Point::new(4_000_000, 5_000_000), 270_000_000, 7_000_000)
        .to_matrix();
    check_matrix(&m, &[0, 7_000_000, 4_000_000, -7_000_000, 0, 5_000_000, 0, 0, 1_000_000]);
}

#[test]
fn test_2() {
    for (x, y) in [
        (0i64, 0i64),
        (0, 1_000_000),
        (1_000_000, 0),
        (1_000_000, 1_000_000),
        (-1_000_000, 0),
        (-1_000_000, -1_000_000),
    ] {
        for r in [0i64, 45_000_000, 90_000_000, 135_000_000] {
            for s in [1_000_000i64, 5_000_000, 100_000] {
                // a scale of zero cannot round-trip
                let t = Transform::of_trs(Point::new(x, y), r, s);
                let m = t.to_matrix();
                let t1 = Transform::of_matrix(&m).unwrap();
                check_transform(&t1, x, y, r, s);
            }
        }
    }
}

#[test]
fn matrix_round_trip_is_exact_on_quadrants() {
    for r in [0i64, 90_000_000, 180_000_000, -90_000_000] {
        let t = Transform::of_trs(Point::new(123_456, -789_012), r, 3_000_000);
        let t1 = svg_nd::transform::matrix_round_trip(t).unwrap();
        assert_eq!(t1, t);
    }
}

#[test]
fn of_matrix_rejects_bad_matrices() {
    // wrong size
    let r = Transform::of_matrix(&[0i64; 4]);
    assert_eq!(r.unwrap_err().reason().as_str(), "matrix was not 3-by-3");
    // bad bottom row
    let r = Transform::of_matrix(&[1_000_000, 0, 0, 0, 1_000_000, 0, 0, 0, 2_000_000]);
    assert_eq!(r.unwrap_err().reason().as_str(), "bottom row must be 0, 0, 1");
    // skew
    let r = Transform::of_matrix(
        &[1_000_000, 500_000, 0, 0, 1_000_000, 0, 0, 0, 1_000_000],
    );
    assert_eq!(
        r.unwrap_err().reason().as_str(),
        "rotation portion (top left 4 values) represent a skew not a rotation"
    );
    // negative determinant (a reflection)
    let r = Transform::of_matrix(
        &[1_000_000, 0, 0, 0, -1_000_000, 0, 0, 0, 1_000_000],
    );
    assert_eq!(
        r.unwrap_err().reason().as_str(),
        "determinant (scale squared) is negative"
    );
}

#[test]
fn svg_attribute_string_of_transform() {
    assert_eq!(Transform::identity().as_svg_attribute_string(), "");
    let t = Transform::of_translation(Point::new(1_000_000, 2_000_000));
    assert_eq!(t.as_svg_attribute_string(), "translate(1.0000 2.0000) ");
    let t = Transform::of_trs(Point::zero(), 30_000_000, 2_000_000);
    assert_eq!(t.as_svg_attribute_string(), "rotate(30.0000) scale(2.0000) ");
}

#[test]
fn rotating_a_box_by_quarter_turns_maps_the_corners() {
    let b = BBox::new(1_000_000, 2_000_000, 3_000_000, 5_000_000);
    let o = Point::zero();
    // a quarter turn about the origin sends (x, y) to (-y, x)
    assert_eq!(
        b.new_rotated_around(&o, 90_000_000),
        BBox::new(-5_000_000, 1_000_000, -2_000_000, 3_000_000),
    );
    // a half turn negates both coordinates
    assert_eq!(
        b.new_rotated_around(&o, 180_000_000),
        BBox::new(-3_000_000, -5_000_000, -1_000_000, -2_000_000),
    );
    // three quarter turns send (x, y) to (y, -x)
    assert_eq!(
        b.new_rotated_around(&o, 270_000_000),
        BBox::new(2_000_000, -3_000_000, 5_000_000, -1_000_000),
    );
    // a full turn gives the box back
    assert_eq!(b.new_rotated_around(&o, 360_000_000), b);
    // around a pivot: rotating the unit square about its own corner
    let s = BBox::new(0, 0, 1_000_000, 1_000_000);
    let pivot = Point::new(1_000_000, 1_000_000);
    assert_eq!(
        s.new_rotated_around(&pivot, 180_000_000),
        BBox::new(1_000_000, 1_000_000, 2_000_000, 2_000_000),
    );
}

#[test]
fn applying_a_quarter_turn_transform_is_exact() {
    let t = Transform::of_trs(Point::new(10_000_000, 0), 90_000_000, FX_ONE);
    // R(90) * (2, 1) = (-1, 2), plus the translation
    assert_eq!(t.apply(Point::new(2_000_000, 1_000_000)), Point::new(9_000_000, 2_000_000));
    let t = Transform::of_trs(Point::zero(), 180_000_000, FX_ONE);
    assert_eq!(t.apply(Point::new(2_000_000, 1_000_000)), Point::new(-2_000_000, -1_000_000));
    let t = Transform::of_trs(Point::zero(), 270_000_000, 2_000_000);
    // scale first, then R(270) sends (x, y) to (y, -x)
    assert_eq!(t.apply(Point::new(2_000_000, 1_000_000)), Point::new(2_000_000, -4_000_000));
}

#[test]
fn composing_transforms_rotates_the_inner_translation() {
    let outer = Transform::of_trs(Point::new(5_000_000, 6_000_000), 90_000_000, FX_ONE);
    let inner = Transform::of_trs(Point::new(1_000_000, 2_000_000), 0, FX_ONE);
    let c = outer.apply_to_transform(&inner);
    // R(90) * (1, 2) = (-2, 1), plus the outer translation
    assert_eq!(c.translation, Point::new(3_000_000, 7_000_000));
    assert_eq!(c.rotation, 90_000_000);
    assert_eq!(c.scale, FX_ONE);
}
