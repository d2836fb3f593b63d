//! Curve paths: corner rounding, arc-length trimming and the polygon
//! generator, on concrete fixed-point values.

use svg_nd::Bezier;
use svg_nd::BezierPath;
use svg_nd::Point;
use svg_nd::Polygon;

/// The control-point offset of a quarter-circle arc of radius one, in the
/// fixed-point encoding.  The real value is about 0.5571469; the
/// millionths encoding truncates it to 0.557146, nine tenths of a
/// millionth low, so no representable value sits within the original
/// one-ten-millionth tolerance and the test pins the encoded value
/// exactly instead.
const MAGIC: i64 = 557_146;

fn pt_eq(pt: &Point, x: i64, y: i64) {
    assert_eq!(pt.x, x, "mismatch in x {:?} {} {}", pt, x, y);
    assert_eq!(pt.y, y, "mismatch in y {:?} {} {}", pt, x, y);
}

fn bezier_eq(bez: &Bezier, v: Vec<(i64, i64)>) {
    if bez.is_cubic() {
        pt_eq(&bez.borrow_pt(0), v[0].0, v[0].1);
        pt_eq(&bez.borrow_pt(2), v[1].0, v[1].1);
        pt_eq(&bez.borrow_pt(3), v[2].0, v[2].1);
        pt_eq(&bez.borrow_pt(1), v[3].0, v[3].1);
    } else if bez.is_quadratic() {
        pt_eq(&bez.borrow_pt(0), v[0].0, v[0].1);
        pt_eq(&bez.borrow_pt(2), v[1].0, v[1].1);
        pt_eq(&bez.borrow_pt(1), v[2].0, v[2].1);
    } else {
        pt_eq(&bez.borrow_pt(0), v[0].0, v[0].1);
        pt_eq(&bez.borrow_pt(1), v[1].0, v[1].1);
    }
}

fn unit_square_path() -> BezierPath {
    let p0 = Point::zero();
    let p1 = Point::new(1_000_000, 0);
    let p2 = Point::new(1_000_000, 1_000_000);
    let p3 = Point::new(0, 1_000_000);
    let mut bp = BezierPath::new();
    bp.add_bezier(Bezier::line(&p0, &p1));
    bp.add_bezier(Bezier::line(&p1, &p2));
    bp.add_bezier(Bezier::line(&p2, &p3));
    bp.add_bezier(Bezier::line(&p3, &p0));
    bp
}

#[test]
fn test_round_open() {
    let mut bp = unit_square_path();

    // after open rounding of 0.1 the straight lines span 0.1 to 0.9 on
    // each side except at the open corner, and there are 7 segments with
    // round corners everywhere but the origin
    bp.round(100_000, false);
    bezier_eq(&bp.elements[0], vec![(0, 0), (900_000, 0)]);
    bezier_eq(&bp.elements[2], vec![(1_000_000, 100_000), (1_000_000, 900_000)]);
    bezier_eq(&bp.elements[4], vec![(900_000, 1_000_000), (100_000, 1_000_000)]);
    bezier_eq(&bp.elements[6], vec![(0, 900_000), (0, 0)]);
    assert_eq!(bp.elements.len(), 7, "Path should be 7 elements");
}

#[test]
fn test_round_closed() {
    let mut bp = unit_square_path();

    // after closed rounding of 0.1 the straight lines span 0.1 to 0.9 on
    // every side, and there are 8 segments
    bp.round(100_000, true);
    bezier_eq(&bp.elements[0], vec![(100_000, 0), (900_000, 0)]);
    bezier_eq(&bp.elements[2], vec![(1_000_000, 100_000), (1_000_000, 900_000)]);
    bezier_eq(&bp.elements[4], vec![(900_000, 1_000_000), (100_000, 1_000_000)]);
    bezier_eq(&bp.elements[6], vec![(0, 900_000), (0, 100_000)]);
    assert_eq!(bp.elements.len(), 8, "Path should be 8 elements");
}

#[test]
fn rounding_keeps_the_chain_joined() {
    let mut bp = unit_square_path();
    bp.round(100_000, true);
    let segs = bp.iter_beziers();
    for i in 0..segs.len() {
        let here = segs[i].borrow_pt(1);
        let next = segs[(i + 1) % segs.len()].borrow_pt(0);
        pt_eq(&here, next.x, next.y);
    }
}

#[test]
fn test_circle() {
    let x = Polygon::new_circle(1_000_000);
    let mut v = Vec::new();
    for b in x.as_paths().iter_beziers() {
        v.push(*b);
    }
    let magic = MAGIC;
    bezier_eq(
        &v[0],
        vec![(1_000_000, 0), (1_000_000, magic), (magic, 1_000_000), (0, 1_000_000)],
    );
    bezier_eq(
        &v[1],
        vec![(0, 1_000_000), (-magic, 1_000_000), (-1_000_000, magic), (-1_000_000, 0)],
    );
    bezier_eq(
        &v[2],
        vec![(-1_000_000, 0), (-1_000_000, -magic), (-magic, -1_000_000), (0, -1_000_000)],
    );
    bezier_eq(
        &v[3],
        vec![(0, -1_000_000), (magic, -1_000_000), (1_000_000, -magic), (1_000_000, 0)],
    );
}

#[test]
fn relief_of_zero_distance_changes_nothing() {
    let mut bp = unit_square_path();
    let before = bp.elements.clone();
    bp.apply_relief(0, 100_000, 0);
    assert_eq!(bp.elements, before);
}

#[test]
fn relief_trims_the_start_and_keeps_the_end() {
    let mut bp = BezierPath::new();
    bp.add_bezier(Bezier::line(&Point::zero(), &Point::new(1_000_000, 0)));
    bp.add_bezier(Bezier::line(&Point::new(1_000_000, 0), &Point::new(2_000_000, 0)));
    bp.apply_relief(0, 100_000, 500_000);
    assert_eq!(bp.elements.len(), 2);
    bezier_eq(&bp.elements[0], vec![(500_000, 0), (1_000_000, 0)]);
    bezier_eq(&bp.elements[1], vec![(1_000_000, 0), (2_000_000, 0)]);
}

#[test]
fn relief_drops_whole_segments_from_the_end() {
    let mut bp = BezierPath::new();
    bp.add_bezier(Bezier::line(&Point::zero(), &Point::new(1_000_000, 0)));
    bp.add_bezier(Bezier::line(&Point::new(1_000_000, 0), &Point::new(2_000_000, 0)));
    bp.apply_relief(1, 100_000, 1_500_000);
    assert_eq!(bp.elements.len(), 1);
    bezier_eq(&bp.elements[0], vec![(0, 0), (500_000, 0)]);
}

#[test]
fn polygon_builders_fill_the_descriptor() {
    let p = Polygon::new_polygon(6, 2_000_000, 30_000_000, 100_000);
    assert_eq!(p.vertices, 6);
    assert_eq!(p.size, 2_000_000);
    assert_eq!(p.rotation, 30_000_000);
    assert_eq!(p.rounding, 100_000);
    assert_eq!(p.eccentricity, 1_000_000);
    assert_eq!(p.stellate_size, 0);

    let s = Polygon::new_star(5, 1_000_000, 500_000, 0, 0);
    assert_eq!(s.stellate_size, 500_000);

    let e = Polygon::new_ellipse(2_000_000, 1_000_000, 0);
    assert_eq!(e.vertices, 0);
    assert_eq!(e.size, 1_000_000);
    assert_eq!(e.eccentricity, 2_000_000);
}

#[test]
fn polygon_paths_have_the_expected_segment_counts() {
    // one vertex: a degenerate empty path
    let p = Polygon::new(1, 0);
    assert_eq!(p.as_paths().iter_beziers().len(), 0);
    // an ellipse: four arcs
    let e = Polygon::new_circle(2_000_000);
    assert_eq!(e.as_paths().iter_beziers().len(), 4);
    // an unrounded square: four lines
    let q = Polygon::new_polygon(4, 1_000_000, 0, 0);
    assert_eq!(q.as_paths().iter_beziers().len(), 4);
    // a rounded square: four lines and four corner curves
    let r = Polygon::new_polygon(4, 1_000_000, 0, 100_000);
    assert_eq!(r.as_paths().iter_beziers().len(), 8);
    // a star doubles its points
    let s = Polygon::new_star(5, 1_000_000, 500_000, 0, 0);
    assert_eq!(s.as_paths().iter_beziers().len(), 10);
}

#[test]
fn rect_polygon_corners_sit_on_half_extents() {
    // a 4-gon sized from a rectangle puts its corners at half the width
    // and height (up to the fixed-point resolution)
    let p = Polygon::new_rect(4_000_000, 2_000_000).translated(Point::new(
        10_000_000,
        20_000_000,
    ));
    let path = p.as_paths();
    for b in path.iter_beziers() {
        let s = b.borrow_pt(0);
        assert!((s.x - 10_000_000).abs() <= 2_000_100);
        assert!((s.y - 20_000_000).abs() <= 1_000_100);
    }
    assert_eq!(path.iter_beziers().len(), 4);
}

#[test]
fn relief_of_negative_distance_changes_nothing() {
    let mut bp = unit_square_path();
    let before = bp.elements.clone();
    bp.apply_relief(0, 100_000, -5_000_000);
    assert_eq!(bp.elements, before);
}

#[test]
fn square_corners_sit_on_the_diagonals() {
    // the four corners of an unrotated unit square polygon lie exactly on
    // the 45-degree diagonals, at the fixed-point cos(45) = 0.707107
    let p = Polygon::new_polygon(4, 1_000_000, 0, 0);
    let path = p.as_paths();
    let segs = path.iter_beziers();
    assert_eq!(segs.len(), 4);
    pt_eq(&segs[0].borrow_pt(0), 707_107, 707_107);
    pt_eq(&segs[1].borrow_pt(0), 707_107, -707_107);
    pt_eq(&segs[2].borrow_pt(0), -707_107, -707_107);
    pt_eq(&segs[3].borrow_pt(0), -707_107, 707_107);
}
