//! The pre-layout element tree on concrete values.

use svg_nd::Attr;
use svg_nd::Attributes;
use svg_nd::BBox;
use svg_nd::BezierPath;
use svg_nd::Config;
use svg_nd::Element;
use svg_nd::Group;
use svg_nd::Path;
use svg_nd::Point;
use svg_nd::Transform;

struct PlainConfig;

impl Config for PlainConfig {}

fn path_with_box(b: BBox) -> Element<Attr> {
    let mut p: Path<Attr> = Path::new_path(BezierPath::new(), true);
    p.attr_mut().set_bbox(b);
    Element::new_path(p)
}

#[test]
fn group_unions_the_boxes_of_its_nodes() {
    let a = BBox::new(0, 0, 1_000_000, 1_000_000);
    let b = BBox::new(2_000_000, 2_000_000, 3_000_000, 3_000_000);
    let mut contents: Vec<Element<Attr>> = Vec::new();
    contents.push(path_with_box(a));
    contents.push(path_with_box(b));
    let g: Group<Attr> = Group::new(contents);
    assert_eq!(g.attr().bbox(), BBox::new(0, 0, 3_000_000, 3_000_000));
}

#[test]
fn attr_records_hold_box_and_transform() {
    let mut attr = Attr::make_default();
    assert!(attr.bbox().is_none());
    let t = Transform::of_translation(Point::new(1_000_000, 0));
    attr.set_transform(t);
    assert_eq!(attr.transform(), t);
    let b = BBox::new(0, 0, 1_000_000, 2_000_000);
    attr.set_bbox(b);
    assert_eq!(attr.bbox(), b);
}

#[test]
fn layout_and_finalize_leave_nodes_unchanged() {
    let e = path_with_box(BBox::new(0, 0, 1_000_000, 1_000_000));
    let mut e = e.layout(&PlainConfig, &BBox::new(0, 0, 9_000_000, 9_000_000));
    e.finalize(&PlainConfig);
    assert_eq!(e.attr().bbox(), BBox::new(0, 0, 1_000_000, 1_000_000));
}
