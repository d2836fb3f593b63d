//! The element tree, the finalize pass, the event iterator and the
//! colour and text helpers, on concrete values.

use svg_nd::BBox;
use svg_nd::BezierPath;
use svg_nd::CharIndices;
use svg_nd::Color;
use svg_nd::Point;
use svg_nd::Rgba;
use svg_nd::Svg;
use svg_nd::SvgConfig;
use svg_nd::SvgGroup;
use svg_nd::SvgPath;
use svg_nd::SvgVersion;
use svg_nd::Transform;
use svg_nd::XmlEvent;
use svg_nd::color_database::svg_colors;
use svg_nd::fmt::fixed4_to_string;
use svg_nd::fmt::u64_to_string;

#[test]
fn fixed4_rendering() {
    assert_eq!(fixed4_to_string(0), "0.0000");
    assert_eq!(fixed4_to_string(1_234_567), "1.2346");
    assert_eq!(fixed4_to_string(-1_500_000), "-1.5000");
    assert_eq!(fixed4_to_string(50), "0.0001");
    assert_eq!(fixed4_to_string(49), "0.0000");
    assert_eq!(fixed4_to_string(10_000_000), "10.0000");
    assert_eq!(u64_to_string(0), "0");
    assert_eq!(u64_to_string(90218), "90218");
}

#[test]
fn colors_render_and_look_up() {
    let c = Rgba::from_tuple_rgb((0xf0, 0xf8, 0xff));
    assert_eq!(c.as_tuple_rgba(), (0xf0, 0xf8, 0xff, 255));
    assert_eq!(c.alpha(), 255);
    let c2 = c.set_alpha(128);
    assert_eq!(c2.alpha(), 128);
    assert_eq!(Color::of_rgb(c).as_str(), "#f0f8ff");
    assert_eq!(Color::of_rgb(c2).as_str(), "rgba(240,248,255,128)");

    let db = svg_colors();
    assert_eq!(db.find_color_rgb("AliceBlue"), Some(0xf0f8ff));
    assert_eq!(db.find_color_name("Alice_Blue"), Some("aliceblue"));
    assert_eq!(db.find_color_rgb("no such colour"), None);
    let red = db.find_color("red").unwrap();
    assert_eq!(red.as_str(), "red");
    let none = db.find_color("None").unwrap();
    assert_eq!(none.as_str(), "none");

    let faded = Color::new("red", Rgba::from_tuple_rgb((255, 0, 0))).set_alpha(10);
    assert_eq!(faded.as_str(), "rgba(255,0,0,10)");

    assert_eq!(Rgba::of_rgba(0x80102030).as_tuple_rgba(), (0x10, 0x20, 0x30, 0x80));
}

#[test]
fn char_indices_pack_and_unpack() {
    let ci = CharIndices::of_indices(200, 7, 3, 40, 900);
    assert_eq!(ci.width_index(), 200);
    assert_eq!(ci.height_index(), 7);
    assert_eq!(ci.depth_index(), 3);
    assert_eq!(ci.italic_index(), 40);
    assert_eq!(ci.options(), 900);
}

#[test]
fn svg_versions_have_texts() {
    assert_eq!(SvgVersion::of_str("1.0"), Some(SvgVersion::Version1_0));
    assert_eq!(SvgVersion::of_str("1.1"), Some(SvgVersion::Version1_1));
    assert_eq!(SvgVersion::of_str("2.0"), Some(SvgVersion::Version2_0));
    assert_eq!(SvgVersion::of_str("3.0"), None);
    assert_eq!(SvgVersion::Version2_0.as_str(), "2.0");
}

fn square_path_element() -> svg_nd::SvgElement {
    let mut corners: Vec<Point> = Vec::new();
    corners.push(Point::new(0, 0));
    corners.push(Point::new(1_000_000, 0));
    corners.push(Point::new(1_000_000, 1_000_000));
    corners.push(Point::new(0, 1_000_000));
    SvgPath::new_path(BezierPath::of_points(&corners, 0), true)
}

#[test]
fn path_d_attribute_text() {
    let mut bp = BezierPath::new();
    bp.add_bezier(svg_nd::Bezier::line(&Point::zero(), &Point::new(1_000_000, 0)));
    let mut e = SvgPath::new_path(bp, true);
    let extras = e.finalize(&SvgConfig::default());
    assert_eq!(extras.len(), 0);
    let d = &e.attributes[0];
    assert_eq!(d.0.name, "d");
    assert_eq!(d.1, "M 0.0000,0.0000 L 1.0000,0.0000 z");
}

#[test]
fn finalize_unions_and_translates_the_group_box() {
    // a unit-square path inside a group that is translated: the group's
    // finalized box is the path's box moved by the group's own transform
    let path = square_path_element();
    let mut group = SvgGroup::new();
    group.push_content(path);
    group.apply_transform(&Transform::of_translation(Point::new(5_000_000, 7_000_000)));
    let cfg = SvgConfig::default();
    let extras = group.finalize(&cfg);
    assert_eq!(extras.len(), 0);
    assert_eq!(
        group.bbox,
        BBox::new(5_000_000, 7_000_000, 6_000_000, 8_000_000),
    );
    // the path's own stored box is in the group's coordinates
    assert_eq!(group.contents[0].bbox, BBox::new(0, 0, 1_000_000, 1_000_000));
}

#[test]
fn content_rectangles_become_siblings_not_children() {
    let path = square_path_element();
    let mut group = SvgGroup::new();
    group.push_content(path);
    let cfg = SvgConfig::default().set_content_rectangles(
        600_000,
        svg_colors().find_color("AliceBlue").unwrap(),
    );
    let children_before = group.contents.len();
    let extras = group.finalize(&cfg);
    // exactly one extra outline per finalized node, handed to the caller
    assert_eq!(extras.len(), 1);
    // the child's extra was adopted by the group; the group's own extra
    // was not
    assert_eq!(group.contents.len(), children_before + 1);
}

fn drain_events(svg: &Svg) -> (usize, usize, usize, usize) {
    let mut it = svg.iter_events();
    let (mut total, mut opens, mut closes, mut chars) = (0, 0, 0, 0);
    loop {
        match it.next() {
            None => break,
            Some(ev) => {
                total += 1;
                match ev {
                    XmlEvent::StartElement(_) => opens += 1,
                    XmlEvent::EndElement(_) => closes += 1,
                    XmlEvent::Characters(_) => chars += 1,
                    _ => {},
                }
            },
        }
    }
    // the iterator stays exhausted
    assert!(it.next().is_none());
    assert!(it.next().is_none());
    (total, opens, closes, chars)
}

#[test]
fn event_iterator_emits_one_pass_of_the_tree() {
    // depth three, five nodes, one with characters, under the generated
    // svg root and its defs container
    let mut svg = Svg::new(SvgConfig::default());
    let mut group = SvgGroup::new();
    let mut inner = SvgGroup::new();
    let mut leaf = square_path_element();
    leaf.push_string("hello");
    inner.push_content(leaf);
    group.push_content(inner);
    group.push_content(square_path_element());
    svg.stack_push(group);
    svg.contents_take_stack();
    svg.finalize();
    assert!(svg.generate_diagram().is_ok());

    // nodes: svg root, defs, group, inner group, leaf path, second path
    let (total, opens, closes, chars) = drain_events(&svg);
    assert_eq!(opens, 6);
    assert_eq!(closes, 6);
    assert_eq!(chars, 1);
    // 1 start-doc + opens + closes + characters + 1 end-doc
    assert_eq!(total, 1 + 6 + 6 + 1 + 1);
}

#[test]
fn grid_emits_one_line_per_multiple_even_when_dense() {
    // eleven thousand vertical lines: one per integer multiple of the
    // spacing, with no cap
    let grid = svg_nd::SvgGrid {
        spacings: (1, 1),
        bbox: BBox::new(0, 0, 11_000, 0),
    };
    let mut attrs = Vec::new();
    grid.push_attributes(&mut attrs);
    assert_eq!(attrs.len(), 1);
    assert_eq!(attrs[0].0.name, "d");
    assert_eq!(attrs[0].1.matches("M ").count(), 11_002);
}

#[test]
fn grid_with_no_positive_spacing_still_gets_a_d_attribute() {
    let grid = svg_nd::SvgGrid {
        spacings: (0, -1),
        bbox: BBox::new(0, 0, 1_000_000, 1_000_000),
    };
    let mut attrs = Vec::new();
    grid.push_attributes(&mut attrs);
    assert_eq!(attrs.len(), 1);
    assert_eq!(attrs[0].0.name, "d");
    assert_eq!(attrs[0].1, "");
}

#[test]
fn event_text_forms() {
    let mut svg = Svg::new(SvgConfig::default());
    let group = SvgGroup::new();
    svg.stack_push(group);
    svg.contents_take_stack();
    svg.finalize();
    assert!(svg.generate_diagram().is_ok());
    let mut it = svg.iter_events();
    let first = it.next().unwrap().as_xml();
    assert_eq!(first, "<?xml version=\"1.0\" encoding=\"utf8\"?>");
    let open_root = it.next().unwrap().as_xml();
    assert!(open_root.starts_with("<svg "));
    assert!(open_root.contains(" xmlns:svg=\"http://www.w3.org/2000/svg\""));
    assert!(open_root.contains(" version=\"2.0\""));
    assert!(open_root.ends_with(">"));
    let defs_open = it.next().unwrap().as_xml();
    assert_eq!(defs_open, "<defs>");
    let defs_close = it.next().unwrap().as_xml();
    assert_eq!(defs_close, "</defs>");
    let g_open = it.next().unwrap().as_xml();
    assert_eq!(g_open, "<g>");
}

#[test]
fn simple_test_0() {
    let svg_config = SvgConfig::default().set_show_grid(true).set_content_rectangles(
        600_000,
        svg_colors().find_color("AliceBlue").unwrap(),
    );

    let mut svg = Svg::new(svg_config);

    let b = BezierPath::of_ellipse(Point::zero(), 10_000_000, 1_400_000, 65_000_000);
    let mut e = SvgPath::new_path(b, true);
    e.add_color("fill", &svg_colors().find_color("red").unwrap());
    svg.stack_push(e);
    svg.contents_take_stack();

    let b = BezierPath::of_ellipse(Point::zero(), 10_000_000, 1_400_000, 35_000_000);
    let mut e = SvgPath::new_path(b, true);
    e.add_color("fill", &Color::of_rgb(Rgba::from_tuple_rgb((0, 255, 0))));
    e.apply_transform(&Transform::of_trs(
        Point::new(20_000_000, 20_000_000),
        30_000_000,
        1_000_000,
    ));
    svg.stack_push(e);
    svg.contents_take_stack();

    svg.finalize();
    assert!(svg.generate_diagram().is_ok());
    let mut document = String::new();
    let mut it = svg.iter_events();
    loop {
        match it.next() {
            None => break,
            Some(ev) => document.push_str(&ev.as_xml()),
        }
    }
    // the root opens, both paths and their two content rectangles are
    // there, and the grid follows
    assert!(document.starts_with("<?xml version=\"1.0\" encoding=\"utf8\"?><svg "));
    assert!(document.matches("<path ").count() >= 5);
    assert!(document.contains("<defs></defs>"));
    assert!(document.contains("stroke=\"grey\""));
    assert!(document.ends_with("</svg>"));
}

#[test]
fn generated_grid_covers_the_diagram_and_draws_its_lines() {
    // the top-level grid is built over the diagram's own bounding box and
    // finalized, so its path data is baked into a d attribute
    let mut svg = Svg::new(SvgConfig::default().set_show_grid(true));
    let mut corners: Vec<Point> = Vec::new();
    corners.push(Point::new(0, 0));
    corners.push(Point::new(20_000_000, 0));
    corners.push(Point::new(20_000_000, 20_000_000));
    corners.push(Point::new(0, 20_000_000));
    let e = SvgPath::new_path(BezierPath::of_points(&corners, 0), true);
    svg.stack_push(e);
    svg.contents_take_stack();
    svg.finalize();
    assert!(svg.generate_diagram().is_ok());
    let mut document = String::new();
    let mut it = svg.iter_events();
    loop {
        match it.next() {
            None => break,
            Some(ev) => document.push_str(&ev.as_xml()),
        }
    }
    assert!(document.contains("stroke=\"grey\""));
    // a vertical grid line at x = 10 across the 0..20 box
    assert!(document.contains("M 10.0000,0.0000 v 20.0000"));
    // and a horizontal one at y = 10
    assert!(document.contains("M 0.0000,10.0000 h 20.0000"));
}
