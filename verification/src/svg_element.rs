//! An element of an SVG diagram: a polymorphic node of the element tree,
//! with its two-phase finalize pass.

use vstd::prelude::*;
use vstd::string::StringExecFns;

use crate::bbox::BBox;
use crate::bbox::bbox_extend_of;
use crate::bbox::bbox_is_none;
use crate::bbox::bbox_union_of;
use crate::bezier::Bezier;
use crate::bezier_path::BezierPath;
use crate::color_database::Color;
use crate::fixed::sat64;
use crate::fmt::fixed4_digits;
use crate::fmt::push_fixed4;
use crate::namespace::NamespaceName;
use crate::point::Point;
use crate::polygon::Polygon;
use crate::svg::SvgConfig;
use crate::transform::Transform;

verus! {

/// The root element of an SVG document.
#[derive(Debug)]
pub struct SvgSvg {}

/// A group element.
#[derive(Debug)]
pub struct SvgGroup {}

/// A path element: a curve path and whether it is closed.
#[derive(Debug)]
pub struct SvgPath {
    /// The curve path
    pub path: BezierPath,
    /// Whether the path is closed
    pub closed: bool,
}

/// A grid element: an artefact showing grid lines over a region.
#[derive(Debug)]
pub struct SvgGrid {
    /// X and Y spacing of the grid lines; lines sit at integer multiples
    /// of the spacing
    pub spacings: (i64, i64),
    /// The region the grid covers
    pub bbox: BBox,
}

/// The node-kind-specific payload of an element.
#[derive(Debug)]
pub enum SvgElementType {
    /// A document root
    Svg(SvgSvg),
    /// A group
    Group(SvgGroup),
    /// A path
    Path(SvgPath),
    /// A grid artefact
    Grid(SvgGrid),
    /// A definitions container
    Defs,
}

/// An element of the diagram tree: a payload, an attribute list, a
/// transform, owned children, optional character content, and the bounding
/// box the finalize pass computes.
#[derive(Debug)]
pub struct SvgElement {
    /// The node-kind-specific payload
    pub ele_type: SvgElementType,
    /// The attribute list, in insertion order
    pub attributes: Vec<(NamespaceName, String)>,
    /// The transform into the parent's coordinates
    pub transform: Transform,
    /// The owned children, in order
    pub contents: Vec<SvgElement>,
    /// Character content
    pub characters: String,
    /// The bounding box, valid only after finalize
    pub bbox: BBox,
}

/// The union of the bounding boxes of a sequence of elements.
pub open spec fn union_boxes(s: Seq<SvgElement>) -> BBox
    decreases s.len(),
{
    if s.len() == 0 {
        BBox {
            x: crate::range::Range { min: 0i64, max: -1i64 },
            y: crate::range::Range { min: 0i64, max: -1i64 },
        }
    } else {
        bbox_union_of(union_boxes(s.drop_last()), s.last().bbox)
    }
}

/// A non-empty box shifted by a translation (saturating), any empty box
/// unchanged.
pub open spec fn shifted_box(b: BBox, dx: i64, dy: i64) -> BBox {
    if bbox_is_none(b) {
        b
    } else {
        BBox {
            x: crate::range::Range {
                min: sat64(b.x.min + dx) as i64,
                max: sat64(b.x.max + dx) as i64,
            },
            y: crate::range::Range {
                min: sat64(b.y.min + dy) as i64,
                max: sat64(b.y.max + dy) as i64,
            },
        }
    }
}

impl BBox {
    /// The box moved into a parent's coordinates by a transform: the four
    /// corners are transformed and their bounding box returned; an empty
    /// box stays empty.
    ///
    /// Under a pure translation the result is exactly the shifted box.
    pub fn transform(&self, t: &Transform) -> (r: BBox)
        ensures
            bbox_is_none(*self) ==> r == *self,
            (t.rotation as int) % 360_000_000int == 0 && t.scale == crate::fixed::FX_ONE ==> r
                == shifted_box(*self, t.translation.x, t.translation.y),
    {
        if self.is_none() {
            *self
        } else {
            let p0 = t.apply(Point::new(self.x.min, self.y.min));
            let p1 = t.apply(Point::new(self.x.max, self.y.min));
            let p2 = t.apply(Point::new(self.x.max, self.y.max));
            let p3 = t.apply(Point::new(self.x.min, self.y.max));
            let mut v: Vec<Point> = Vec::new();
            v.push(p0);
            v.push(p1);
            v.push(p2);
            v.push(p3);
            let r = BBox::of_points(&v);
            proof {
                if (t.rotation as int) % 360_000_000int == 0 && t.scale
                    == crate::fixed::FX_ONE {
                    lemma_sat_shift_monotone(
                        self.x.min as int,
                        self.x.max as int,
                        t.translation.x as int,
                    );
                    lemma_sat_shift_monotone(
                        self.y.min as int,
                        self.y.max as int,
                        t.translation.y as int,
                    );
                    assert(v@.drop_last() =~= seq![p0, p1, p2]);
                    assert(v@.drop_last().drop_last() =~= seq![p0, p1]);
                    assert(v@.drop_last().drop_last().drop_last() =~= seq![p0]);
                    assert(v@.drop_last().drop_last().drop_last().drop_last()
                        =~= Seq::<Point>::empty());
                    reveal_with_fuel(crate::bbox::bbox_of_points_spec, 5);
                    let none = BBox {
                        x: crate::range::Range { min: 0i64, max: -1i64 },
                        y: crate::range::Range { min: 0i64, max: -1i64 },
                    };
                    assert(crate::bbox::bbox_of_points_spec(v@) == bbox_extend_of(
                        bbox_extend_of(bbox_extend_of(bbox_extend_of(none, p0), p1), p2),
                        p3,
                    ));
                }
            }
            r
        }
    }
}

/// Shifting preserves the order of two scalars, under saturation.
proof fn lemma_sat_shift_monotone(lo: int, hi: int, d: int)
    requires
        lo <= hi,
    ensures
        sat64(lo + d) <= sat64(hi + d),
{
}

impl SvgSvg {
    /// A new document-root element.
    pub fn new() -> (r: SvgElement)
        ensures
            r.ele_type matches SvgElementType::Svg(_),
            fresh_element(r),
    {
        SvgElement::new(SvgElementType::Svg(SvgSvg {  }))
    }
}

impl SvgGroup {
    /// A new group element.
    pub fn new() -> (r: SvgElement)
        ensures
            r.ele_type matches SvgElementType::Group(_),
            fresh_element(r),
    {
        SvgElement::new(SvgElementType::Group(SvgGroup {  }))
    }
}

impl SvgPath {
    /// A new path element holding a curve path.
    pub fn new_path(bp: BezierPath, closed: bool) -> (r: SvgElement)
        ensures
            r.ele_type matches SvgElementType::Path(p) && p.path.elements@ == bp.elements@
                && p.closed == closed,
            fresh_element(r),
    {
        SvgElement::new(SvgElementType::Path(SvgPath { path: bp, closed }))
    }

    /// A new path element outlining a bounding box.
    ///
    /// A box of zero height is given a hair of height (one millionth), so
    /// that a degenerate box still gets a drawable outline.
    pub fn new_box(bbox: BBox) -> (r: SvgElement)
        ensures
            r.ele_type matches SvgElementType::Path(p) && p.closed,
            fresh_element(r),
            r.ele_type matches SvgElementType::Path(p) ==> outline_path(
                bbox,
                p.path.elements@,
            ),
    {
        let (c, w, h) = bbox.get_cwh();
        // a degenerate box still gets an outline: give it a hair of height
        let h = if h == 0 {
            1
        } else {
            h
        };
        let rect = Polygon::new_rect(w, h).translated(c);
        proof {
            assert(rect == box_polygon(bbox));
        }
        SvgPath::new_polygon(rect, true)
    }

    /// A new path element from a polygon.
    pub fn new_polygon(p: Polygon, closed: bool) -> (r: SvgElement)
        requires
            p.vertices == 0 ==> 0 <= p.size && -360_000_000 <= p.rotation <= i64::MAX
                - 360_000_000 && p.eccentricity > i64::MIN,
            p.vertices >= 2 ==> 0 <= p.rounding,
        ensures
            r.ele_type matches SvgElementType::Path(q) && q.closed == closed,
            fresh_element(r),
            p.vertices >= 2 && p.rounding == 0 ==> (r.ele_type matches SvgElementType::Path(
                q,
            ) ==> exists|pts: Seq<Point>|
                #[trigger] crate::polygon::polygon_corners(p, pts) && q.path.elements@
                    == crate::bezier_path::lines_of(pts)),
    {
        SvgPath::new_path(p.as_paths(), closed)
    }
}

impl SvgGrid {
    /// A new grid element over a region with the given line spacings.
    pub fn new(bbox: BBox, spacings: (i64, i64)) -> (r: SvgElement)
        ensures
            r.ele_type matches SvgElementType::Grid(g) && g.bbox == bbox && g.spacings
                == spacings,
            fresh_element(r),
    {
        SvgElement::new(SvgElementType::Grid(SvgGrid { spacings, bbox }))
    }
}

/// A freshly constructed element: no attributes, the identity transform,
/// no children, no characters, an empty box.
pub open spec fn fresh_element(e: SvgElement) -> bool {
    &&& e.attributes@.len() == 0
    &&& e.transform == (Transform {
        translation: Point { x: 0i64, y: 0i64 },
        rotation: 0i64,
        scale: crate::fixed::FX_ONE,
    })
    &&& e.contents@.len() == 0
    &&& e.characters@.len() == 0
    &&& bbox_is_none(e.bbox)
}

impl SvgElement {
    /// A new element with the given payload and nothing else.
    pub fn new(ele_type: SvgElementType) -> (r: SvgElement)
        ensures
            fresh_element(r),
            r.ele_type == ele_type,
    {
        SvgElement {
            ele_type,
            attributes: Vec::new(),
            transform: Transform::identity(),
            contents: Vec::new(),
            characters: String::new(),
            bbox: BBox::none(),
        }
    }

    /// The markup name of the element: `svg`, `g` or `path`.
    pub fn ns_name(&self) -> (r: NamespaceName)
        ensures
            r.ns is None,
            self.ele_type matches SvgElementType::Svg(_) ==> r.name@ == ("svg")@,
            self.ele_type matches SvgElementType::Group(_) ==> r.name@ == ("g")@,
            self.ele_type matches SvgElementType::Path(_) ==> r.name@ == ("path")@,
            self.ele_type matches SvgElementType::Grid(_) ==> r.name@ == ("path")@,
            self.ele_type matches SvgElementType::Defs ==> r.name@ == ("defs")@,
    {
        match &self.ele_type {
            SvgElementType::Svg(_) => NamespaceName::local("svg"),
            SvgElementType::Group(_) => NamespaceName::local("g"),
            SvgElementType::Path(_) => NamespaceName::local("path"),
            SvgElementType::Grid(_) => NamespaceName::local("path"),
            SvgElementType::Defs => NamespaceName::local("defs"),
        }
    }

    /// The attribute list, in insertion order.
    pub fn attributes(&self) -> (r: &Vec<(NamespaceName, String)>)
        ensures
            r == &self.attributes,
    {
        &self.attributes
    }

    /// The character content.
    pub fn characters(&self) -> (r: &String)
        ensures
            r == &self.characters,
    {
        &self.characters
    }

    /// The children, in order.
    pub fn contents(&self) -> (r: &Vec<SvgElement>)
        ensures
            r == &self.contents,
    {
        &self.contents
    }

    /// The transform into the parent's coordinates.
    pub fn transform(&self) -> (r: &Transform)
        ensures
            r == &self.transform,
    {
        &self.transform
    }

    /// The bounding box computed by the finalize pass.
    pub fn bbox(&self) -> (r: BBox)
        ensures
            r == self.bbox,
    {
        self.bbox
    }

    /// Append an attribute with an optional namespace prefix.
    pub fn add_attribute(&mut self, name: &str, prefix: Option<&str>, value: &str)
        ensures
            final(self).attributes@.len() == old(self).attributes@.len() + 1,
            forall|i: int| 0 <= i < old(self).attributes@.len() ==> final(self).attributes@[i]
                == old(self).attributes@[i],
            ({
                let last = final(self).attributes@.last();
                &&& last.0.name@ == name@
                &&& (last.0.ns is Some <==> prefix is Some)
                &&& (last.0.ns matches Some(p) ==> prefix matches Some(q) && p@ == q@)
                &&& last.1@ == value@
            }),
            unchanged_but_attributes(*old(self), *final(self)),
    {
        let ns_name = NamespaceName::new(name, prefix);
        self.attributes.push((ns_name, value.to_owned()));
    }

    /// Append to the character content.
    pub fn push_string(&mut self, s: &str)
        ensures
            final(self).characters@ == old(self).characters@ + s@,
            final(self).attributes@ == old(self).attributes@,
            final(self).transform == old(self).transform,
            final(self).contents == old(self).contents,
            final(self).ele_type == old(self).ele_type,
            final(self).bbox == old(self).bbox,
    {
        self.characters.append(s);
    }

    /// Compose a transform in front of this element's transform: the
    /// rotations add and the scales multiply.
    pub fn apply_transform(&mut self, transform: &Transform)
        ensures
            final(self).transform.rotation == sat64(
                transform.rotation + old(self).transform.rotation,
            ),
            final(self).transform.scale == crate::fixed::fx_mul_spec(
                transform.scale as int,
                old(self).transform.scale as int,
            ),
            final(self).attributes@ == old(self).attributes@,
            final(self).characters@ == old(self).characters@,
            final(self).contents == old(self).contents,
            final(self).ele_type == old(self).ele_type,
            final(self).bbox == old(self).bbox,
    {
        self.transform = transform.apply_to_transform(&self.transform);
    }

    /// Compose a transform behind this element's transform: the rotations
    /// add and the scales multiply.
    pub fn transform_inner(&mut self, transform: &Transform)
        ensures
            final(self).transform.rotation == sat64(
                old(self).transform.rotation + transform.rotation,
            ),
            final(self).transform.scale == crate::fixed::fx_mul_spec(
                old(self).transform.scale as int,
                transform.scale as int,
            ),
            final(self).attributes@ == old(self).attributes@,
            final(self).characters@ == old(self).characters@,
            final(self).contents == old(self).contents,
            final(self).ele_type == old(self).ele_type,
            final(self).bbox == old(self).bbox,
    {
        self.transform = self.transform.apply_to_transform(transform);
    }

    /// Append a size attribute, rendered with four decimal places.
    pub fn add_size(&mut self, name: &str, value: i64)
        ensures
            final(self).attributes@.len() == old(self).attributes@.len() + 1,
            forall|i: int| 0 <= i < old(self).attributes@.len() ==> final(self).attributes@[i]
                == old(self).attributes@[i],
            final(self).attributes@.last().0.name@ == name@,
            final(self).attributes@.last().0.ns is None,
            final(self).attributes@.last().1@ == fixed4_digits(value as int),
            unchanged_but_attributes(*old(self), *final(self)),
    {
        let text = crate::fmt::fixed4_to_string(value);
        self.add_attribute(name, None, text.as_str());
    }

    /// Append a colour attribute, rendered as the colour's SVG text.
    pub fn add_color(&mut self, attr_name: &str, color: &Color)
        ensures
            final(self).attributes@.len() == old(self).attributes@.len() + 1,
            forall|i: int| 0 <= i < old(self).attributes@.len() ==> final(self).attributes@[i]
                == old(self).attributes@[i],
            final(self).attributes@.last().0.name@ == attr_name@,
            final(self).attributes@.last().0.ns is None,
            final(self).attributes@.last().1@ == crate::color_database::color_text(*color),
            unchanged_but_attributes(*old(self), *final(self)),
    {
        let text = color.as_str();
        self.add_attribute(attr_name, None, text.as_str());
    }

    /// Append `marker-start`, `marker-mid` and `marker-end` attributes for
    /// whichever of the three marker names are present.
    pub fn add_markers(&mut self, markers: &(Option<String>, Option<String>, Option<String>))
        ensures
            final(self).attributes@.len() == old(self).attributes@.len() + (if markers.0
                is Some {
                1int
            } else {
                0int
            }) + (if markers.1 is Some {
                1int
            } else {
                0int
            }) + (if markers.2 is Some {
                1int
            } else {
                0int
            }),
            forall|i: int| 0 <= i < old(self).attributes@.len() ==> final(self).attributes@[i]
                == old(self).attributes@[i],
            unchanged_but_attributes(*old(self), *final(self)),
    {
        if let Some(s) = &markers.0 {
            let v = marker_url(s);
            self.add_attribute("marker-start", None, v.as_str());
        }
        if let Some(s) = &markers.1 {
            let v = marker_url(s);
            self.add_attribute("marker-mid", None, v.as_str());
        }
        if let Some(s) = &markers.2 {
            let v = marker_url(s);
            self.add_attribute("marker-end", None, v.as_str());
        }
    }

    /// Append a child element.
    pub fn push_content(&mut self, e: SvgElement)
        ensures
            final(self).contents@ == old(self).contents@.push(e),
            final(self).attributes@ == old(self).attributes@,
            final(self).characters@ == old(self).characters@,
            final(self).transform == old(self).transform,
            final(self).ele_type == old(self).ele_type,
            final(self).bbox == old(self).bbox,
    {
        self.contents.push(e);
    }
}

/// Everything of an element except its attribute list is unchanged.
pub open spec fn unchanged_but_attributes(a: SvgElement, b: SvgElement) -> bool {
    &&& b.transform == a.transform
    &&& b.characters@ == a.characters@
    &&& b.contents == a.contents
    &&& b.ele_type == a.ele_type
    &&& b.bbox == a.bbox
}

/// The text of a point in path data: the two coordinates with four decimal
/// places, separated by a comma.
pub open spec fn pt_text(p: Point) -> Seq<char> {
    fixed4_digits(p.x as int) + (",")@ + fixed4_digits(p.y as int)
}

/// The path-data text of one segment: its target point, preceded by its
/// control points for a curve.
pub open spec fn seg_text(b: Bezier) -> Seq<char> {
    match b {
        Bezier::Linear { p1, .. } => (" L ")@ + pt_text(p1),
        Bezier::Quadratic { c, p1, .. } => (" Q ")@ + pt_text(c) + (" ")@ + pt_text(p1),
        Bezier::Cubic { c0, c1, p1, .. } => (" C ")@ + pt_text(c0) + (" ")@ + pt_text(c1) + (
        " ")@ + pt_text(p1),
    }
}

/// The path-data text of a sequence of segments.
pub open spec fn segs_text(s: Seq<Bezier>) -> Seq<char>
    decreases s.len(),
{
    if s.len() == 0 {
        Seq::empty()
    } else {
        segs_text(s.drop_last()) + seg_text(s.last())
    }
}

/// The `d` attribute of a path: a move to the start point, each segment in
/// order, and a closing `z` when the path is closed.
pub open spec fn path_d_text(s: Seq<Bezier>, closed: bool) -> Seq<char> {
    let start = if s.len() == 0 {
        Point { x: 0i64, y: 0i64 }
    } else {
        crate::bezier::start_of(s[0])
    };
    ("M ")@ + pt_text(start) + segs_text(s) + (if closed {
        (" z")@
    } else {
        Seq::<char>::empty()
    })
}

/// Append the text of a point to a string.
fn push_pt(out: &mut String, p: Point)
    ensures
        final(out)@ == old(out)@ + pt_text(p),
{
    push_fixed4(out, p.x);
    out.append(",");
    push_fixed4(out, p.y);
    proof {
        assert(out@ =~= old(out)@ + pt_text(p));
    }
}

impl SvgPath {
    /// The bounding box of the path, from the points of its segments
    /// rendered down to a straightness of a tenth; it holds at least the
    /// start and end point of every segment.
    pub fn payload_bbox(&self) -> (r: BBox)
        ensures
            self.path.elements@.len() == 0 ==> crate::bbox::bbox_is_none(r),
            forall|i: int| 0 <= i < self.path.elements@.len() ==> {
                let b = #[trigger] self.path.elements@[i];
                &&& crate::bbox::range_contains_box(
                    r,
                    crate::bezier::start_of(b).x as int,
                    crate::bezier::start_of(b).y as int,
                )
                &&& crate::bbox::range_contains_box(
                    r,
                    crate::bezier::end_of(b).x as int,
                    crate::bezier::end_of(b).y as int,
                )
            },
    {
        let mut bbox = BBox::none();
        let segs = self.path.iter_beziers();
        let n = segs.len();
        let mut i: usize = 0;
        while i < n
            invariant
                i <= n,
                n == self.path.elements@.len(),
                self.path.elements@ == segs@,
                n == 0 ==> crate::bbox::bbox_is_none(bbox),
                forall|k: int| 0 <= k < i ==> {
                    let b = #[trigger] self.path.elements@[k];
                    &&& crate::bbox::range_contains_box(
                        bbox,
                        crate::bezier::start_of(b).x as int,
                        crate::bezier::start_of(b).y as int,
                    )
                    &&& crate::bbox::range_contains_box(
                        bbox,
                        crate::bezier::end_of(b).x as int,
                        crate::bezier::end_of(b).y as int,
                    )
                },
            decreases n - i,
        {
            let seg = self.path.iter_beziers()[i];
            let pts = seg.as_points(100_000);
            let m = pts.len();
            let mut j: usize = 0;
            while j < m
                invariant
                    j <= m,
                    m == pts@.len(),
                    m >= 2,
                    pts@[0] == crate::bezier::start_of(seg),
                    pts@.last() == crate::bezier::end_of(seg),
                    j > 0 ==> crate::bbox::range_contains_box(
                        bbox,
                        pts@[0].x as int,
                        pts@[0].y as int,
                    ),
                    forall|k: int| 0 <= k < i ==> {
                        let b = #[trigger] self.path.elements@[k];
                        &&& crate::bbox::range_contains_box(
                            bbox,
                            crate::bezier::start_of(b).x as int,
                            crate::bezier::start_of(b).y as int,
                        )
                        &&& crate::bbox::range_contains_box(
                            bbox,
                            crate::bezier::end_of(b).x as int,
                            crate::bezier::end_of(b).y as int,
                        )
                    },
                    j == m ==> crate::bbox::range_contains_box(
                        bbox,
                        pts@.last().x as int,
                        pts@.last().y as int,
                    ),
                decreases m - j,
            {
                proof {
                    crate::bbox::lemma_bbox_extend(bbox, pts@[j as int]);
                }
                bbox = bbox.extend_to(pts[j]);
                j = j + 1;
            }
            i = i + 1;
        }
        bbox
    }

    /// Append the path's `d` attribute.
    #[verifier::rlimit(100)]
    pub fn push_attributes(&self, attrs: &mut Vec<(NamespaceName, String)>)
        ensures
            final(attrs)@.len() == old(attrs)@.len() + 1,
            forall|i: int| 0 <= i < old(attrs)@.len() ==> final(attrs)@[i] == old(attrs)@[i],
            final(attrs)@.last().0.name@ == ("d")@,
            final(attrs)@.last().0.ns is None,
            final(attrs)@.last().1@ == path_d_text(self.path.elements@, self.closed),
    {
        let mut r = String::new();
        r.append("M ");
        push_pt(&mut r, self.path.get_pt(0));
        let segs = self.path.iter_beziers();
        let n = segs.len();
        let mut i: usize = 0;
        while i < n
            invariant
                i <= n,
                n == self.path.elements@.len(),
                r@ == ("M ")@ + pt_text(
                    if n == 0 {
                        Point { x: 0i64, y: 0i64 }
                    } else {
                        crate::bezier::start_of(self.path.elements@[0])
                    },
                ) + segs_text(self.path.elements@.take(i as int)),
            decreases n - i,
        {
            proof {
                assert(self.path.elements@.take(i + 1).drop_last() =~= self.path.elements@.take(
                    i as int,
                ));
                assert(self.path.elements@.take(i + 1).last() == self.path.elements@[i as int]);
            }
            let b = self.path.iter_beziers()[i];
            match b {
                Bezier::Linear { p1, .. } => {
                    r.append(" L ");
                    push_pt(&mut r, p1);
                },
                Bezier::Quadratic { c, p1, .. } => {
                    r.append(" Q ");
                    push_pt(&mut r, c);
                    r.append(" ");
                    push_pt(&mut r, p1);
                },
                Bezier::Cubic { c0, c1, p1, .. } => {
                    r.append(" C ");
                    push_pt(&mut r, c0);
                    r.append(" ");
                    push_pt(&mut r, c1);
                    r.append(" ");
                    push_pt(&mut r, p1);
                },
            }
            proof {
                assert(r@ =~= ("M ")@ + pt_text(
                    if n == 0 {
                        Point { x: 0i64, y: 0i64 }
                    } else {
                        crate::bezier::start_of(self.path.elements@[0])
                    },
                ) + segs_text(self.path.elements@.take(i + 1)));
            }
            i = i + 1;
        }
        if self.closed {
            r.append(" z");
        }
        proof {
            assert(self.path.elements@.take(n as int) =~= self.path.elements@);
            assert(r@ =~= path_d_text(self.path.elements@, self.closed));
        }
        attrs.push((NamespaceName::local("d"), r));
    }
}

/// The text of one vertical grid line at `i` times the X spacing.
pub open spec fn grid_x_line(i: int, sx: i64, y0: i64, h: i64) -> Seq<char> {
    ("M ")@ + fixed4_digits(sat64(i * sx)) + (",")@ + fixed4_digits(y0 as int) + (" v ")@
        + fixed4_digits(h as int) + (" ")@
}

/// The text of `count` vertical grid lines starting at index `base`.
pub open spec fn grid_x_lines(base: int, count: nat, sx: i64, y0: i64, h: i64) -> Seq<char>
    decreases count,
{
    if count == 0 {
        Seq::empty()
    } else {
        grid_x_lines(base, (count - 1) as nat, sx, y0, h) + grid_x_line(
            base + count - 1,
            sx,
            y0,
            h,
        )
    }
}

/// The text of one horizontal grid line at `i` times the Y spacing.
pub open spec fn grid_y_line(i: int, sy: i64, x0: i64, w: i64) -> Seq<char> {
    ("M ")@ + fixed4_digits(x0 as int) + (",")@ + fixed4_digits(sat64(i * sy)) + (" h ")@
        + fixed4_digits(w as int) + (" ")@
}

/// The text of `count` horizontal grid lines starting at index `base`.
pub open spec fn grid_y_lines(base: int, count: nat, sy: i64, x0: i64, w: i64) -> Seq<char>
    decreases count,
{
    if count == 0 {
        Seq::empty()
    } else {
        grid_y_lines(base, (count - 1) as nat, sy, x0, w) + grid_y_line(
            base + count - 1,
            sy,
            x0,
            w,
        )
    }
}

/// How many grid lines one axis gets: one per integer multiple of the
/// spacing from just below the low bound to just above the high bound;
/// none when that makes fewer than three, or when the spacing is not
/// positive.
pub open spec fn grid_count(lo: i64, hi: i64, spacing: i64) -> nat {
    if spacing <= 0 {
        0
    } else {
        let imin = lo as int / spacing as int;
        let imax = hi as int / spacing as int + 1;
        if imax - imin >= 2 {
            (imax - imin + 1) as nat
        } else {
            0
        }
    }
}

/// The `d` attribute of a grid over a region: the vertical lines, then the
/// horizontal lines; an axis with a non-positive spacing gets none.
pub open spec fn grid_d_text(g_bbox: BBox, sx: i64, sy: i64) -> Seq<char> {
    let h = sat64(g_bbox.y.max - g_bbox.y.min) as i64;
    let w = sat64(g_bbox.x.max - g_bbox.x.min) as i64;
    (if sx <= 0 {
        Seq::<char>::empty()
    } else {
        grid_x_lines(
            g_bbox.x.min as int / sx as int,
            grid_count(g_bbox.x.min, g_bbox.x.max, sx),
            sx,
            g_bbox.y.min,
            h,
        )
    }) + (if sy <= 0 {
        Seq::<char>::empty()
    } else {
        grid_y_lines(
            g_bbox.y.min as int / sy as int,
            grid_count(g_bbox.y.min, g_bbox.y.max, sy),
            sy,
            g_bbox.x.min,
            w,
        )
    })
}

impl SvgGrid {
    /// Append the grid's `d` attribute: a vertical line per integer
    /// multiple of the X spacing across the region and a horizontal line
    /// per multiple of the Y spacing, each axis drawn only when it gets at
    /// least three lines.
    #[verifier::rlimit(100)]
    pub fn push_attributes(&self, attrs: &mut Vec<(NamespaceName, String)>)
        ensures
            final(attrs)@.len() == old(attrs)@.len() + 1,
            forall|i: int| 0 <= i < old(attrs)@.len() ==> final(attrs)@[i] == old(attrs)@[i],
            final(attrs)@.last().0.name@ == ("d")@,
            final(attrs)@.last().0.ns is None,
            final(attrs)@.last().1@ == grid_d_text(self.bbox, self.spacings.0, self.spacings.1),
    {
        let sx = self.spacings.0;
        let sy = self.spacings.1;
        let h = crate::fixed::sat_sub(self.bbox.y.max, self.bbox.y.min);
        let w = crate::fixed::sat_sub(self.bbox.x.max, self.bbox.x.min);
        let mut r = String::new();
        if sx > 0 {
            let xbase = crate::fixed::floor_div(self.bbox.x.min, sx);
            let xcount = grid_count_exec(self.bbox.x.min, self.bbox.x.max, sx);
            let mut i: u128 = 0;
            while i < xcount
                invariant
                    i <= xcount,
                    0 < sx,
                    xcount == grid_count(self.bbox.x.min, self.bbox.x.max, sx),
                    xcount > 0 ==> xbase + xcount == self.bbox.x.max as int / sx as int + 2,
                    xbase == self.bbox.x.min as int / sx as int,
                    h == sat64(self.bbox.y.max - self.bbox.y.min),
                    r@ == grid_x_lines(xbase as int, i as nat, sx, self.bbox.y.min, h),
                decreases xcount - i,
            {
                proof {
                    lemma_div_i64_range(self.bbox.x.max as int, sx as int);
                    lemma_grid_coord_bound(xbase as int + i as int, sx as int);
                }
                let coord = crate::fixed::sat_narrow(
                    (xbase as i128 + i as i128) * (sx as i128),
                );
                r.append("M ");
                push_fixed4(&mut r, coord);
                r.append(",");
                push_fixed4(&mut r, self.bbox.y.min);
                r.append(" v ");
                push_fixed4(&mut r, h);
                r.append(" ");
                proof {
                    assert(r@ =~= grid_x_lines(
                        xbase as int,
                        (i + 1) as nat,
                        sx,
                        self.bbox.y.min,
                        h,
                    ));
                }
                i = i + 1;
            }
        }
        let ghost xpart = r@;
        if sy > 0 {
            let ybase = crate::fixed::floor_div(self.bbox.y.min, sy);
            let ycount = grid_count_exec(self.bbox.y.min, self.bbox.y.max, sy);
            let mut j: u128 = 0;
            while j < ycount
                invariant
                    j <= ycount,
                    0 < sy,
                    ycount == grid_count(self.bbox.y.min, self.bbox.y.max, sy),
                    ycount > 0 ==> ybase + ycount == self.bbox.y.max as int / sy as int + 2,
                    ybase == self.bbox.y.min as int / sy as int,
                    w == sat64(self.bbox.x.max - self.bbox.x.min),
                    r@ == xpart + grid_y_lines(ybase as int, j as nat, sy, self.bbox.x.min, w),
                decreases ycount - j,
            {
                proof {
                    lemma_div_i64_range(self.bbox.y.max as int, sy as int);
                    lemma_grid_coord_bound(ybase as int + j as int, sy as int);
                }
                let coord = crate::fixed::sat_narrow(
                    (ybase as i128 + j as i128) * (sy as i128),
                );
                r.append("M ");
                push_fixed4(&mut r, self.bbox.x.min);
                r.append(",");
                push_fixed4(&mut r, coord);
                r.append(" h ");
                push_fixed4(&mut r, w);
                r.append(" ");
                proof {
                    assert(r@ =~= xpart + grid_y_lines(
                        ybase as int,
                        (j + 1) as nat,
                        sy,
                        self.bbox.x.min,
                        w,
                    ));
                }
                j = j + 1;
            }
        }
        proof {
            assert(r@ =~= grid_d_text(self.bbox, sx, sy));
        }
        attrs.push((NamespaceName::local("d"), r));
    }
}

/// A grid line index times its spacing stays inside the `i128` range.
proof fn lemma_grid_coord_bound(k: int, s: int)
    requires
        -0x8000_0000_0000_0000 <= k <= 0x8000_0000_0000_0001,
        0 < s <= 0x7fff_ffff_ffff_ffff,
    ensures
        -0x8000_0000_0000_0000_0000_0000_0000_0000 < k * s
            < 0x8000_0000_0000_0000_0000_0000_0000_0000,
{
    assert(-0x8000_0000_0000_0000_0000_0000_0000_0000 < k * s
        < 0x8000_0000_0000_0000_0000_0000_0000_0000) by (nonlinear_arith)
        requires
            -0x8000_0000_0000_0000 <= k <= 0x8000_0000_0000_0001,
            0 < s <= 0x7fff_ffff_ffff_ffff,
    ;
}

/// Euclidean division of an `i64`-ranged value by a positive divisor stays
/// in the `i64` range.
proof fn lemma_div_i64_range(a: int, b: int)
    requires
        -0x8000_0000_0000_0000 <= a <= 0x7fff_ffff_ffff_ffff,
        b >= 1,
    ensures
        -0x8000_0000_0000_0000 <= a / b <= 0x7fff_ffff_ffff_ffff,
{
    vstd::arithmetic::div_mod::lemma_fundamental_div_mod(a, b);
    let q = a / b;
    let rem = a % b;
    assert(-0x8000_0000_0000_0000 <= q <= 0x7fff_ffff_ffff_ffff) by (nonlinear_arith)
        requires
            a == b * q + rem,
            0 <= rem < b,
            b >= 1,
            -0x8000_0000_0000_0000 <= a <= 0x7fff_ffff_ffff_ffff,
    ;
}

/// The number of grid lines an axis gets, and the index just past the last
/// line when there are any.
fn grid_count_exec(lo: i64, hi: i64, spacing: i64) -> (r: u128)
    requires
        spacing > 0,
    ensures
        r == grid_count(lo, hi, spacing),
        r > 0 ==> (lo as int / spacing as int) + r == (hi as int / spacing as int) + 2,
{
    let imin: i64 = crate::fixed::floor_div(lo, spacing);
    let imax_base: i64 = crate::fixed::floor_div(hi, spacing);
    let imax: i128 = imax_base as i128 + 1;
    let diff: i128 = imax - imin as i128;
    if diff >= 2 {
        (diff + 1) as u128
    } else {
        0
    }
}

/// Two payloads of the same kind with the same payload data.
pub open spec fn same_type(a: SvgElementType, b: SvgElementType) -> bool {
    match a {
        SvgElementType::Svg(_) => b matches SvgElementType::Svg(_),
        SvgElementType::Group(_) => b matches SvgElementType::Group(_),
        SvgElementType::Path(p) => b matches SvgElementType::Path(q) && q.path.elements@
            == p.path.elements@ && q.closed == p.closed,
        SvgElementType::Grid(g) => b matches SvgElementType::Grid(h) && h.bbox == g.bbox
            && h.spacings == g.spacings,
        SvgElementType::Defs => b matches SvgElementType::Defs,
    }
}

/// Copy a string.
fn clone_string(s: &String) -> (r: String)
    ensures
        r == *s,
{
    s.clone()
}

/// Copy a vector of segments.
fn copy_beziers(v: &Vec<Bezier>) -> (r: Vec<Bezier>)
    ensures
        r@ == v@,
{
    let mut r: Vec<Bezier> = Vec::new();
    let mut i: usize = 0;
    while i < v.len()
        invariant
            i <= v@.len(),
            r@ == v@.take(i as int),
        decreases v@.len() - i,
    {
        r.push(v[i]);
        proof {
            assert(r@ =~= v@.take(i + 1));
        }
        i = i + 1;
    }
    proof {
        assert(v@.take(v@.len() as int) =~= v@);
    }
    r
}

/// Copy an attribute list.
fn copy_attributes(v: &Vec<(NamespaceName, String)>) -> (r: Vec<(NamespaceName, String)>)
    ensures
        r@.len() == v@.len(),
        forall|i: int| 0 <= i < v@.len() ==> r@[i] == v@[i],
{
    let mut r: Vec<(NamespaceName, String)> = Vec::new();
    let mut i: usize = 0;
    while i < v.len()
        invariant
            i <= v@.len(),
            r@.len() == i,
            forall|j: int| 0 <= j < i ==> r@[j] == v@[j],
        decreases v@.len() - i,
    {
        let entry = &v[i];
        let ns = match &entry.0.ns {
            Some(p) => Some(clone_string(p)),
            None => None,
        };
        let name = NamespaceName { name: clone_string(&entry.0.name), ns };
        r.push((name, clone_string(&entry.1)));
        i = i + 1;
    }
    r
}

/// Copy a payload.
fn copy_ele_type(t: &SvgElementType) -> (r: SvgElementType)
    ensures
        same_type(*t, r),
        same_type(r, *t),
{
    match t {
        SvgElementType::Svg(_) => SvgElementType::Svg(SvgSvg {  }),
        SvgElementType::Group(_) => SvgElementType::Group(SvgGroup {  }),
        SvgElementType::Path(p) => SvgElementType::Path(
            SvgPath { path: BezierPath { elements: copy_beziers(&p.path.elements) }, closed: p.closed },
        ),
        SvgElementType::Grid(g) => SvgElementType::Grid(
            SvgGrid { spacings: g.spacings, bbox: g.bbox },
        ),
        SvgElementType::Defs => SvgElementType::Defs,
    }
}

/// The bounding box a payload contributes: nothing for a root or a group,
/// the sampled curve points for a path, the configured region for a grid.
fn type_bbox(t: &SvgElementType) -> (r: BBox)
    ensures
        *t matches SvgElementType::Svg(_) ==> bbox_is_none(r),
        *t matches SvgElementType::Group(_) ==> bbox_is_none(r),
        *t matches SvgElementType::Grid(g) ==> r == g.bbox,
        *t matches SvgElementType::Defs ==> bbox_is_none(r),
        *t matches SvgElementType::Path(p) ==> covers_path_endpoints(r, p.path.elements@),
        *t matches SvgElementType::Path(p) ==> (p.path.elements@.len() == 0 ==> bbox_is_none(
            r,
        )),
{
    match t {
        SvgElementType::Svg(_) => BBox::none(),
        SvgElementType::Group(_) => BBox::none(),
        SvgElementType::Path(p) => p.payload_bbox(),
        SvgElementType::Grid(g) => g.bbox,
        SvgElementType::Defs => BBox::none(),
    }
}

/// The attribute list as text: for each attribute its name, its optional
/// namespace prefix and its value.
pub open spec fn attr_views(s: Seq<(NamespaceName, String)>) -> Seq<
    (Seq<char>, Option<Seq<char>>, Seq<char>),
> {
    s.map_values(|a: (NamespaceName, String)| (a.0.name@, a.0.ns_view(), a.1@))
}

/// The transform attribute the finalize pass bakes: one entry with the
/// transform's attribute text, or nothing for the identity (whose text is
/// empty).
pub open spec fn transform_attr_part(t: Transform) -> Seq<
    (Seq<char>, Option<Seq<char>>, Seq<char>),
> {
    if crate::transform::svg_attr_spec(t).len() == 0 {
        Seq::empty()
    } else {
        seq![(("transform")@, Option::<Seq<char>>::None, crate::transform::svg_attr_spec(t))]
    }
}

/// The payload attribute the finalize pass bakes: the `d` path data for a
/// path or a grid, nothing for the other kinds.
pub open spec fn payload_attr_part(t: SvgElementType) -> Seq<
    (Seq<char>, Option<Seq<char>>, Seq<char>),
> {
    match t {
        SvgElementType::Path(p) => seq![
            (("d")@, Option::<Seq<char>>::None, path_d_text(p.path.elements@, p.closed)),
        ],
        SvgElementType::Grid(g) => seq![
            (
                ("d")@,
                Option::<Seq<char>>::None,
                grid_d_text(g.bbox, g.spacings.0, g.spacings.1),
            ),
        ],
        _ => Seq::empty(),
    }
}

/// A box holding the start and end point of every segment of a path.
pub open spec fn covers_path_endpoints(pb: BBox, s: Seq<Bezier>) -> bool {
    forall|i: int| 0 <= i < s.len() ==> {
        let b = #[trigger] s[i];
        &&& crate::bbox::range_contains_box(
            pb,
            crate::bezier::start_of(b).x as int,
            crate::bezier::start_of(b).y as int,
        )
        &&& crate::bbox::range_contains_box(
            pb,
            crate::bezier::end_of(b).x as int,
            crate::bezier::end_of(b).y as int,
        )
    }
}

/// The polygon a box outline is built from: a four-gon whose corners sit
/// on half the box's width and height about its centre, with no rotation
/// and no rounding (a zero height becomes one millionth, so a degenerate
/// box still draws).
pub open spec fn box_polygon(b: BBox) -> Polygon {
    let cx = (b.x.min + b.x.max) / 2;
    let cy = (b.y.min + b.y.max) / 2;
    let w = if b.x.min > b.x.max {
        0int
    } else {
        sat64(b.x.max - b.x.min)
    };
    let h0 = if b.y.min > b.y.max {
        0int
    } else {
        sat64(b.y.max - b.y.min)
    };
    let h = if h0 == 0 {
        1int
    } else {
        h0
    };
    Polygon {
        center: Point { x: cx as i64, y: cy as i64 },
        vertices: 4usize,
        size: crate::fixed::fx_div_spec(h, crate::polygon::FX_SQRT2 as int) as i64,
        stellate_size: 0i64,
        eccentricity: crate::fixed::fx_div_spec(w, h) as i64,
        rotation: 0i64,
        rounding: 0i64,
    }
}

/// A path that outlines a box: the unrounded chain of the four corner
/// points of the box's polygon, each placed by the polygon generator.
pub open spec fn outline_path(b: BBox, s: Seq<Bezier>) -> bool {
    exists|pts: Seq<Point>|
        #[trigger] crate::polygon::polygon_corners(box_polygon(b), pts) && s
            == crate::bezier_path::lines_of(pts)
}

/// The box a returned outline node draws: its path outlines some local
/// box, and under a pure translation that box is the element's own
/// finalized box shifted back into local coordinates.
pub open spec fn outline_box_of(o: SvgElement, n: SvgElement, x: SvgElement) -> bool {
    let tr_only = (o.transform.rotation as int) % 360_000_000int == 0 && o.transform.scale
        == crate::fixed::FX_ONE;
    match x.ele_type {
        SvgElementType::Path(p) => exists|b: BBox|
            #[trigger] outline_path(b, p.path.elements@) && (tr_only ==> n.bbox
                == shifted_box(b, o.transform.translation.x, o.transform.translation.y)),
        _ => false,
    }
}

/// The outline node the finalize pass hands to its caller under transform
/// `t`: a closed path with an empty box, no children and no characters,
/// whose attributes are no fill, the configured stroke colour and width,
/// the transform's attribute when it is not the identity, and its own path
/// data.
pub open spec fn outline_node(cfg: SvgConfig, t: Transform, x: SvgElement) -> bool {
    match x.ele_type {
        SvgElementType::Path(p) => {
            &&& p.closed
            &&& bbox_is_none(x.bbox)
            &&& x.contents@.len() == 0
            &&& x.characters@.len() == 0
            &&& match cfg.show_content_rectangles {
                Some(pair) => attr_views(x.attributes@) == seq![
                    (("fill")@, Option::<Seq<char>>::None, ("none")@),
                    (
                        ("stroke")@,
                        Option::<Seq<char>>::None,
                        crate::color_database::color_text(pair.1),
                    ),
                    (
                        ("stroke-width")@,
                        Option::<Seq<char>>::None,
                        fixed4_digits(pair.0 as int),
                    ),
                ] + transform_attr_part(t) + seq![
                    (
                        ("d")@,
                        Option::<Seq<char>>::None,
                        path_d_text(p.path.elements@, p.closed),
                    ),
                ],
                None => true,
            }
        },
        _ => false,
    }
}

/// What the finalize pass makes of an element: the payload, transform and
/// characters are kept; every child is finalized in place, with the
/// children's outline nodes (when content rectangles are on) appended
/// after them in child order; the baked attributes follow the old ones;
/// and under a pure translation the bounding box is the shifted union of
/// the children's boxes and the payload's own contribution.
pub open spec fn finalized_form(cfg: SvgConfig, o: SvgElement, n: SvgElement) -> bool
    decreases o,
{
    let on = o.contents@.len() as int;
    let tr_only = (o.transform.rotation as int) % 360_000_000int == 0 && o.transform.scale
        == crate::fixed::FX_ONE;
    let dx = o.transform.translation.x;
    let dy = o.transform.translation.y;
    &&& same_type(o.ele_type, n.ele_type)
    &&& n.transform == o.transform
    &&& n.characters@ == o.characters@
    &&& (cfg.show_content_rectangles is Some ==> n.contents@.len() == 2 * on)
    &&& (cfg.show_content_rectangles is None ==> n.contents@.len() == on)
    &&& (forall|i: int| 0 <= i < on ==> finalized_form(
        cfg,
        o.contents@[i],
        #[trigger] n.contents@[i],
    ))
    &&& (forall|i: int| 0 <= i < on && cfg.show_content_rectangles is Some ==> outline_node(
        cfg,
        (#[trigger] o.contents@[i]).transform,
        n.contents@[on + i],
    ))
    &&& attr_views(n.attributes@) == attr_views(o.attributes@) + transform_attr_part(
        o.transform,
    ) + payload_attr_part(o.ele_type)
    &&& (o.ele_type matches SvgElementType::Path(p) ==> (tr_only ==> exists|pb: BBox|
        {
            &&& n.bbox == shifted_box(bbox_union_of(union_boxes(n.contents@), pb), dx, dy)
            &&& #[trigger] covers_path_endpoints(pb, p.path.elements@)
        }))
    &&& (o.ele_type matches SvgElementType::Grid(g) ==> (tr_only ==> n.bbox == shifted_box(
        bbox_union_of(union_boxes(n.contents@), g.bbox),
        dx,
        dy,
    )))
    &&& (!(o.ele_type matches SvgElementType::Path(_)) && !(o.ele_type
        matches SvgElementType::Grid(_)) ==> (tr_only ==> n.bbox == shifted_box(
        union_boxes(n.contents@),
        dx,
        dy,
    )))
}

/// Appending elements with empty boxes does not change the union of the
/// boxes.
pub proof fn lemma_union_boxes_append_none(s: Seq<SvgElement>, t: Seq<SvgElement>)
    requires
        forall|k: int| 0 <= k < t.len() ==> bbox_is_none(#[trigger] t[k].bbox),
    ensures
        union_boxes(s + t) == union_boxes(s),
    decreases t.len(),
{
    if t.len() == 0 {
        assert(s + t =~= s);
    } else {
        assert((s + t).drop_last() =~= s + t.drop_last());
        assert((s + t).last() == t.last());
        lemma_union_boxes_append_none(s, t.drop_last());
    }
}

impl SvgElement {
    /// Finalize the element: finalize every child first, union their boxes
    /// and this payload's own contribution into this element's bounding
    /// box, adopt the extra nodes the children produced, emit this
    /// element's own extra outline node when the configuration asks for
    /// content rectangles, move the box into the parent's coordinates, and
    /// bake the transform and payload attributes.
    ///
    /// The returned nodes are for the *caller* to adopt: they become
    /// siblings of this element, not children.
    pub fn finalize(&mut self, svg_cfg: &SvgConfig) -> (extras: Vec<SvgElement>)
        ensures
            extras@.len() == (if svg_cfg.show_content_rectangles is Some {
                1int
            } else {
                0int
            }),
            forall|k: int| 0 <= k < extras@.len() ==> bbox_is_none(#[trigger] extras@[k].bbox)
                && outline_node(*svg_cfg, old(self).transform, extras@[k]),
            forall|k: int| 0 <= k < extras@.len() ==> outline_box_of(
                *old(self),
                *final(self),
                #[trigger] extras@[k],
            ),
            finalized_form(*svg_cfg, *old(self), *final(self)),
            forall|i: int| 0 <= i < old(self).attributes@.len() ==> final(self).attributes@[i]
                == old(self).attributes@[i],
    {
        let mut tmp = SvgElement::new(SvgElementType::Group(SvgGroup {  }));
        core::mem::swap(&mut tmp, self);
        let (ne, extras) = finalize_rec(&tmp, svg_cfg);
        *self = ne;
        extras
    }
}

/// The attribute lists are equal entry by entry, so their texts are too.
proof fn lemma_attr_views_eq(a: Seq<(NamespaceName, String)>, b: Seq<(NamespaceName, String)>)
    requires
        a.len() == b.len(),
        forall|i: int| 0 <= i < a.len() ==> a[i] == b[i],
    ensures
        attr_views(a) == attr_views(b),
{
    assert(attr_views(a) =~= attr_views(b));
}

/// Appending one attribute appends its text.
pub proof fn lemma_attr_views_snoc(
    pre: Seq<(NamespaceName, String)>,
    post: Seq<(NamespaceName, String)>,
    name: Seq<char>,
    ns: Option<Seq<char>>,
    value: Seq<char>,
)
    requires
        post.len() == pre.len() + 1,
        forall|i: int| 0 <= i < pre.len() ==> post[i] == pre[i],
        post.last().0.name@ == name,
        post.last().0.ns_view() == ns,
        post.last().1@ == value,
    ensures
        attr_views(post) == attr_views(pre) + seq![(name, ns, value)],
{
    assert(attr_views(post) =~= attr_views(pre) + seq![(name, ns, value)]);
}

/// Bake the serialisable attributes of an element: its own attributes,
/// then the transform attribute when the transform is not the identity,
/// then the payload's attribute.
fn bake_attributes(e: &SvgElement, transform_str: String, new_type: &SvgElementType) -> (r: Vec<
    (NamespaceName, String),
>)
    requires
        transform_str@ == crate::transform::svg_attr_spec(e.transform),
        same_type(e.ele_type, *new_type),
    ensures
        attr_views(r@) == attr_views(e.attributes@) + transform_attr_part(e.transform)
            + payload_attr_part(e.ele_type),
        forall|i: int| 0 <= i < e.attributes@.len() ==> r@[i] == e.attributes@[i],
{
    let mut attributes = copy_attributes(&e.attributes);
    proof {
        lemma_attr_views_eq(attributes@, e.attributes@);
    }
    if !transform_str.as_str().is_empty() {
        let ghost pre = attributes@;
        attributes.push((NamespaceName::local("transform"), transform_str));
        proof {
            lemma_attr_views_snoc(
                pre,
                attributes@,
                ("transform")@,
                Option::None,
                crate::transform::svg_attr_spec(e.transform),
            );
        }
    } else {
        proof {
            assert(attr_views(attributes@) + transform_attr_part(e.transform) =~= attr_views(
                attributes@,
            ));
        }
    }
    let ghost pre_payload = attributes@;
    match new_type {
        SvgElementType::Path(p) => {
            p.push_attributes(&mut attributes);
            proof {
                lemma_attr_views_snoc(
                    pre_payload,
                    attributes@,
                    ("d")@,
                    Option::None,
                    path_d_text(p.path.elements@, p.closed),
                );
            }
        },
        SvgElementType::Grid(g) => {
            g.push_attributes(&mut attributes);
            proof {
                lemma_attr_views_snoc(
                    pre_payload,
                    attributes@,
                    ("d")@,
                    Option::None,
                    grid_d_text(g.bbox, g.spacings.0, g.spacings.1),
                );
            }
        },
        _ => {
            proof {
                assert(attr_views(attributes@) + payload_attr_part(e.ele_type) =~= attr_views(
                    attributes@,
                ));
            }
        },
    }
    proof {
        assert(attr_views(attributes@) =~= attr_views(e.attributes@) + transform_attr_part(
            e.transform,
        ) + payload_attr_part(e.ele_type));
    }
    attributes
}

/// Build the outline node the finalize pass hands to its caller: a box
/// outline carrying the transform attribute when the transform is not the
/// identity, and its own path data.
fn make_outline(
    local_box: BBox,
    transform_str: &String,
    width: i64,
    color: &Color,
    Ghost(t): Ghost<Transform>,
    Ghost(cfg): Ghost<SvgConfig>,
) -> (r: SvgElement)
    requires
        transform_str@ == crate::transform::svg_attr_spec(t),
        cfg.show_content_rectangles matches Some(pair) && pair.0 == width && pair.1 == *color,
    ensures
        bbox_is_none(r.bbox),
        outline_node(cfg, t, r),
        r.ele_type matches SvgElementType::Path(p) ==> outline_path(
            local_box,
            p.path.elements@,
        ),
{
    let mut eb = SvgElement::new_box(local_box, width, color);
    if !transform_str.as_str().is_empty() {
        let ghost pre = eb.attributes@;
        eb.add_attribute("transform", None, transform_str.as_str());
        proof {
            lemma_attr_views_snoc(
                pre,
                eb.attributes@,
                ("transform")@,
                Option::None,
                crate::transform::svg_attr_spec(t),
            );
        }
    } else {
        proof {
            assert(attr_views(eb.attributes@) + transform_attr_part(t) =~= attr_views(
                eb.attributes@,
            ));
        }
    }
    let ghost pre_d = eb.attributes@;
    match &eb.ele_type {
        SvgElementType::Path(p) => {
            p.push_attributes(&mut eb.attributes);
            proof {
                lemma_attr_views_snoc(
                    pre_d,
                    eb.attributes@,
                    ("d")@,
                    Option::None,
                    path_d_text(p.path.elements@, p.closed),
                );
            }
        },
        _ => {},
    }
    proof {
        assert(outline_node(cfg, t, eb));
    }
    eb
}

/// Appending one child's outline nodes keeps the whole collection's shape:
/// every entry has an empty box and outlines its child under the child's
/// transform.
proof fn lemma_extras_grow(
    cfg: SvgConfig,
    contents: Seq<SvgElement>,
    i: int,
    prev_extra: Seq<SvgElement>,
    ex0: Seq<SvgElement>,
    combined: Seq<SvgElement>,
)
    requires
        combined == prev_extra + ex0,
        0 <= i < contents.len(),
        cfg.show_content_rectangles is Some ==> prev_extra.len() == i,
        cfg.show_content_rectangles is None ==> prev_extra.len() == 0,
        cfg.show_content_rectangles is Some ==> ex0.len() == 1,
        cfg.show_content_rectangles is None ==> ex0.len() == 0,
        forall|q: int| 0 <= q < prev_extra.len() ==> bbox_is_none(
            #[trigger] prev_extra[q].bbox,
        ) && outline_node(cfg, contents[q].transform, prev_extra[q]),
        forall|k: int| 0 <= k < ex0.len() ==> bbox_is_none(#[trigger] ex0[k].bbox)
            && outline_node(cfg, contents[i].transform, ex0[k]),
    ensures
        cfg.show_content_rectangles is Some ==> combined.len() == i + 1,
        cfg.show_content_rectangles is None ==> combined.len() == 0,
        forall|q: int| 0 <= q < combined.len() ==> bbox_is_none(#[trigger] combined[q].bbox)
            && outline_node(cfg, contents[q].transform, combined[q]),
{
    assert forall|q: int| 0 <= q < combined.len() implies bbox_is_none(
        #[trigger] combined[q].bbox,
    ) && outline_node(cfg, contents[q].transform, combined[q]) by {
        if q < prev_extra.len() {
            assert(combined[q] == prev_extra[q]);
            assert(bbox_is_none(prev_extra[q].bbox));
        } else {
            assert(combined[q] == ex0[q - prev_extra.len()]);
            assert(bbox_is_none(ex0[q - prev_extra.len()].bbox));
            assert(q == i);
        }
    }
}

/// Assembling the finalized element from its pieces meets the finalized
/// form: the finalized children come first, the children's outline nodes
/// (all with empty boxes) follow, the attributes are the old ones plus the
/// baked parts, and under a pure translation the box is the shifted union.
#[verifier::rlimit(100)]
proof fn lemma_finalized_assembled(
    cfg: SvgConfig,
    e: SvgElement,
    ne: SvgElement,
    kids: Seq<SvgElement>,
    extras_tail: Seq<SvgElement>,
    tb: BBox,
    local_box: BBox,
)
    requires
        ne.contents@ == kids + extras_tail,
        kids.len() == e.contents@.len(),
        cfg.show_content_rectangles is Some ==> extras_tail.len() == e.contents@.len(),
        cfg.show_content_rectangles is None ==> extras_tail.len() == 0,
        forall|q: int| 0 <= q < kids.len() ==> finalized_form(
            cfg,
            e.contents@[q],
            #[trigger] kids[q],
        ),
        forall|q: int| 0 <= q < extras_tail.len() ==> bbox_is_none(
            #[trigger] extras_tail[q].bbox,
        ) && outline_node(cfg, e.contents@[q].transform, extras_tail[q]),
        local_box == bbox_union_of(union_boxes(kids), tb),
        (e.transform.rotation as int) % 360_000_000int == 0 && e.transform.scale
            == crate::fixed::FX_ONE ==> ne.bbox == shifted_box(
            local_box,
            e.transform.translation.x,
            e.transform.translation.y,
        ),
        e.ele_type matches SvgElementType::Svg(_) ==> bbox_is_none(tb),
        e.ele_type matches SvgElementType::Group(_) ==> bbox_is_none(tb),
        e.ele_type matches SvgElementType::Defs ==> bbox_is_none(tb),
        e.ele_type matches SvgElementType::Grid(g) ==> tb == g.bbox,
        e.ele_type matches SvgElementType::Path(p) ==> covers_path_endpoints(
            tb,
            p.path.elements@,
        ),
        same_type(e.ele_type, ne.ele_type),
        ne.transform == e.transform,
        ne.characters@ == e.characters@,
        attr_views(ne.attributes@) == attr_views(e.attributes@) + transform_attr_part(
            e.transform,
        ) + payload_attr_part(e.ele_type),
    ensures
        finalized_form(cfg, e, ne),
{
    let on = e.contents@.len() as int;
    lemma_union_boxes_append_none(kids, extras_tail);
    assert(union_boxes(ne.contents@) == union_boxes(kids));
    assert forall|i: int| 0 <= i < on implies finalized_form(
        cfg,
        e.contents@[i],
        #[trigger] ne.contents@[i],
    ) by {
        assert(ne.contents@[i] == kids[i]);
    }
    assert forall|i: int| 0 <= i < on && cfg.show_content_rectangles is Some implies outline_node(
        cfg,
        (#[trigger] e.contents@[i]).transform,
        ne.contents@[on + i],
    ) by {
        assert(0 <= i < extras_tail.len());
        assert(bbox_is_none(extras_tail[i].bbox));
        assert(outline_node(cfg, e.contents@[i].transform, extras_tail[i]));
        assert(ne.contents@[on + i] == extras_tail[i]);
    }
    if (e.transform.rotation as int) % 360_000_000int == 0 && e.transform.scale
        == crate::fixed::FX_ONE {
        match e.ele_type {
            SvgElementType::Path(p) => {
                assert(ne.bbox == shifted_box(
                    bbox_union_of(union_boxes(ne.contents@), tb),
                    e.transform.translation.x,
                    e.transform.translation.y,
                ));
                assert(covers_path_endpoints(tb, p.path.elements@));
            },
            SvgElementType::Grid(g) => {
                assert(ne.bbox == shifted_box(
                    bbox_union_of(union_boxes(ne.contents@), g.bbox),
                    e.transform.translation.x,
                    e.transform.translation.y,
                ));
            },
            _ => {
                assert(bbox_union_of(union_boxes(kids), tb) == union_boxes(kids));
            },
        }
    }
}

/// Finalize one element, building its finalized copy and the extra sibling
/// nodes it hands to its caller.
#[verifier::rlimit(100)]
fn finalize_rec(e: &SvgElement, svg_cfg: &SvgConfig) -> (r: (SvgElement, Vec<SvgElement>))
    ensures
        r.1@.len() == (if svg_cfg.show_content_rectangles is Some {
            1int
        } else {
            0int
        }),
        forall|k: int| 0 <= k < r.1@.len() ==> bbox_is_none(#[trigger] r.1@[k].bbox)
            && outline_node(*svg_cfg, e.transform, r.1@[k]),
        forall|k: int| 0 <= k < r.1@.len() ==> outline_box_of(*e, r.0, #[trigger] r.1@[k]),
        finalized_form(*svg_cfg, *e, r.0),
        forall|i: int| 0 <= i < e.attributes@.len() ==> r.0.attributes@[i] == e.attributes@[i],
    decreases *e,
{
    let transform_str = e.transform.as_svg_attribute_string();
    let mut new_children: Vec<SvgElement> = Vec::new();
    let mut child_extra: Vec<SvgElement> = Vec::new();
    let mut bbox = BBox::none();
    let n = e.contents.len();
    let mut i: usize = 0;
    while i < n
        invariant
            i <= n,
            n == e.contents@.len(),
            new_children@.len() == i,
            bbox == union_boxes(new_children@),
            svg_cfg.show_content_rectangles is Some ==> child_extra@.len() == i,
            svg_cfg.show_content_rectangles is None ==> child_extra@.len() == 0,
            forall|q: int| 0 <= q < i ==> finalized_form(
                *svg_cfg,
                e.contents@[q],
                #[trigger] new_children@[q],
            ),
            forall|q: int| 0 <= q < child_extra@.len() ==> bbox_is_none(
                #[trigger] child_extra@[q].bbox,
            ) && outline_node(*svg_cfg, e.contents@[q].transform, child_extra@[q]),
        decreases n - i,
    {
        proof {
            assert(decreases_to!(*e => e.contents@[i as int]));
        }
        let (nc, mut extras) = finalize_rec(&e.contents[i], svg_cfg);
        let ghost prev = new_children@;
        let ghost prev_extra = child_extra@;
        let ghost ex0 = extras@;
        proof {
            assert forall|k: int| 0 <= k < ex0.len() implies bbox_is_none(
                #[trigger] ex0[k].bbox,
            ) && outline_node(*svg_cfg, e.contents@[i as int].transform, ex0[k]) by {
                assert(ex0[k] == extras@[k]);
                assert(bbox_is_none(extras@[k].bbox));
            }
        }
        bbox = bbox.union(nc.bbox());
        new_children.push(nc);
        child_extra.append(&mut extras);
        proof {
            assert(new_children@.drop_last() =~= prev);
            assert(new_children@.last() == nc);
            assert(child_extra@ == prev_extra + ex0);
            lemma_extras_grow(
                *svg_cfg,
                e.contents@,
                i as int,
                prev_extra,
                ex0,
                child_extra@,
            );
        }
        i = i + 1;
    }
    // children are finalized now; union in the payload's own contribution
    let tb = type_bbox(&e.ele_type);
    let bbox = bbox.union(tb);
    // the children's extra nodes become this element's children
    let ghost kids = new_children@;
    let ghost extras_tail = child_extra@;
    proof {
        assert forall|q: int| 0 <= q < extras_tail.len() implies bbox_is_none(
            #[trigger] extras_tail[q].bbox,
        ) && outline_node(*svg_cfg, e.contents@[q].transform, extras_tail[q]) by {
            assert(extras_tail[q] == child_extra@[q]);
            assert(bbox_is_none(child_extra@[q].bbox));
        }
    }
    new_children.append(&mut child_extra);
    proof {
        lemma_union_boxes_append_none(kids, new_children@.skip(kids.len() as int));
        assert(kids + new_children@.skip(kids.len() as int) =~= new_children@);
        assert(new_children@ == kids + extras_tail);
        assert(kids.len() == n);
    }
    // the outline node handed back to the caller, covering this element's
    // still-local bounding box
    let mut extra: Vec<SvgElement> = Vec::new();
    match &svg_cfg.show_content_rectangles {
        Some((width, color)) => {
            let eb = make_outline(
                bbox,
                &transform_str,
                *width,
                color,
                Ghost(e.transform),
                Ghost(*svg_cfg),
            );
            extra.push(eb);
        },
        None => {},
    }
    // the bounding box seen by the parent is in the parent's coordinates
    let ghost local_b = bbox;
    let bbox = bbox.transform(&e.transform);
    // bake the serialisable attributes
    let new_type = copy_ele_type(&e.ele_type);
    let attributes = bake_attributes(e, transform_str, &new_type);
    let ne = SvgElement {
        ele_type: new_type,
        attributes,
        transform: e.transform,
        contents: new_children,
        characters: clone_string(&e.characters),
        bbox,
    };
    proof {
        lemma_finalized_assembled(
            *svg_cfg,
            *e,
            ne,
            kids,
            extras_tail,
            tb,
            bbox_union_of(union_boxes(kids), tb),
        );
        assert forall|k: int| 0 <= k < extra@.len() implies outline_box_of(
            *e,
            ne,
            #[trigger] extra@[k],
        ) by {
            let x = extra@[k];
            assert(outline_node(*svg_cfg, e.transform, x));
            if x.ele_type is Path {
                let p = x.ele_type->Path_0;
                assert(outline_path(local_b, p.path.elements@));
            }
        }
    }
    (ne, extra)
}

impl SvgElement {
    /// An outline node for a bounding box: a closed rectangle path with no
    /// fill, the given stroke colour and line width.
    pub fn new_box(bbox: BBox, line_width: i64, color: &Color) -> (r: SvgElement)
        ensures
            r.ele_type matches SvgElementType::Path(p) && p.closed,
            bbox_is_none(r.bbox),
            r.contents@.len() == 0,
            r.characters@.len() == 0,
            r.ele_type matches SvgElementType::Path(p) ==> outline_path(
                bbox,
                p.path.elements@,
            ),
            attr_views(r.attributes@) == seq![
                (("fill")@, Option::<Seq<char>>::None, ("none")@),
                (
                    ("stroke")@,
                    Option::<Seq<char>>::None,
                    crate::color_database::color_text(*color),
                ),
                (("stroke-width")@, Option::<Seq<char>>::None, fixed4_digits(line_width as int)),
            ],
    {
        let mut e = SvgPath::new_box(bbox);
        let none_color = Color::new("none", crate::color_database::Rgba(0));
        proof {
            assert((255 - (((0u32 >> 24) & 0xff) as u8)) as u8 == 255) by (bit_vector);
            assert(attr_views(e.attributes@) =~= Seq::<
                (Seq<char>, Option<Seq<char>>, Seq<char>),
            >::empty());
        }
        let ghost a0 = e.attributes@;
        e.add_color("fill", &none_color);
        proof {
            lemma_attr_views_snoc(a0, e.attributes@, ("fill")@, Option::None, ("none")@);
        }
        let ghost a1 = e.attributes@;
        e.add_color("stroke", color);
        proof {
            lemma_attr_views_snoc(
                a1,
                e.attributes@,
                ("stroke")@,
                Option::None,
                crate::color_database::color_text(*color),
            );
        }
        let ghost a2 = e.attributes@;
        e.add_size("stroke-width", line_width);
        proof {
            lemma_attr_views_snoc(
                a2,
                e.attributes@,
                ("stroke-width")@,
                Option::None,
                fixed4_digits(line_width as int),
            );
            assert(attr_views(e.attributes@) =~= seq![
                (("fill")@, Option::<Seq<char>>::None, ("none")@),
                (
                    ("stroke")@,
                    Option::<Seq<char>>::None,
                    crate::color_database::color_text(*color),
                ),
                (
                    ("stroke-width")@,
                    Option::<Seq<char>>::None,
                    fixed4_digits(line_width as int),
                ),
            ]);
        }
        e
    }

    /// A grid element over a region, with the given line spacing, line
    /// width and stroke colour.
    pub fn new_grid(bbox: BBox, spacing: i64, line_width: i64, color: &str) -> (r: SvgElement)
        requires
            spacing > 0,
        ensures
            r.ele_type matches SvgElementType::Grid(g) && g.bbox == bbox && g.spacings == (
            spacing, spacing),
            bbox_is_none(r.bbox),
            r.contents@.len() == 0,
            r.characters@.len() == 0,
            r.transform == (Transform {
                translation: Point { x: 0i64, y: 0i64 },
                rotation: 0i64,
                scale: crate::fixed::FX_ONE,
            }),
            attr_views(r.attributes@) == seq![
                (("fill")@, Option::<Seq<char>>::None, ("None")@),
                (("stroke")@, Option::<Seq<char>>::None, color@),
                (("stroke-width")@, Option::<Seq<char>>::None, fixed4_digits(line_width as int)),
            ],
    {
        let mut grid = SvgGrid::new(bbox, (spacing, spacing));
        proof {
            assert(attr_views(grid.attributes@) =~= Seq::<
                (Seq<char>, Option<Seq<char>>, Seq<char>),
            >::empty());
        }
        let ghost a0 = grid.attributes@;
        grid.add_attribute("fill", None, "None");
        proof {
            lemma_attr_views_snoc(a0, grid.attributes@, ("fill")@, Option::None, ("None")@);
        }
        let ghost a1 = grid.attributes@;
        grid.add_attribute("stroke", None, color);
        proof {
            lemma_attr_views_snoc(a1, grid.attributes@, ("stroke")@, Option::None, color@);
        }
        let lw = crate::fmt::fixed4_to_string(line_width);
        let ghost a2 = grid.attributes@;
        grid.add_attribute("stroke-width", None, lw.as_str());
        proof {
            lemma_attr_views_snoc(
                a2,
                grid.attributes@,
                ("stroke-width")@,
                Option::None,
                fixed4_digits(line_width as int),
            );
            assert(attr_views(grid.attributes@) =~= seq![
                (("fill")@, Option::<Seq<char>>::None, ("None")@),
                (("stroke")@, Option::<Seq<char>>::None, color@),
                (
                    ("stroke-width")@,
                    Option::<Seq<char>>::None,
                    fixed4_digits(line_width as int),
                ),
            ]);
        }
        grid
    }
}

/// The `url(#name)` reference to a marker.
fn marker_url(s: &String) -> (r: String)
    ensures
        r@ == ("url(#")@ + s@ + (")")@,
{
    let mut r = String::new();
    r.append("url(#");
    r.append(s.as_str());
    r.append(")");
    proof {
        assert(r@ =~= ("url(#")@ + s@ + (")")@);
    }
    r
}

} // verus!
