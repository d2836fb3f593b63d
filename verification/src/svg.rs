//! The diagram: configuration, the construction stack, and the two
//! top-level element lists.

use vstd::prelude::*;
use vstd::string::StringExecFns;

use crate::color_database::Color;
use crate::svg_element::SvgElement;
use crate::svg_element::union_boxes;

verus! {

/// The version of SVG named in the output document.
#[derive(Debug, Clone, Copy, PartialEq, Eq, Structural)]
pub enum SvgVersion {
    /// SVG 1.0
    Version1_0,
    /// SVG 1.1
    Version1_1,
    /// SVG 2.0
    Version2_0,
}

impl SvgVersion {
    /// The version named by its text, if recognised.
    pub fn of_str(x: &str) -> (r: Option<SvgVersion>)
        ensures
            x@ == ("1.0")@ ==> r == Some(SvgVersion::Version1_0),
            x@ == ("1.1")@ ==> r == Some(SvgVersion::Version1_1),
            x@ == ("2.0")@ ==> r == Some(SvgVersion::Version2_0),
            x@ != ("1.0")@ && x@ != ("1.1")@ && x@ != ("2.0")@ ==> r is None,
    {
        proof {
            reveal_strlit("1.0");
            reveal_strlit("1.1");
            reveal_strlit("2.0");
            assert(("1.0")@ != ("1.1")@) by {
                assert(("1.0")@[2] != ("1.1")@[2]);
            }
            assert(("1.0")@ != ("2.0")@) by {
                assert(("1.0")@[0] != ("2.0")@[0]);
            }
            assert(("1.1")@ != ("2.0")@) by {
                assert(("1.1")@[0] != ("2.0")@[0]);
            }
        }
        if crate::color_database::str_eq(x, "1.0") {
            Some(SvgVersion::Version1_0)
        } else if crate::color_database::str_eq(x, "1.1") {
            Some(SvgVersion::Version1_1)
        } else if crate::color_database::str_eq(x, "2.0") {
            Some(SvgVersion::Version2_0)
        } else {
            None
        }
    }

    /// The text of the version.
    pub fn as_str(self) -> (r: &'static str)
        ensures
            r@ == version_text(self),
    {
        match self {
            SvgVersion::Version1_0 => "1.0",
            SvgVersion::Version1_1 => "1.1",
            SvgVersion::Version2_0 => "2.0",
        }
    }
}

/// The text of a version.
pub open spec fn version_text(v: SvgVersion) -> Seq<char> {
    match v {
        SvgVersion::Version1_0 => ("1.0")@,
        SvgVersion::Version1_1 => ("1.1")@,
        SvgVersion::Version2_0 => ("2.0")@,
    }
}

/// Configuration of the SVG output.
#[derive(Debug, Clone)]
pub struct SvgConfig {
    /// Show a grid at the top level of the layout
    pub show_grid: bool,
    /// Show the layout of grids
    pub show_layout: bool,
    /// Show the content rectangle of every element, with the given line
    /// width and colour
    pub show_content_rectangles: Option<(i64, Color)>,
}

impl Default for SvgConfig {
    /// Show nothing extra.
    fn default() -> (r: SvgConfig)
        ensures
            !r.show_grid,
            !r.show_layout,
            r.show_content_rectangles is None,
    {
        SvgConfig { show_grid: false, show_layout: false, show_content_rectangles: None }
    }
}

impl SvgConfig {
    /// Choose whether to show the top-level grid.
    pub fn set_show_grid(self, show_grid: bool) -> (r: SvgConfig)
        ensures
            r.show_grid == show_grid,
            r.show_layout == self.show_layout,
            r.show_content_rectangles == self.show_content_rectangles,
    {
        SvgConfig { show_grid, ..self }
    }

    /// Choose whether to show the layout of grids.
    pub fn set_show_layout(self, show_layout: bool) -> (r: SvgConfig)
        ensures
            r.show_layout == show_layout,
            r.show_grid == self.show_grid,
            r.show_content_rectangles == self.show_content_rectangles,
    {
        SvgConfig { show_layout, ..self }
    }

    /// Ask for a content rectangle around every element, with the given
    /// line width and colour.
    pub fn set_content_rectangles(self, width: i64, color: Color) -> (r: SvgConfig)
        ensures
            r.show_content_rectangles matches Some(p) && p.0 == width && p.1 == color,
            r.show_grid == self.show_grid,
            r.show_layout == self.show_layout,
    {
        SvgConfig { show_content_rectangles: Some((width, color)), ..self }
    }

    /// Ask for no content rectangles.
    pub fn clear_content_rectangles(self) -> (r: SvgConfig)
        ensures
            r.show_content_rectangles is None,
            r.show_grid == self.show_grid,
            r.show_layout == self.show_layout,
    {
        SvgConfig { show_content_rectangles: None, ..self }
    }
}

/// The diagram being rendered: its configuration, a construction stack,
/// the visible contents, and the referenced-only definitions.
///
/// Nodes are built top-down through the stack, finalized bottom-up once,
/// and then traversed read-only by the event iterator.
#[derive(Debug)]
pub struct Svg {
    /// The version of SVG named in the output
    pub version: SvgVersion,
    /// The output configuration
    pub config: SvgConfig,
    /// The bounding box of the finalized contents
    pub bbox: crate::bbox::BBox,
    /// The visible contents
    pub contents: Vec<SvgElement>,
    /// The referenced-only definitions
    pub definitions: Vec<SvgElement>,
    /// The stack of elements being constructed
    pub stack: Vec<SvgElement>,
}

impl Svg {
    /// A new, empty diagram with the given configuration, naming SVG 2.0.
    pub fn new(config: SvgConfig) -> (r: Svg)
        ensures
            r.version == SvgVersion::Version2_0,
            r.config == config,
            crate::bbox::bbox_is_none(r.bbox),
            r.contents@.len() == 0,
            r.definitions@.len() == 0,
            r.stack@.len() == 0,
    {
        Svg {
            version: SvgVersion::Version2_0,
            config,
            bbox: crate::bbox::BBox::none(),
            contents: Vec::new(),
            definitions: Vec::new(),
            stack: Vec::new(),
        }
    }

    /// The same diagram naming another SVG version.
    pub fn set_version(self, version: SvgVersion) -> (r: Svg)
        ensures
            r.version == version,
            r.config == self.config,
            r.contents == self.contents,
            r.definitions == self.definitions,
            r.stack == self.stack,
            r.bbox == self.bbox,
    {
        Svg { version, ..self }
    }

    /// Push an element onto the construction stack.
    pub fn stack_push(&mut self, e: SvgElement)
        ensures
            final(self).stack@ == old(self).stack@.push(e),
            unchanged_but_stack(*old(self), *final(self)),
    {
        self.stack.push(e);
    }

    /// Pop the top element off the construction stack.
    pub fn stack_pop(&mut self) -> (r: SvgElement)
        requires
            old(self).stack@.len() > 0,
        ensures
            r == old(self).stack@.last(),
            final(self).stack@ == old(self).stack@.drop_last(),
            unchanged_but_stack(*old(self), *final(self)),
    {
        let r = self.stack.pop();
        match r {
            Some(e) => e,
            None => {
                proof {
                    assert(false);
                }
                SvgElement::new(crate::svg_element::SvgElementType::Defs)
            },
        }
    }

    /// Attach an element as a child of the top of the construction stack.
    pub fn stack_add_subelement(&mut self, e: SvgElement)
        requires
            old(self).stack@.len() > 0,
        ensures
            final(self).stack@.len() == old(self).stack@.len(),
            forall|i: int| 0 <= i < old(self).stack@.len() - 1 ==> final(self).stack@[i] == old(
                self,
            ).stack@[i],
            final(self).stack@.last().contents@ == old(self).stack@.last().contents@.push(e),
            final(self).stack@.last().ele_type == old(self).stack@.last().ele_type,
            final(self).stack@.last().attributes@ == old(self).stack@.last().attributes@,
            final(self).stack@.last().transform == old(self).stack@.last().transform,
            final(self).stack@.last().characters@ == old(self).stack@.last().characters@,
            unchanged_but_stack(*old(self), *final(self)),
    {
        let mut top = self.stack_pop();
        top.push_content(e);
        self.stack_push(top);
        proof {
            assert(final(self).stack@.drop_last() =~= old(self).stack@.drop_last());
        }
    }

    /// Pop the finished top of the construction stack into the element
    /// below it.
    pub fn stack_pop_to_child(&mut self)
        requires
            old(self).stack@.len() > 1,
        ensures
            final(self).stack@.len() == old(self).stack@.len() - 1,
            final(self).stack@.last().contents@ == old(self).stack@[old(self).stack@.len()
                - 2].contents@.push(old(self).stack@.last()),
            final(self).stack@.last().ele_type == old(self).stack@[old(self).stack@.len()
                - 2].ele_type,
            final(self).stack@.last().attributes@ == old(self).stack@[old(self).stack@.len()
                - 2].attributes@,
            forall|i: int| 0 <= i < old(self).stack@.len() - 2 ==> final(self).stack@[i] == old(
                self,
            ).stack@[i],
            unchanged_but_stack(*old(self), *final(self)),
    {
        let e = self.stack_pop();
        self.stack_add_subelement(e);
    }

    /// Append an element to the visible contents.
    pub fn contents_add_element(&mut self, e: SvgElement)
        ensures
            final(self).contents@ == old(self).contents@.push(e),
            final(self).stack@ == old(self).stack@,
            final(self).definitions@ == old(self).definitions@,
            final(self).version == old(self).version,
            final(self).config == old(self).config,
            final(self).bbox == old(self).bbox,
    {
        self.contents.push(e);
    }

    /// Move the single element of the construction stack into the visible
    /// contents.
    pub fn contents_take_stack(&mut self)
        requires
            old(self).stack@.len() == 1,
        ensures
            final(self).contents@ == old(self).contents@.push(old(self).stack@[0]),
            final(self).stack@.len() == 0,
            final(self).definitions@ == old(self).definitions@,
            final(self).version == old(self).version,
            final(self).config == old(self).config,
            final(self).bbox == old(self).bbox,
    {
        let e = self.stack_pop();
        self.contents.push(e);
    }

    /// Append an element to the referenced-only definitions.
    pub fn definitions_add_element(&mut self, e: SvgElement)
        ensures
            final(self).definitions@ == old(self).definitions@.push(e),
            final(self).stack@ == old(self).stack@,
            final(self).contents@ == old(self).contents@,
            final(self).version == old(self).version,
            final(self).config == old(self).config,
            final(self).bbox == old(self).bbox,
    {
        self.definitions.push(e);
    }

    /// Move the single element of the construction stack into the
    /// referenced-only definitions.
    pub fn definitions_take_stack(&mut self)
        requires
            old(self).stack@.len() == 1,
        ensures
            final(self).definitions@ == old(self).definitions@.push(old(self).stack@[0]),
            final(self).stack@.len() == 0,
            final(self).contents@ == old(self).contents@,
            final(self).version == old(self).version,
            final(self).config == old(self).config,
            final(self).bbox == old(self).bbox,
    {
        let e = self.stack_pop();
        self.definitions.push(e);
    }

    /// Finalize the diagram: finalize every top-level element, union their
    /// bounding boxes into the diagram's, and adopt the extra nodes the
    /// elements produced as further top-level contents, after the elements
    /// and in element order.
    pub fn finalize(&mut self)
        requires
            old(self).stack@.len() == 0,
        ensures
            final(self).stack@.len() == 0,
            old(self).config.show_content_rectangles is Some ==> final(self).contents@.len()
                == 2 * old(self).contents@.len(),
            old(self).config.show_content_rectangles is None ==> final(self).contents@.len()
                == old(self).contents@.len(),
            forall|i: int| 0 <= i < old(self).contents@.len()
                ==> crate::svg_element::finalized_form(
                old(self).config,
                old(self).contents@[i],
                #[trigger] final(self).contents@[i],
            ),
            forall|i: int| 0 <= i < old(self).contents@.len() && old(
                self,
            ).config.show_content_rectangles is Some ==> crate::svg_element::outline_node(
                old(self).config,
                (#[trigger] old(self).contents@[i]).transform,
                final(self).contents@[old(self).contents@.len() + i],
            ),
            forall|i: int| 0 <= i < old(self).contents@.len() && old(
                self,
            ).config.show_content_rectangles is Some ==> crate::svg_element::outline_box_of(
                #[trigger] old(self).contents@[i],
                final(self).contents@[i],
                final(self).contents@[old(self).contents@.len() + i],
            ),
            final(self).bbox == union_boxes(final(self).contents@),
            final(self).version == old(self).version,
            final(self).config == old(self).config,
            final(self).definitions@ == old(self).definitions@,
    {
        let mut pending: Vec<SvgElement> = Vec::new();
        core::mem::swap(&mut pending, &mut self.contents);
        let mut child_extra: Vec<SvgElement> = Vec::new();
        let mut bbox = crate::bbox::BBox::none();
        let mut done: Vec<SvgElement> = Vec::new();
        let ghost contents0 = pending@;
        let ghost n0 = pending@.len();
        let ghost version0 = self.version;
        let ghost config0 = self.config;
        let ghost defs0 = self.definitions@;
        let ghost stack0 = self.stack@;
        let ghost bbox0 = self.bbox;
        while pending.len() > 0
            invariant
                bbox == union_boxes(done@),
                done@.len() + pending@.len() == n0,
                n0 == contents0.len(),
                pending@ == contents0.skip(done@.len() as int),
                forall|q: int| 0 <= q < done@.len() ==> crate::svg_element::finalized_form(
                    config0,
                    contents0[q],
                    #[trigger] done@[q],
                ),
                config0.show_content_rectangles is Some ==> child_extra@.len() == done@.len(),
                config0.show_content_rectangles is None ==> child_extra@.len() == 0,
                forall|q: int| 0 <= q < child_extra@.len() ==> crate::bbox::bbox_is_none(
                    (#[trigger] child_extra@[q]).bbox,
                ) && crate::svg_element::outline_node(
                    config0,
                    contents0[q].transform,
                    child_extra@[q],
                ) && crate::svg_element::outline_box_of(
                    contents0[q],
                    done@[q],
                    child_extra@[q],
                ),
                self.version == version0,
                self.config == config0,
                self.definitions@ == defs0,
                self.stack@ == stack0,
                self.bbox == bbox0,
            decreases pending@.len(),
        {
            let mut c = pending.remove(0);
            proof {
                assert(c == contents0[done@.len() as int]);
                assert(pending@ =~= contents0.skip(done@.len() as int + 1));
            }
            let mut extras = c.finalize(&self.config);
            let ghost prev = done@;
            let ghost prev_extra = child_extra@;
            let ghost ex0 = extras@;
            let ghost cfin = c;
            proof {
                assert forall|k: int| 0 <= k < ex0.len() implies crate::bbox::bbox_is_none(
                    (#[trigger] ex0[k]).bbox,
                ) && crate::svg_element::outline_node(
                    config0,
                    contents0[prev.len() as int].transform,
                    ex0[k],
                ) && crate::svg_element::outline_box_of(
                    contents0[prev.len() as int],
                    cfin,
                    ex0[k],
                ) by {
                    assert(ex0[k] == extras@[k]);
                    assert(crate::bbox::bbox_is_none(extras@[k].bbox));
                }
            }
            bbox = bbox.union(c.bbox());
            done.push(c);
            child_extra.append(&mut extras);
            proof {
                assert(done@.drop_last() =~= prev);
                assert(done@[prev.len() as int] == cfin);
                assert(child_extra@ == prev_extra + ex0);
                assert forall|q: int| 0 <= q < child_extra@.len() implies
                    crate::bbox::bbox_is_none((#[trigger] child_extra@[q]).bbox)
                    && crate::svg_element::outline_node(
                    config0,
                    contents0[q].transform,
                    child_extra@[q],
                ) && crate::svg_element::outline_box_of(
                    contents0[q],
                    done@[q],
                    child_extra@[q],
                ) by {
                    if q < prev_extra.len() {
                        assert(child_extra@[q] == prev_extra[q]);
                        assert(done@[q] == prev[q]);
                    } else {
                        assert(child_extra@[q] == ex0[q - prev_extra.len()]);
                        assert(q == prev.len());
                    }
                }
            }
        }
        let ghost kids = done@;
        let ghost extras_tail = child_extra@;
        proof {
            assert forall|q: int| 0 <= q < extras_tail.len() implies crate::bbox::bbox_is_none(
                (#[trigger] extras_tail[q]).bbox,
            ) && crate::svg_element::outline_node(
                config0,
                contents0[q].transform,
                extras_tail[q],
            ) && crate::svg_element::outline_box_of(
                contents0[q],
                kids[q],
                extras_tail[q],
            ) by {
                assert(extras_tail[q] == child_extra@[q]);
                assert(kids[q] == done@[q]);
                assert(crate::bbox::bbox_is_none(child_extra@[q].bbox));
            }
        }
        done.append(&mut child_extra);
        proof {
            crate::svg_element::lemma_union_boxes_append_none(
                kids,
                done@.skip(kids.len() as int),
            );
            assert(kids + done@.skip(kids.len() as int) =~= done@);
            assert(done@ == kids + extras_tail);
            assert forall|i: int| 0 <= i < n0 ==> crate::svg_element::finalized_form(
                config0,
                contents0[i],
                #[trigger] done@[i],
            ) by {
                assert(forall|i: int| 0 <= i < n0 ==> done@[i] == kids[i]);
            }
            assert forall|i: int| 0 <= i < n0
                && config0.show_content_rectangles is Some implies
                crate::svg_element::outline_node(
                config0,
                (#[trigger] contents0[i]).transform,
                done@[n0 + i],
            ) && crate::svg_element::outline_box_of(
                contents0[i],
                done@[i],
                done@[n0 + i],
            ) by {
                assert(extras_tail.len() == n0);
                assert(done@[n0 + i] == extras_tail[i]);
                assert(done@[i] == kids[i]);
                assert(crate::svg_element::outline_node(
                    config0,
                    contents0[i].transform,
                    extras_tail[i],
                ));
                assert(crate::svg_element::outline_box_of(
                    contents0[i],
                    kids[i],
                    extras_tail[i],
                ));
            }
        }
        self.bbox = bbox;
        self.contents = done;
    }

    /// Build the document root: an `svg` element whose attributes name the
    /// namespace, the version, and the width, height and viewBox of a
    /// bounding box.
    fn build_document_root(version: SvgVersion, bbox: &crate::bbox::BBox) -> (r: SvgElement)
        ensures
            r.ele_type matches crate::svg_element::SvgElementType::Svg(_),
            r.contents@.len() == 0,
            ({
                let w = if bbox.x.min > bbox.x.max {
                    0int
                } else {
                    crate::fixed::sat64(bbox.x.max - bbox.x.min)
                };
                let h = if bbox.y.min > bbox.y.max {
                    0int
                } else {
                    crate::fixed::sat64(bbox.y.max - bbox.y.min)
                };
                crate::svg_element::attr_views(r.attributes@) == seq![
                    (
                        ("svg")@,
                        Option::Some(("xmlns")@),
                        ("http://www.w3.org/2000/svg")@,
                    ),
                    (
                        ("xmlns")@,
                        Option::<Seq<char>>::None,
                        ("http://www.w3.org/2000/svg")@,
                    ),
                    (("version")@, Option::<Seq<char>>::None, version_text(version)),
                    (
                        ("width")@,
                        Option::<Seq<char>>::None,
                        crate::fmt::fixed4_digits(w) + ("mm")@,
                    ),
                    (
                        ("height")@,
                        Option::<Seq<char>>::None,
                        crate::fmt::fixed4_digits(h) + ("mm")@,
                    ),
                    (
                        ("viewBox")@,
                        Option::<Seq<char>>::None,
                        crate::fmt::fixed4_digits(bbox.x.min as int) + (" ")@
                            + crate::fmt::fixed4_digits(bbox.y.min as int) + (" ")@
                            + crate::fmt::fixed4_digits(w) + (" ")@
                            + crate::fmt::fixed4_digits(h),
                    ),
                ]
            }),
    {
        let (x, y, w, h) = bbox.get_bounds();
        let mut ele = crate::svg_element::SvgSvg::new();
        let ghost a0 = ele.attributes@;
        ele.add_attribute("svg", Some("xmlns"), "http://www.w3.org/2000/svg");
        proof {
            crate::svg_element::lemma_attr_views_snoc(
                a0,
                ele.attributes@,
                ("svg")@,
                Option::Some(("xmlns")@),
                ("http://www.w3.org/2000/svg")@,
            );
        }
        let ghost a1 = ele.attributes@;
        ele.add_attribute("xmlns", None, "http://www.w3.org/2000/svg");
        proof {
            crate::svg_element::lemma_attr_views_snoc(
                a1,
                ele.attributes@,
                ("xmlns")@,
                Option::None,
                ("http://www.w3.org/2000/svg")@,
            );
        }
        let ghost a2 = ele.attributes@;
        ele.add_attribute("version", None, version.as_str());
        proof {
            crate::svg_element::lemma_attr_views_snoc(
                a2,
                ele.attributes@,
                ("version")@,
                Option::None,
                version_text(version),
            );
        }
        let mut wtext = crate::fmt::fixed4_to_string(w);
        wtext.append("mm");
        let ghost a3 = ele.attributes@;
        ele.add_attribute("width", None, wtext.as_str());
        proof {
            crate::svg_element::lemma_attr_views_snoc(
                a3,
                ele.attributes@,
                ("width")@,
                Option::None,
                crate::fmt::fixed4_digits(w as int) + ("mm")@,
            );
        }
        let mut htext = crate::fmt::fixed4_to_string(h);
        htext.append("mm");
        let ghost a4 = ele.attributes@;
        ele.add_attribute("height", None, htext.as_str());
        proof {
            crate::svg_element::lemma_attr_views_snoc(
                a4,
                ele.attributes@,
                ("height")@,
                Option::None,
                crate::fmt::fixed4_digits(h as int) + ("mm")@,
            );
        }
        let mut viewbox = String::new();
        crate::fmt::push_fixed4(&mut viewbox, x);
        viewbox.append(" ");
        crate::fmt::push_fixed4(&mut viewbox, y);
        viewbox.append(" ");
        crate::fmt::push_fixed4(&mut viewbox, w);
        viewbox.append(" ");
        crate::fmt::push_fixed4(&mut viewbox, h);
        proof {
            assert(viewbox@ =~= crate::fmt::fixed4_digits(x as int) + (" ")@
                + crate::fmt::fixed4_digits(y as int) + (" ")@ + crate::fmt::fixed4_digits(
                w as int,
            ) + (" ")@ + crate::fmt::fixed4_digits(h as int));
        }
        let ghost a5 = ele.attributes@;
        ele.add_attribute("viewBox", None, viewbox.as_str());
        proof {
            crate::svg_element::lemma_attr_views_snoc(
                a5,
                ele.attributes@,
                ("viewBox")@,
                Option::None,
                viewbox@,
            );
            assert(crate::svg_element::attr_views(ele.attributes@).len() == 6);
        }
        ele
    }

    /// Build the document from the already finalized diagram: an `svg`
    /// root holding the definitions under a `defs` element, then the
    /// contents moved over unchanged, then a grid over the diagram's own
    /// bounding box when the configuration asks for one (the grid element
    /// is the one node finalized here, so its path data is baked).  The
    /// root's width, height and viewBox attributes come from the diagram's
    /// bounding box, and the root is left as the single element of the
    /// stack, ready for the event iterator.
    ///
    /// The caller runs [`Svg::finalize`] first, once: this function does
    /// not finalize the contents, so the finalize pass runs exactly once
    /// per node.
    #[verifier::rlimit(100)]
    pub fn generate_diagram(&mut self) -> (r: Result<(), crate::transform::Error>)
        requires
            old(self).stack@.len() == 0,
        ensures
            r is Ok,
            final(self).stack@.len() == 1,
            final(self).bbox == old(self).bbox,
            final(self).version == old(self).version,
            final(self).config == old(self).config,
            final(self).stack@[0].ele_type matches crate::svg_element::SvgElementType::Svg(_),
            ({
                let b = final(self).bbox;
                let w = if b.x.min > b.x.max {
                    0int
                } else {
                    crate::fixed::sat64(b.x.max - b.x.min)
                };
                let h = if b.y.min > b.y.max {
                    0int
                } else {
                    crate::fixed::sat64(b.y.max - b.y.min)
                };
                crate::svg_element::attr_views(final(self).stack@[0].attributes@) == seq![
                    (
                        ("svg")@,
                        Option::Some(("xmlns")@),
                        ("http://www.w3.org/2000/svg")@,
                    ),
                    (
                        ("xmlns")@,
                        Option::<Seq<char>>::None,
                        ("http://www.w3.org/2000/svg")@,
                    ),
                    (("version")@, Option::<Seq<char>>::None, version_text(old(self).version)),
                    (
                        ("width")@,
                        Option::<Seq<char>>::None,
                        crate::fmt::fixed4_digits(w) + ("mm")@,
                    ),
                    (
                        ("height")@,
                        Option::<Seq<char>>::None,
                        crate::fmt::fixed4_digits(h) + ("mm")@,
                    ),
                    (
                        ("viewBox")@,
                        Option::<Seq<char>>::None,
                        crate::fmt::fixed4_digits(b.x.min as int) + (" ")@
                            + crate::fmt::fixed4_digits(b.y.min as int) + (" ")@
                            + crate::fmt::fixed4_digits(w) + (" ")@
                            + crate::fmt::fixed4_digits(h),
                    ),
                ]
            }),
            ({
                let root = final(self).stack@[0];
                let on = old(self).contents@.len() as int;
                &&& root.contents@.len() == 1 + on + (if old(self).config.show_grid {
                    1int
                } else {
                    0int
                })
                &&& root.contents@[0].ele_type
                    matches crate::svg_element::SvgElementType::Defs
                &&& root.contents@[0].contents@ == old(self).definitions@
                &&& forall|i: int| 0 <= i < on ==> #[trigger] root.contents@[1 + i] == old(
                    self,
                ).contents@[i]
                &&& (old(self).config.show_grid ==> root.contents@.last().ele_type
                    matches crate::svg_element::SvgElementType::Grid(_))
                &&& (old(self).config.show_grid ==> (root.contents@.last().ele_type
                    matches crate::svg_element::SvgElementType::Grid(g) ==> g.spacings == (
                10_000_000i64,
                10_000_000i64,
                ) && g.bbox == old(self).bbox))
                &&& (old(self).config.show_grid
                    ==> crate::svg_element::attr_views(root.contents@.last().attributes@)
                    == seq![
                    (("fill")@, Option::<Seq<char>>::None, ("None")@),
                    (("stroke")@, Option::<Seq<char>>::None, ("grey")@),
                    (
                        ("stroke-width")@,
                        Option::<Seq<char>>::None,
                        crate::fmt::fixed4_digits(100_000),
                    ),
                ] + seq![
                    (
                        ("d")@,
                        Option::<Seq<char>>::None,
                        crate::svg_element::grid_d_text(
                            old(self).bbox,
                            10_000_000,
                            10_000_000,
                        ),
                    ),
                ])
            }),
            final(self).contents@.len() == 0,
            final(self).definitions@.len() == 0,
    {
        let ghost fcontents = self.contents@;
        let ele = Svg::build_document_root(self.version, &self.bbox);
        let ghost root_attrs = ele.attributes@;
        self.stack_push(ele);
        proof {
            assert(self.stack@[0].attributes@ == root_attrs);
            assert(self.stack@[0].ele_type matches crate::svg_element::SvgElementType::Svg(
                _,
            ));
            assert(self.stack@[0].contents@.len() == 0);
        }
        let defs = SvgElement::new(crate::svg_element::SvgElementType::Defs);
        self.stack_push(defs);
        let mut definitions: Vec<SvgElement> = Vec::new();
        core::mem::swap(&mut definitions, &mut self.definitions);
        let ghost defs0 = definitions@;
        let ghost root0 = self.stack@[0];
        let ghost cfg0 = self.config;
        let ghost bb0 = self.bbox;
        let ghost ver0 = self.version;
        proof {
            assert(root0.attributes@ == root_attrs);
            assert(root0.ele_type matches crate::svg_element::SvgElementType::Svg(_));
            assert(root0.contents@.len() == 0);
            assert(defs0.skip(0) =~= defs0);
            assert(defs0.take(0) =~= Seq::<SvgElement>::empty());
        }
        while definitions.len() > 0
            invariant
                self.stack@.len() == 2,
                self.stack@[0] == root0,
                self.stack@[1].ele_type matches crate::svg_element::SvgElementType::Defs,
                self.definitions@.len() == 0,
                self.contents@ == fcontents,
                self.config == cfg0,
                self.bbox == bb0,
                self.version == ver0,
                self.stack@[1].contents@.len() <= defs0.len(),
                definitions@ == defs0.skip(
                    self.stack@[1].contents@.len() as int,
                ),
                self.stack@[1].contents@ == defs0.take(
                    self.stack@[1].contents@.len() as int,
                ),
            decreases definitions@.len(),
        {
            let ghost consumed = self.stack@[1].contents@.len() as int;
            proof {
                lemma_skip_step(defs0, consumed);
            }
            let d = definitions.remove(0);
            self.stack_add_subelement(d);
            proof {
                assert(d == defs0[consumed]);
                assert(definitions@ == defs0.skip(consumed + 1));
                assert(self.stack@[1].contents@ =~= defs0.take(consumed + 1));
            }
        }
        proof {
            assert(self.stack@[1].contents@ =~= defs0);
        }
        let ghost defs_elem = self.stack@[1];
        self.stack_pop_to_child();
        proof {
            assert(self.stack@[0].contents@ =~= seq![defs_elem]);
        }
        let mut contents: Vec<SvgElement> = Vec::new();
        core::mem::swap(&mut contents, &mut self.contents);
        let ghost base = self.stack@[0].contents@;
        proof {
            assert(base + fcontents.take(0) =~= base);
            assert(fcontents.skip(0) =~= fcontents);
        }
        while contents.len() > 0
            invariant
                self.stack@.len() == 1,
                self.stack@[0].ele_type matches crate::svg_element::SvgElementType::Svg(_),
                self.stack@[0].attributes@ == root_attrs,
                base == seq![defs_elem],
                self.stack@[0].contents@.len() >= 1,
                self.contents@.len() == 0,
                self.definitions@.len() == 0,
                self.config == cfg0,
                self.bbox == bb0,
                self.version == ver0,
                self.stack@[0].contents@[0] == defs_elem,
                self.stack@[0].ele_type matches crate::svg_element::SvgElementType::Svg(_),
                self.stack@[0].contents@.len() - 1 <= fcontents.len(),
                self.stack@[0].contents@ == base + fcontents.take(
                    self.stack@[0].contents@.len() - 1,
                ),
                contents@ == fcontents.skip(self.stack@[0].contents@.len() - 1),
            decreases contents@.len(),
        {
            let ghost consumed = self.stack@[0].contents@.len() as int - 1;
            proof {
                lemma_skip_step(fcontents, consumed);
            }
            let d = contents.remove(0);
            self.stack_add_subelement(d);
            proof {
                assert(d == fcontents[consumed]);
                assert(contents@ == fcontents.skip(consumed + 1));
                assert(self.stack@[0].contents@ =~= base + fcontents.take(consumed + 1));
            }
        }
        proof {
            assert(self.stack@[0].contents@ =~= base + fcontents);
        }
        if self.config.show_grid {
            let grid_box = self.bbox;
            let mut ele = SvgElement::new_grid(grid_box, 10_000_000, 100_000, "grey");
            let ghost grid0 = ele;
            // the grid is built here, after the finalize pass, so it is the
            // one node finalized now; its extra outline node is discarded,
            // as the grid is a debug overlay itself
            let _grid_extras = ele.finalize(&self.config);
            proof {
                let t0 = grid0.transform;
                assert(crate::transform::svg_attr_spec(t0) =~= Seq::<char>::empty());
                assert(crate::svg_element::transform_attr_part(t0) =~= Seq::<
                    (Seq<char>, Option<Seq<char>>, Seq<char>),
                >::empty());
                assert(crate::svg_element::attr_views(ele.attributes@) =~= seq![
                    (("fill")@, Option::<Seq<char>>::None, ("None")@),
                    (("stroke")@, Option::<Seq<char>>::None, ("grey")@),
                    (
                        ("stroke-width")@,
                        Option::<Seq<char>>::None,
                        crate::fmt::fixed4_digits(100_000),
                    ),
                ] + seq![
                    (
                        ("d")@,
                        Option::<Seq<char>>::None,
                        crate::svg_element::grid_d_text(grid_box, 10_000_000, 10_000_000),
                    ),
                ]);
            }
            self.stack_add_subelement(ele);
        }
        proof {
            let root = self.stack@[0];
            assert forall|i: int| 0 <= i < fcontents.len() implies root.contents@[1 + i]
                == fcontents[i] by {
                assert((base + fcontents)[1 + i] == fcontents[i]);
            }
        }
        Ok(())
    }

    /// An iterator over the markup events of the generated document.
    pub fn iter_events<'a>(&'a self) -> (r: crate::svg_event::ElementIter<'a>)
        requires
            self.stack@.len() > 0,
        ensures
            crate::svg_event::iter_wf(r),
            crate::svg_event::events_left(r) == 2 + crate::svg_event::ev_count(
                self.stack@[0],
            ),
    {
        crate::svg_event::ElementIter::new(stack_root(&self.stack))
    }
}

/// Consuming the front of the remaining suffix advances the split point.
proof fn lemma_skip_step(s: Seq<SvgElement>, c: int)
    requires
        0 <= c < s.len(),
    ensures
        s.skip(c)[0] == s[c],
        s.skip(c).remove(0) == s.skip(c + 1),
{
    assert(s.skip(c).remove(0) =~= s.skip(c + 1));
}

/// Everything of a diagram except its construction stack is unchanged.
pub open spec fn unchanged_but_stack(a: Svg, b: Svg) -> bool {
    &&& b.version == a.version
    &&& b.config == a.config
    &&& b.bbox == a.bbox
    &&& b.contents@ == a.contents@
    &&& b.definitions@ == a.definitions@
}

/// Borrow the first element of the stack.
fn stack_root<'a>(v: &'a Vec<SvgElement>) -> (r: &'a SvgElement)
    requires
        v@.len() > 0,
    ensures
        *r == v@[0],
{
    &v[0]
}

} // verus!
