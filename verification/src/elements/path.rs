//! A path node of the pre-layout element tree.

use vstd::prelude::*;

use crate::bbox::BBox;
use crate::bezier_path::BezierPath;
use crate::elements::Attributes;
use crate::elements::Config;
use crate::polygon::Polygon;

verus! {

/// A path node: a curve path and whether it is closed.
#[derive(Debug)]
pub struct Path<A> {
    /// The node's attribute record
    pub attr: A,
    /// The curve path
    pub path: BezierPath,
    /// Whether the path is closed
    pub closed: bool,
}

impl<A: Attributes> Path<A> {
    /// A path node from a curve path.
    pub fn new_path(path: BezierPath, closed: bool) -> (r: Path<A>)
        ensures
            r.path.elements@ == path.elements@,
            r.closed == closed,
    {
        let attr = A::make_default();
        Path { attr, path, closed }
    }

    /// A path node from a polygon.
    pub fn new_polygon(p: Polygon, closed: bool) -> (r: Path<A>)
        requires
            p.vertices == 0 ==> 0 <= p.size && -360_000_000 <= p.rotation <= i64::MAX
                - 360_000_000 && p.eccentricity > i64::MIN,
            p.vertices >= 2 ==> 0 <= p.rounding,
        ensures
            r.closed == closed,
    {
        Path::new_path(p.as_paths(), closed)
    }

    /// A closed path node outlining a bounding box.
    ///
    /// A box of zero height is given a hair of height (one millionth), so
    /// that a degenerate box still gets a drawable outline.
    pub fn new_box(bbox: BBox) -> (r: Path<A>)
        ensures
            r.closed,
    {
        let (c, w, h) = bbox.get_cwh();
        // a degenerate box still gets an outline: give it a hair of height
        let h = if h == 0 {
            1
        } else {
            h
        };
        let rect = Polygon::new_rect(w, h).translated(c);
        Path::new_polygon(rect, true)
    }

    /// The node's attribute record, for modification.
    pub fn attr_mut(&mut self) -> (r: &mut A) {
        &mut self.attr
    }

    /// The node's attribute record.
    pub fn attr(&self) -> (r: &A) {
        &self.attr
    }

    /// Lay the path out within a bounding box; a path needs no work of its
    /// own.
    pub fn layout<C: Config>(self, _cfg: &C, _within: &BBox) -> (r: Path<A>)
        ensures
            r == self,
    {
        self
    }

    /// Finalize the path; a path needs no work of its own.
    pub fn finalize<C: Config>(&mut self, _cfg: &C)
        ensures
            *final(self) == *old(self),
    {
    }
}

} // verus!
