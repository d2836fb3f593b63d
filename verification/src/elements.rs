//! The pre-layout element tree: drawable nodes generic over their
//! attribute record, laid out and finalized before they are turned into
//! the serialisable element tree.

mod group;
mod path;
mod traits;

pub use group::Group;
pub use path::Path;
pub use traits::Attributes;
pub use traits::Config;
pub use traits::LayoutElement;
pub use traits::PreLayoutElement;

use vstd::prelude::*;

use crate::bbox::BBox;
use crate::transform::Transform;

verus! {

/// The attribute record a diagram keeps on every node: its bounding box
/// and its transform.
#[derive(Debug, Clone, Copy)]
pub struct Attr {
    /// The node's bounding box
    pub bbox: BBox,
    /// The node's transform
    pub transform: Transform,
}

impl Attributes for Attr {
    /// An empty box under the identity transform.
    fn make_default() -> (r: Attr) {
        Attr {
            bbox: BBox::none(),
            transform: Transform::identity(),
        }
    }

    /// The node's bounding box.
    fn bbox(&self) -> (r: BBox) {
        self.bbox
    }

    /// Replace the node's bounding box.
    fn set_bbox(&mut self, bbox: BBox) {
        self.bbox = bbox;
    }

    /// The node's transform.
    fn transform(&self) -> (r: Transform) {
        self.transform
    }

    /// Replace the node's transform.
    fn set_transform(&mut self, transform: Transform) {
        self.transform = transform;
    }
}

/// A drawable node: a group of further nodes, or a path.
#[derive(Debug)]
#[verifier::reject_recursive_types(A)]
pub enum Element<A> {
    /// A group of further nodes
    Group(Group<A>),
    /// A path
    Path(Path<A>),
}

impl<A: Attributes> Element<A> {
    /// An element from a group.
    pub fn new_group(group: Group<A>) -> (r: Element<A>)
        ensures
            r matches Element::Group(g) && g == group,
    {
        Element::Group(group)
    }

    /// An element from a path.
    pub fn new_path(path: Path<A>) -> (r: Element<A>)
        ensures
            r matches Element::Path(p) && p == path,
    {
        Element::Path(path)
    }

    /// The node's attribute record, for modification.
    pub fn attr_mut(&mut self) -> (r: &mut A) {
        match self {
            Element::Group(x) => x.attr_mut(),
            Element::Path(x) => x.attr_mut(),
        }
    }

    /// The node's attribute record.
    pub fn attr(&self) -> (r: &A) {
        match self {
            Element::Group(x) => x.attr(),
            Element::Path(x) => x.attr(),
        }
    }

    /// Lay the node out within a bounding box.
    pub fn layout<C: Config>(self, cfg: &C, within: &BBox) -> (r: Element<A>) {
        match self {
            Element::Group(x) => Element::Group(x.layout(cfg, within)),
            Element::Path(x) => Element::Path(x.layout(cfg, within)),
        }
    }

    /// Finalize the node after layout.
    pub fn finalize<C: Config>(&mut self, cfg: &C) {
        match self {
            Element::Group(x) => x.finalize(cfg),
            Element::Path(x) => x.finalize(cfg),
        }
    }
}

impl<A: Attributes> PreLayoutElement<A> for Element<A> {
    /// The node's attribute record, for modification.
    fn attr_mut(&mut self) -> &mut A {
        Element::attr_mut(self)
    }

    /// The node's attribute record.
    fn attr(&self) -> &A {
        Element::attr(self)
    }

    /// Lay the node out within a bounding box.
    fn layout<C: Config>(self, cfg: &C, within: &BBox) -> Element<A> {
        Element::layout(self, cfg, within)
    }
}

impl<A: Attributes> LayoutElement<A> for Element<A> {
    /// The node's attribute record.
    fn attr(&self) -> &A {
        Element::attr(self)
    }

    /// Finalize the node.
    fn finalize<C: Config>(&mut self, cfg: &C) {
        Element::finalize(self, cfg)
    }
}

} // verus!
