//! The capability traits of the pre-layout element tree.

use vstd::prelude::*;

use crate::bbox::BBox;
use crate::transform::Transform;

verus! {

/// The configuration a layout pass is given.
pub trait Config {

}

/// Access to the attributes a diagram keeps on every node: its bounding
/// box and its transform.
pub trait Attributes: Sized {
    /// A fresh attribute record.
    fn make_default() -> Self;

    /// The node's bounding box.
    fn bbox(&self) -> BBox;

    /// Replace the node's bounding box.
    fn set_bbox(&mut self, bbox: BBox);

    /// The node's transform.
    fn transform(&self) -> Transform;

    /// Replace the node's transform.
    fn set_transform(&mut self, transform: Transform);
}

/// A node before layout: its attributes may still change, and it can be
/// laid out within a bounding box.
pub trait PreLayoutElement<A: Attributes>: Sized {
    /// The node's attribute record, for modification.
    fn attr_mut(&mut self) -> &mut A;

    /// The node's attribute record.
    fn attr(&self) -> &A;

    /// Lay the node out within a bounding box.
    fn layout<C: Config>(self, cfg: &C, within: &BBox) -> Self;
}

/// A node after layout: its attributes are fixed, and it may have
/// finalization work left.
pub trait LayoutElement<A: Attributes>: Sized {
    /// The node's attribute record.
    fn attr(&self) -> &A;

    /// Finalize the node.
    fn finalize<C: Config>(&mut self, cfg: &C);
}

} // verus!
