//! A group node of the pre-layout element tree.

use vstd::prelude::*;

use crate::bbox::BBox;
use crate::elements::Attributes;
use crate::elements::Config;
use crate::elements::Element;

verus! {

/// A group of further nodes; its bounding box is the union of its
/// children's boxes.
#[derive(Debug)]
#[verifier::reject_recursive_types(A)]
pub struct Group<A> {
    /// The group's attribute record
    pub attr: A,
    /// The grouped nodes, in order
    pub contents: Vec<Element<A>>,
}

impl<A: Attributes> Group<A> {
    /// A group of the given nodes, with its bounding box set to the union
    /// of theirs.
    pub fn new(contents: Vec<Element<A>>) -> (r: Group<A>)
        ensures
            r.contents@.len() == contents@.len(),
    {
        let mut attr = A::make_default();
        let mut bbox = BBox::none();
        let mut i: usize = 0;
        while i < contents.len()
            decreases contents@.len() - i,
        {
            bbox = bbox.union(element_bbox(&contents, i));
            i = i + 1;
        }
        attr.set_bbox(bbox);
        Group { attr, contents }
    }

    /// The group's attribute record, for modification.
    pub fn attr_mut(&mut self) -> (r: &mut A) {
        &mut self.attr
    }

    /// The group's attribute record.
    pub fn attr(&self) -> (r: &A) {
        &self.attr
    }

    /// Lay the group out within a bounding box; a group needs no work of
    /// its own.
    pub fn layout<C: Config>(self, _cfg: &C, _within: &BBox) -> (r: Group<A>)
        ensures
            r == self,
    {
        self
    }

    /// Finalize the group; a group needs no work of its own.
    pub fn finalize<C: Config>(&mut self, _cfg: &C)
        ensures
            *final(self) == *old(self),
    {
    }
}

/// The bounding box of one node of a list.
fn element_bbox<A: Attributes>(contents: &Vec<Element<A>>, i: usize) -> (r: BBox)
    requires
        i < contents@.len(),
{
    contents[i].attr().bbox()
}

} // verus!
