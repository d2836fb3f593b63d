//! The traits diagram-building collaborators implement to render their own
//! node types into the element tree.

use vstd::prelude::*;

use crate::elements::Attributes;
use crate::elements::LayoutElement;
use crate::svg::Svg;
use crate::svg_element::SvgElement;

verus! {

/// Attributes that know how to serialise themselves onto an element.
pub trait SvgAttributes: Attributes {
    /// Add this record's attributes to an element of the diagram.
    fn add_attributes(&self, svg: &mut Svg, element: &mut SvgElement);
}

/// A laid-out node that can render itself into a diagram.
pub trait CreateSvg<A: SvgAttributes>: LayoutElement<A> {
    /// Render this node into the diagram.
    fn create_svg(&self, svg: &mut Svg);
}

} // verus!
