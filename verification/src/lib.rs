//! A library for building vector diagrams out of geometric primitives and
//! serialising them as a stream of markup events.
//!
//! All geometry is carried in a fixed-point encoding: an `i64` holds a real
//! value scaled by one million (see [`fixed::FX_ONE`]).  The geometric
//! algebra (ranges, bounding boxes, affine transforms), the curve-path
//! assembly with corner rounding, the parametric polygon generator, the
//! two-phase element tree and the depth-first event iterator are all
//! verified against the contracts stated in each module.

pub mod bbox;
pub mod bezier;
pub mod bezier_path;
pub mod color_database;
pub mod elements;
pub mod fixed;
pub mod fmt;
pub mod font_metrics;
pub mod namespace;
pub mod point;
pub mod polygon;
pub mod range;
pub mod svg;
pub mod svg_element;
pub mod svg_event;
pub mod traits;
pub mod transform;
pub mod trig;

pub use bbox::BBox;
pub use bezier::Bezier;
pub use bezier_path::BezierPath;
pub use color_database::Color;
pub use color_database::ColorDatabase;
pub use color_database::Rgba;
pub use elements::Attr;
pub use elements::Attributes;
pub use elements::Config;
pub use elements::Element;
pub use elements::Group;
pub use elements::LayoutElement;
pub use elements::Path;
pub use elements::PreLayoutElement;
pub use fixed::FX_ONE;
pub use font_metrics::CharIndices;
pub use namespace::NamespaceName;
pub use point::Point;
pub use polygon::Polygon;
pub use range::Range;
pub use svg::Svg;
pub use svg::SvgConfig;
pub use svg::SvgVersion;
pub use svg_element::SvgElement;
pub use svg_element::SvgElementType;
pub use svg_element::SvgGrid;
pub use svg_element::SvgGroup;
pub use svg_element::SvgPath;
pub use svg_element::SvgSvg;
pub use svg_event::ElementIter;
pub use svg_event::XmlEvent;
pub use traits::CreateSvg;
pub use traits::SvgAttributes;
pub use transform::Error;
pub use transform::Transform;
