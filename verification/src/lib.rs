//! Box-tree generation and style mapping for a CSS layout engine.
//!
//! The library turns a DOM tree with per-element computed styles into a
//! layout box tree whose boxes carry a layout style model, following CSS
//! Display Level 3 (box tree), CSS Box Model Level 3 and CSS Flexbox Level 1.

pub mod css;
pub mod style_map;
pub mod text;
pub mod dom;
pub mod tree;
pub mod convert;
pub mod shape;
pub mod mapping;
pub mod style_laws;

pub use css::{is_non_rendered_tag, kw_eq};
pub use convert::build_layout_tree;
pub use tree::LayoutTree;
