//! Verified core of an SVG simplification and filtering library.
//!
//! The crate holds the parts of the SVG pipeline that decide and compute on
//! plain values: attribute keywords and their defaults, identifier
//! generation, filter inputs and primitives, references between the nodes
//! of a converted tree and the passes that clean it up, image sniffing and
//! embedding, raster helpers of the filter primitives, text positions and
//! glyph clusters, and command-line option parsing.

pub mod text;
pub mod tree;
pub mod ids;
pub mod filter_input;
pub mod filters;
pub mod lighting;
pub mod convolve;
pub mod image;
pub mod shapes;
pub mod args;
pub mod export;
pub mod links;
pub mod primitives;
pub mod errors;
pub mod paint_server;
pub mod cleanup;
pub mod text_layout;
pub mod compare;
pub mod subroots;
pub mod markers;
pub mod href;
pub mod recursion;
pub mod inherit;
pub mod text_style;
pub mod group;
pub mod text_positions;
pub mod text_chunks;
