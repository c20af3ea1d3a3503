//! Verified core of an SVG-to-triangle-mesh pipeline.
//!
//! The crate parses icon-style SVG markup, rewrites `circle`, `rect` and
//! `polygon` elements into path-data strings, lexes and interprets the SVG
//! path-data grammar into absolute-space geometry directives, and replays
//! those directives into the lyon tessellator to obtain a flat triangle mesh.
//!
//! Scalar values travel as IEEE 754 single-precision bit patterns (`u32`),
//! so that the verifier can track them exactly; the floating-point
//! operations themselves stand behind thin trusted wrappers.

pub mod extract;
pub mod float_bits;
pub mod interpreter;
pub mod mesh;
pub mod path_data;
pub mod primitives;
pub mod tessellate;
pub mod tokenizer;
