//! Glyph outlines to triangle meshes.
//!
//! The library turns the vector outlines of a laid-out string into one
//! triangulated mesh: it walks each glyph's closed contours, records the
//! equivalent path commands (move, line, quadratic curve, close), and
//! accumulates the per-glyph triangulations into a single vertex array
//! with a 16-bit triangle index list, ready for upload to a rasterizer.
//!
//! Font parsing, text layout, fill tessellation and rendering are the
//! work of outside collaborators; this crate owns the data transformations
//! between them and proves them exact: path commands mirror the contour
//! segments one for one, every sub-path is closed, glyphs without a shape
//! contribute nothing, and every index of the finished buffer points
//! inside its vertex array.

pub mod geometry;
pub mod path;
pub mod pipeline;
