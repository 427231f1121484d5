//! The outline data that the pipeline consumes: points, segments,
//! contours and glyph shapes.

use vstd::prelude::*;

verus! {

/// A point of the glyph coordinate plane.
///
/// The pipeline never computes with coordinates: it only moves them from
/// outline segments into path commands and mesh vertices. Each coordinate
/// is therefore carried as an opaque 32-bit word; a renderer is free to
/// store IEEE-754 single-precision bit patterns in it.
#[derive(Clone, Copy, Debug, PartialEq, Eq, Structural)]
pub struct Point {
    pub x: u32,
    pub y: u32,
}

/// One piece of a contour: a straight line or a quadratic curve.
#[derive(Clone, Copy, Debug, PartialEq, Eq, Structural)]
pub enum Segment {
    /// A straight line from the first point to the second.
    Line(Point, Point),
    /// A quadratic curve from a start point over a control point to an
    /// end point.
    Curve(Point, Point, Point),
}

/// A closed loop of segments: one loop of a glyph outline. A valid
/// contour has at least one segment; converting an empty one to a path
/// is an error.
#[derive(Clone, Debug)]
pub struct Contour {
    pub segments: Vec<Segment>,
}

/// A glyph outline: an ordered sequence of contours. Simple glyphs have
/// one contour; glyphs with holes (an "o") have several; a shape with no
/// contours is degenerate but allowed.
#[derive(Clone, Debug)]
pub struct Shape {
    pub contours: Vec<Contour>,
}

impl Segment {
    /// The point at which the segment starts.
    pub open spec fn start(self) -> Point {
        match self {
            Segment::Line(p0, _) => p0,
            Segment::Curve(p0, _, _) => p0,
        }
    }

    /// The point at which the segment ends.
    pub open spec fn end(self) -> Point {
        match self {
            Segment::Line(_, p1) => p1,
            Segment::Curve(_, _, p2) => p2,
        }
    }
}

/// The closed-loop invariant of a contour: every segment ends where the
/// next one starts, and the last segment ends where the first began.
/// The font side guarantees this of the outlines it hands over.
pub open spec fn contour_closed(segments: Seq<Segment>) -> bool {
    forall|i: int|
        0 <= i < segments.len() ==> (#[trigger] segments[i]).end() == segments[if i + 1
            == segments.len() {
            0int
        } else {
            i + 1
        }].start()
}

} // verus!
