use glyph_mesh::geometry::{Contour, Point, Segment, Shape};
use glyph_mesh::path::{contour_to_path, contours_to_path, PathBuilder, PathCommand, PathError};

fn pt(x: u32, y: u32) -> Point {
    Point { x, y }
}

#[test]
fn triangle_contour_commands() {
    // A closed triangle outline: two line segments whose loop ends where
    // it began.
    let p0 = pt(0, 0);
    let p1 = pt(100, 0);
    let p2 = pt(0, 100);
    let contour = Contour { segments: vec![Segment::Line(p0, p1), Segment::Line(p1, p2)] };
    let mut builder = PathBuilder::new();
    let result = contour_to_path(&mut builder, &contour);
    assert!(result.is_ok());
    assert_eq!(
        builder.build().commands,
        vec![
            PathCommand::MoveTo(p0),
            PathCommand::LineTo(p1),
            PathCommand::LineTo(p2),
            PathCommand::Close,
        ]
    );
}

#[test]
fn quadratic_contour_commands() {
    // A contour of one quadratic curve whose end point equals its start.
    let s = pt(10, 10);
    let c = pt(50, 90);
    let contour = Contour { segments: vec![Segment::Curve(s, c, s)] };
    let mut builder = PathBuilder::new();
    let result = contour_to_path(&mut builder, &contour);
    assert!(result.is_ok());
    assert_eq!(
        builder.build().commands,
        vec![PathCommand::MoveTo(s), PathCommand::QuadraticTo(c, s), PathCommand::Close]
    );
}

#[test]
fn empty_contour_is_rejected() {
    let contour = Contour { segments: vec![] };
    let mut builder = PathBuilder::new();
    let result = contour_to_path(&mut builder, &contour);
    assert_eq!(result, Err(PathError::EmptyContour));
    assert_eq!(builder.build().commands, vec![]);
}

#[test]
fn command_count_is_segments_plus_two() {
    let contour = Contour {
        segments: vec![
            Segment::Line(pt(0, 0), pt(1, 0)),
            Segment::Curve(pt(1, 0), pt(2, 2), pt(0, 1)),
            Segment::Line(pt(0, 1), pt(0, 0)),
        ],
    };
    let mut builder = PathBuilder::new();
    contour_to_path(&mut builder, &contour).unwrap();
    let commands = builder.build().commands;
    assert_eq!(commands.len(), contour.segments.len() + 2);
}

#[test]
fn shape_concatenates_contours_in_order() {
    let outer = Contour { segments: vec![Segment::Line(pt(0, 0), pt(8, 0)), Segment::Line(pt(8, 0), pt(0, 0))] };
    let inner = Contour { segments: vec![Segment::Curve(pt(2, 2), pt(3, 3), pt(2, 2))] };
    let shape = Shape { contours: vec![outer, inner] };
    let path = contours_to_path(&shape).unwrap();
    assert_eq!(
        path.commands,
        vec![
            PathCommand::MoveTo(pt(0, 0)),
            PathCommand::LineTo(pt(8, 0)),
            PathCommand::LineTo(pt(0, 0)),
            PathCommand::Close,
            PathCommand::MoveTo(pt(2, 2)),
            PathCommand::QuadraticTo(pt(3, 3), pt(2, 2)),
            PathCommand::Close,
        ]
    );
}

#[test]
fn empty_shape_gives_empty_path() {
    let shape = Shape { contours: vec![] };
    let path = contours_to_path(&shape).unwrap();
    assert_eq!(path.commands, vec![]);
}

#[test]
fn shape_with_empty_contour_is_rejected() {
    let good = Contour { segments: vec![Segment::Line(pt(0, 0), pt(0, 0))] };
    let bad = Contour { segments: vec![] };
    let shape = Shape { contours: vec![good, bad] };
    assert_eq!(contours_to_path(&shape).unwrap_err(), PathError::EmptyContour);
}
