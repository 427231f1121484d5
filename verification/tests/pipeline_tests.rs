use glyph_mesh::geometry::{Contour, Point, Segment, Shape};
use glyph_mesh::path::{PathCommand, PathError};
use glyph_mesh::pipeline::{
    accumulate_glyphs, glyphs_to_paths, Color, GeometryError, GlyphTess, Vertex,
};

fn pt(x: u32, y: u32) -> Point {
    Point { x, y }
}

#[test]
fn green_holds_the_bits_of_solid_green() {
    let c = Color::green();
    assert_eq!(c.r, 0.0f32.to_bits());
    assert_eq!(c.g, 1.0f32.to_bits());
    assert_eq!(c.b, 0.0f32.to_bits());
}

#[test]
fn shapeless_glyphs_contribute_nothing() {
    // A string of nothing but invisible glyphs, such as a single space:
    // the geometry buffer stays empty.
    let glyphs = vec![GlyphTess::NoShape];
    let buffer = accumulate_glyphs(&glyphs, Color::green()).unwrap();
    assert_eq!(buffer.vertices.len(), 0);
    assert_eq!(buffer.indices.len(), 0);
}

#[test]
fn meshes_are_appended_with_shifted_indices() {
    let first = GlyphTess::Mesh {
        positions: vec![pt(0, 0), pt(1, 0), pt(0, 1)],
        indices: vec![0, 1, 2],
    };
    let second = GlyphTess::Mesh {
        positions: vec![pt(5, 5), pt(6, 5), pt(5, 6)],
        indices: vec![2, 1, 0],
    };
    let color = Color::green();
    let buffer = accumulate_glyphs(&vec![first, GlyphTess::NoShape, second], color).unwrap();
    assert_eq!(buffer.vertices.len(), 6);
    assert_eq!(buffer.vertices[0], Vertex { position: pt(0, 0), color });
    assert_eq!(buffer.vertices[3], Vertex { position: pt(5, 5), color });
    assert_eq!(buffer.indices, vec![0, 1, 2, 5, 4, 3]);
    for &index in &buffer.indices {
        assert!((index as usize) < buffer.vertices.len());
    }
}

#[test]
fn mesh_index_out_of_bounds_is_rejected() {
    let bad = GlyphTess::Mesh { positions: vec![pt(0, 0), pt(1, 1)], indices: vec![0, 1, 2] };
    let result = accumulate_glyphs(&vec![bad], Color::green());
    assert_eq!(result.unwrap_err(), GeometryError::IndexOutOfBounds);
}

#[test]
fn vertex_count_past_the_index_limit_is_rejected() {
    // 16-bit indices address fewer than 65,536 vertices; two meshes of
    // 40,000 positions each overflow that.
    let positions: Vec<Point> = (0..40_000u32).map(|i| pt(i, i)).collect();
    let a = GlyphTess::Mesh { positions: positions.clone(), indices: vec![0] };
    let b = GlyphTess::Mesh { positions, indices: vec![0] };
    let result = accumulate_glyphs(&vec![a, b], Color::green());
    assert_eq!(result.unwrap_err(), GeometryError::TooManyVertices);
}

#[test]
fn paths_are_planned_per_glyph_and_skip_the_shapeless() {
    let shape = Shape {
        contours: vec![Contour {
            segments: vec![Segment::Line(pt(0, 0), pt(4, 0)), Segment::Line(pt(4, 0), pt(0, 0))],
        }],
    };
    let shapes = vec![None, Some(shape), None];
    let paths = glyphs_to_paths(&shapes).unwrap();
    assert_eq!(paths.len(), 3);
    assert!(paths[0].is_none());
    assert!(paths[2].is_none());
    let path = paths[1].as_ref().unwrap();
    assert_eq!(
        path.commands,
        vec![
            PathCommand::MoveTo(pt(0, 0)),
            PathCommand::LineTo(pt(4, 0)),
            PathCommand::LineTo(pt(0, 0)),
            PathCommand::Close,
        ]
    );
}

#[test]
fn empty_contour_stops_the_path_stage() {
    let shape = Shape { contours: vec![Contour { segments: vec![] }] };
    let result = glyphs_to_paths(&vec![Some(shape)]);
    assert_eq!(result.unwrap_err(), PathError::EmptyContour);
}

#[test]
fn two_runs_give_identical_buffers() {
    // Determinism of the verified stages: equal inputs, equal outputs.
    let shape = Shape {
        contours: vec![Contour {
            segments: vec![
                Segment::Line(pt(0, 0), pt(9, 0)),
                Segment::Curve(pt(9, 0), pt(9, 9), pt(0, 0)),
            ],
        }],
    };
    let shapes = vec![Some(shape.clone()), None, Some(shape)];
    let paths_a = glyphs_to_paths(&shapes).unwrap();
    let paths_b = glyphs_to_paths(&shapes).unwrap();
    for (a, b) in paths_a.iter().zip(paths_b.iter()) {
        match (a, b) {
            (None, None) => {}
            (Some(pa), Some(pb)) => assert_eq!(pa.commands, pb.commands),
            _ => panic!("the two runs planned different glyphs"),
        }
    }

    let glyphs = vec![
        GlyphTess::Mesh { positions: vec![pt(0, 0), pt(1, 0), pt(0, 1)], indices: vec![0, 1, 2] },
        GlyphTess::NoShape,
    ];
    let buffer_a = accumulate_glyphs(&glyphs, Color::green()).unwrap();
    let buffer_b = accumulate_glyphs(&glyphs, Color::green()).unwrap();
    assert_eq!(buffer_a.vertices, buffer_b.vertices);
    assert_eq!(buffer_a.indices, buffer_b.indices);
}
