//! The text-to-geometry pipeline: planning one path per glyph of a
//! laid-out string and accumulating the per-glyph triangulations into a
//! single shared geometry buffer.

use vstd::prelude::*;
use crate::geometry::{Contour, Point, Shape};
use crate::path::{contours_to_path, shape_commands, Path, PathError};

verus! {

/// The largest number of vertices the shared buffer may hold: the
/// triangle list uses 16-bit indices, so the total vertex count across
/// the whole string must stay below 65,536.
pub const MAX_VERTEX_COUNT: usize = 65535;

/// An RGB color attached to every vertex. Like coordinates, the channels
/// are opaque 32-bit words; a renderer stores IEEE-754 single-precision
/// bit patterns in them.
#[derive(Clone, Copy, Debug, PartialEq, Eq, Structural)]
pub struct Color {
    pub r: u32,
    pub g: u32,
    pub b: u32,
}

impl Color {
    /// The default vertex color, solid green: channel words holding the
    /// single-precision bit patterns of zero, one and zero.
    pub fn green() -> (color: Color)
        ensures
            color == (Color { r: 0, g: 0x3F80_0000, b: 0 }),
    {
        Color { r: 0, g: 0x3F80_0000, b: 0 }
    }
}

/// One mesh vertex: a position and its color.
#[derive(Clone, Copy, Debug, PartialEq, Eq, Structural)]
pub struct Vertex {
    pub position: Point,
    pub color: Color,
}

/// The triangulated mesh for a whole string: a vertex array plus a
/// triangle list of 16-bit indices into it.
#[derive(Clone, Debug)]
pub struct GeometryBuffer {
    pub vertices: Vec<Vertex>,
    pub indices: Vec<u16>,
}

/// What one glyph of the laid-out string hands the accumulation step:
/// either the glyph had no shape (whitespace and other invisible glyphs),
/// or the triangulation of its path — positions plus a triangle list of
/// indices into them.
#[derive(Clone, Debug)]
pub enum GlyphTess {
    /// The glyph has no shape; it contributes nothing.
    NoShape,
    /// The triangulated mesh of the glyph's path.
    Mesh { positions: Vec<Point>, indices: Vec<u16> },
}

/// The ways geometry accumulation can fail.
#[derive(Clone, Copy, Debug, PartialEq, Eq, Structural)]
pub enum GeometryError {
    /// A glyph mesh holds an index that points outside its own position
    /// array.
    IndexOutOfBounds,
    /// Appending the glyph mesh would push the vertex count past what
    /// 16-bit indices can address.
    TooManyVertices,
}

/// Every index of a glyph mesh points inside its position array.
pub open spec fn mesh_wf(positions: Seq<Point>, indices: Seq<u16>) -> bool {
    forall|i: int| 0 <= i < indices.len() ==> (#[trigger] indices[i] as int) < positions.len()
}

/// The vertices a glyph mesh adds: its positions in order, each carrying
/// the given color.
pub open spec fn colored_vertices(positions: Seq<Point>, color: Color) -> Seq<Vertex> {
    positions.map_values(|p: Point| Vertex { position: p, color })
}

/// The indices a glyph mesh adds: its own indices shifted past the
/// vertices already in the buffer.
pub open spec fn shifted_indices(indices: Seq<u16>, offset: nat) -> Seq<u16> {
    indices.map_values(|k: u16| (k + offset) as u16)
}

impl GeometryBuffer {
    /// Every triangle index points inside the vertex array, and the
    /// vertex count stays within what 16-bit indices can address.
    pub open spec fn wf(self) -> bool {
        self.vertices@.len() <= MAX_VERTEX_COUNT && forall|i: int|
            0 <= i < self.indices@.len() ==> (#[trigger] self.indices@[i] as int)
                < self.vertices@.len()
    }

    /// An empty buffer.
    pub fn new() -> (buffer: GeometryBuffer)
        ensures
            buffer.wf(),
            buffer.vertices@ == Seq::<Vertex>::empty(),
            buffer.indices@ == Seq::<u16>::empty(),
    {
        GeometryBuffer { vertices: Vec::new(), indices: Vec::new() }
    }

    /// Appends one glyph's triangulated mesh: every position becomes a
    /// vertex of the given color, and every mesh index is shifted past
    /// the vertices already present. A mesh with an out-of-range index,
    /// or one that would push the vertex count past the 16-bit limit, is
    /// rejected and leaves the buffer untouched.
    pub fn append_mesh(&mut self, positions: &Vec<Point>, indices: &Vec<u16>, color: Color) -> (result: Result<(), GeometryError>)
        requires
            old(self).wf(),
        ensures
            final(self).wf(),
            match result {
                Ok(()) => mesh_wf(positions@, indices@)
                    && old(self).vertices@.len() + positions@.len() <= MAX_VERTEX_COUNT
                    && final(self).vertices@
                        == old(self).vertices@ + colored_vertices(positions@, color)
                    && final(self).indices@
                        == old(self).indices@ + shifted_indices(indices@, old(self).vertices@.len()),
                Err(GeometryError::IndexOutOfBounds) => !mesh_wf(positions@, indices@)
                    && *final(self) == *old(self),
                Err(GeometryError::TooManyVertices) => mesh_wf(positions@, indices@)
                    && old(self).vertices@.len() + positions@.len() > MAX_VERTEX_COUNT
                    && *final(self) == *old(self),
            },
    {
        let mesh_len = indices.len();
        let position_count = positions.len();
        let mut j: usize = 0;
        while j < mesh_len
            invariant
                self.wf(),
                mesh_len == indices@.len(),
                position_count == positions@.len(),
                j <= mesh_len,
                forall|t: int| 0 <= t < j ==> (#[trigger] indices@[t] as int) < position_count,
            decreases mesh_len - j,
        {
            if indices[j] as usize >= position_count {
                proof {
                    assert(!mesh_wf(positions@, indices@));
                }
                return Err(GeometryError::IndexOutOfBounds);
            }
            j = j + 1;
        }
        if position_count > MAX_VERTEX_COUNT - self.vertices.len() {
            return Err(GeometryError::TooManyVertices);
        }

        let offset = self.vertices.len();
        let ghost vertices0 = self.vertices@;
        let ghost indices0 = self.indices@;
        let mut j: usize = 0;
        while j < position_count
            invariant
                position_count == positions@.len(),
                j <= position_count,
                self.indices@ == indices0,
                self.vertices@ == vertices0 + positions@.take(j as int).map_values(
                    |p: Point| Vertex { position: p, color },
                ),
            decreases position_count - j,
        {
            self.vertices.push(Vertex { position: positions[j], color });
            proof {
                assert(self.vertices@ =~= vertices0 + positions@.take(j as int + 1).map_values(
                    |p: Point| Vertex { position: p, color },
                ));
            }
            j = j + 1;
        }
        proof {
            assert(positions@.take(position_count as int) =~= positions@);
        }

        let mut j: usize = 0;
        while j < mesh_len
            invariant
                mesh_len == indices@.len(),
                position_count == positions@.len(),
                offset == vertices0.len(),
                offset + position_count <= MAX_VERTEX_COUNT,
                j <= mesh_len,
                forall|t: int| 0 <= t < mesh_len ==> (#[trigger] indices@[t] as int)
                    < position_count,
                self.vertices@ == vertices0 + colored_vertices(positions@, color),
                self.indices@ == indices0 + indices@.take(j as int).map_values(
                    |k: u16| (k + offset) as u16,
                ),
            decreases mesh_len - j,
        {
            let shifted = (indices[j] as usize + offset) as u16;
            self.indices.push(shifted);
            proof {
                assert(self.indices@ =~= indices0 + indices@.take(j as int + 1).map_values(
                    |k: u16| (k + offset) as u16,
                ));
            }
            j = j + 1;
        }
        proof {
            assert(indices@.take(mesh_len as int) =~= indices@);
            assert(indices0 + indices@.map_values(|k: u16| (k + offset) as u16) =~= indices0
                + shifted_indices(indices@, old(self).vertices@.len()));
            assert forall|i: int| 0 <= i < self.indices@.len() implies (
            #[trigger] self.indices@[i] as int) < self.vertices@.len() by {
                if i < indices0.len() {
                    assert(indices0[i] == old(self).indices@[i]);
                } else {
                    let t = i - indices0.len();
                    assert(self.indices@[i] == shifted_indices(
                        indices@,
                        old(self).vertices@.len(),
                    )[t]);
                }
            }
        }
        Ok(())
    }
}

/// The vertex and index arrays after folding one glyph outcome into them,
/// or the error that outcome raises: a glyph with no shape changes
/// nothing; a mesh is colored, shifted and appended.
pub open spec fn fold_one(
    vertices: Seq<Vertex>,
    indices: Seq<u16>,
    glyph: GlyphTess,
    color: Color,
) -> Result<(Seq<Vertex>, Seq<u16>), GeometryError> {
    match glyph {
        GlyphTess::NoShape => Ok((vertices, indices)),
        GlyphTess::Mesh { positions, indices: mesh_indices } => if !mesh_wf(
            positions@,
            mesh_indices@,
        ) {
            Err(GeometryError::IndexOutOfBounds)
        } else if vertices.len() + positions@.len() > MAX_VERTEX_COUNT {
            Err(GeometryError::TooManyVertices)
        } else {
            Ok(
                (
                    vertices + colored_vertices(positions@, color),
                    indices + shifted_indices(mesh_indices@, vertices.len()),
                ),
            )
        },
    }
}

/// The buffer contents after folding a whole string's glyph outcomes, in
/// string order, into the given arrays — or the first error raised.
pub open spec fn fold_glyphs(
    vertices: Seq<Vertex>,
    indices: Seq<u16>,
    glyphs: Seq<GlyphTess>,
    color: Color,
) -> Result<(Seq<Vertex>, Seq<u16>), GeometryError>
    decreases glyphs.len(),
{
    if glyphs.len() == 0 {
        Ok((vertices, indices))
    } else {
        match fold_one(vertices, indices, glyphs[0], color) {
            Ok((v, ix)) => fold_glyphs(v, ix, glyphs.drop_first(), color),
            Err(e) => Err(e),
        }
    }
}

/// Builds the shared geometry buffer for a whole string from its per-glyph
/// tessellation outcomes, in string order: glyphs without a shape are
/// passed over, every mesh is appended with the given vertex color. The
/// first bad mesh stops the accumulation.
pub fn accumulate_glyphs(glyphs: &Vec<GlyphTess>, color: Color) -> (result: Result<
    GeometryBuffer,
    GeometryError,
>)
    ensures
        match result {
            Ok(buffer) => buffer.wf() && fold_glyphs(
                Seq::<Vertex>::empty(),
                Seq::<u16>::empty(),
                glyphs@,
                color,
            ) == Ok::<(Seq<Vertex>, Seq<u16>), GeometryError>((buffer.vertices@, buffer.indices@)),
            Err(e) => fold_glyphs(Seq::<Vertex>::empty(), Seq::<u16>::empty(), glyphs@, color)
                == Err::<(Seq<Vertex>, Seq<u16>), GeometryError>(e),
        },
{
    let mut buffer = GeometryBuffer::new();
    proof {
        assert(glyphs@.skip(0) =~= glyphs@);
    }
    let n = glyphs.len();
    let mut i: usize = 0;
    while i < n
        invariant
            n == glyphs@.len(),
            i <= n,
            buffer.wf(),
            fold_glyphs(Seq::<Vertex>::empty(), Seq::<u16>::empty(), glyphs@, color)
                == fold_glyphs(buffer.vertices@, buffer.indices@, glyphs@.skip(i as int), color),
        decreases n - i,
    {
        let ghost pre_vertices = buffer.vertices@;
        let ghost pre_indices = buffer.indices@;
        proof {
            assert(glyphs@.skip(i as int)[0] == glyphs@[i as int]);
            assert(glyphs@.skip(i as int).drop_first() =~= glyphs@.skip(i as int + 1));
        }
        match &glyphs[i] {
            GlyphTess::NoShape => {},
            GlyphTess::Mesh { positions, indices } => {
                match buffer.append_mesh(positions, indices, color) {
                    Ok(()) => {},
                    Err(e) => {
                        proof {
                            assert(fold_one(pre_vertices, pre_indices, glyphs@[i as int], color)
                                == Err::<(Seq<Vertex>, Seq<u16>), GeometryError>(e));
                        }
                        return Err(e);
                    },
                }
            },
        }
        proof {
            assert(fold_glyphs(pre_vertices, pre_indices, glyphs@.skip(i as int), color)
                == fold_glyphs(buffer.vertices@, buffer.indices@, glyphs@.skip(i as int + 1), color));
        }
        i = i + 1;
    }
    proof {
        assert(glyphs@.skip(n as int) =~= Seq::<GlyphTess>::empty());
    }
    Ok(buffer)
}

/// Per-glyph correspondence between an optional shape and its planned
/// path: a glyph without a shape plans no path; every other glyph's path
/// holds exactly its shape's commands.
pub open spec fn glyph_path_ok(shape: Option<Shape>, path: Option<Path>) -> bool {
    match (shape, path) {
        (Option::None, Option::None) => true,
        (Option::Some(s), Option::Some(p)) => p@ == shape_commands(s.contours@),
        _ => false,
    }
}

/// A shape holds a contour with no segments.
pub open spec fn has_empty_contour(shape: Shape) -> bool {
    exists|j: int|
        0 <= j < shape.contours@.len() && (#[trigger] shape.contours@[j]).segments@.len() == 0
}

/// Plans the path stage for every glyph of a laid-out string, in string
/// order: a glyph without a shape is skipped — it will contribute no
/// geometry — and every other glyph's shape becomes one multi-contour
/// path. The first shape holding an empty contour stops the pipeline.
pub fn glyphs_to_paths(shapes: &Vec<Option<Shape>>) -> (result: Result<
    Vec<Option<Path>>,
    PathError,
>)
    ensures
        match result {
            Ok(paths) => paths@.len() == shapes@.len() && (forall|i: int|
                0 <= i < shapes@.len() ==> glyph_path_ok(shapes@[i], #[trigger] paths@[i]))
                && (forall|i: int|
                0 <= i < shapes@.len() ==> ((#[trigger] shapes@[i]) matches Some(s)
                    ==> !has_empty_contour(s))),
            Err(PathError::EmptyContour) => exists|i: int|
                0 <= i < shapes@.len() && ((#[trigger] shapes@[i]) matches Some(s)
                    && has_empty_contour(s)),
        },
{
    let mut paths: Vec<Option<Path>> = Vec::new();
    let n = shapes.len();
    let mut i: usize = 0;
    while i < n
        invariant
            n == shapes@.len(),
            i <= n,
            paths@.len() == i,
            forall|j: int| 0 <= j < i ==> glyph_path_ok(shapes@[j], #[trigger] paths@[j]),
            forall|j: int|
                0 <= j < i ==> ((#[trigger] shapes@[j]) matches Some(s) ==> !has_empty_contour(s)),
        decreases n - i,
    {
        match &shapes[i] {
            Option::None => {
                paths.push(Option::None);
            },
            Option::Some(shape) => {
                match contours_to_path(shape) {
                    Ok(path) => {
                        paths.push(Option::Some(path));
                    },
                    Err(e) => {
                        proof {
                            assert(shapes@[i as int] matches Some(s) && has_empty_contour(s));
                        }
                        return Err(e);
                    },
                }
            },
        }
        i = i + 1;
    }
    Ok(paths)
}

/// A glyph with no shape contributes zero vertices and zero indices:
/// folding it into the buffer returns the arrays unchanged.
pub proof fn lemma_no_shape_contributes_nothing(
    vertices: Seq<Vertex>,
    indices: Seq<u16>,
    color: Color,
)
    ensures
        fold_one(vertices, indices, GlyphTess::NoShape, color) == Ok::<
            (Seq<Vertex>, Seq<u16>),
            GeometryError,
        >((vertices, indices)),
{
}

/// Determinism of the verified stages: the planned path commands and the
/// accumulated buffer are functions of their inputs alone, so two runs
/// over equal shapes and equal glyph meshes give equal command sequences
/// and equal vertex and index arrays.
pub proof fn lemma_pipeline_deterministic(
    contours1: Seq<Contour>,
    contours2: Seq<Contour>,
    glyphs1: Seq<GlyphTess>,
    glyphs2: Seq<GlyphTess>,
    color: Color,
)
    requires
        contours1 == contours2,
        glyphs1 == glyphs2,
    ensures
        shape_commands(contours1) == shape_commands(contours2),
        fold_glyphs(Seq::<Vertex>::empty(), Seq::<u16>::empty(), glyphs1, color) == fold_glyphs(
            Seq::<Vertex>::empty(),
            Seq::<u16>::empty(),
            glyphs2,
            color,
        ),
{
}

} // verus!

