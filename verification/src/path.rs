//! Path construction: a command-recording builder and the conversion of
//! glyph contours into closed sub-paths.

use vstd::prelude::*;
use crate::geometry::{contour_closed, Contour, Point, Segment, Shape};

verus! {

/// One command recorded by the path builder.
#[derive(Clone, Copy, Debug, PartialEq, Eq, Structural)]
pub enum PathCommand {
    /// Start a new sub-path at the point.
    MoveTo(Point),
    /// Draw a straight edge from the current position to the point.
    LineTo(Point),
    /// Draw a quadratic curve over the control point (first) to the end
    /// point (second).
    QuadraticTo(Point, Point),
    /// Seal the current sub-path back to its starting point.
    Close,
}

/// The ways path construction can fail.
#[derive(Clone, Copy, Debug, PartialEq, Eq, Structural)]
pub enum PathError {
    /// A contour with no segments was handed to the converter; a contour
    /// must hold at least one segment.
    EmptyContour,
}

/// Accumulates path commands in order; `build` turns the record into a
/// finished [`Path`].
#[derive(Clone, Debug)]
pub struct PathBuilder {
    commands: Vec<PathCommand>,
}

/// A finished path: the recorded commands of one or more closed
/// sub-paths, in the order they were issued.
#[derive(Clone, Debug)]
pub struct Path {
    pub commands: Vec<PathCommand>,
}

impl View for PathBuilder {
    type V = Seq<PathCommand>;

    closed spec fn view(&self) -> Seq<PathCommand> {
        self.commands@
    }
}

impl View for Path {
    type V = Seq<PathCommand>;

    open spec fn view(&self) -> Seq<PathCommand> {
        self.commands@
    }
}

impl PathBuilder {
    /// A builder with nothing recorded yet.
    pub fn new() -> (builder: PathBuilder)
        ensures
            builder@ == Seq::<PathCommand>::empty(),
    {
        PathBuilder { commands: Vec::new() }
    }

    /// Records the start of a new sub-path at `p`.
    pub fn move_to(&mut self, p: Point)
        ensures
            final(self)@ == old(self)@.push(PathCommand::MoveTo(p)),
    {
        self.commands.push(PathCommand::MoveTo(p));
    }

    /// Records a straight edge to `p`.
    pub fn line_to(&mut self, p: Point)
        ensures
            final(self)@ == old(self)@.push(PathCommand::LineTo(p)),
    {
        self.commands.push(PathCommand::LineTo(p));
    }

    /// Records a quadratic curve over `ctrl` to `to`.
    pub fn quadratic_bezier_to(&mut self, ctrl: Point, to: Point)
        ensures
            final(self)@ == old(self)@.push(PathCommand::QuadraticTo(ctrl, to)),
    {
        self.commands.push(PathCommand::QuadraticTo(ctrl, to));
    }

    /// Records the closing of the current sub-path.
    pub fn close(&mut self)
        ensures
            final(self)@ == old(self)@.push(PathCommand::Close),
    {
        self.commands.push(PathCommand::Close);
    }

    /// Finishes construction and hands the recorded commands over.
    pub fn build(self) -> (path: Path)
        ensures
            path@ == self@,
    {
        Path { commands: self.commands }
    }
}

/// The draw command a single segment contributes: a line segment draws to
/// its end point, a curve segment draws over its control point to its end
/// point.
pub open spec fn segment_command(s: Segment) -> PathCommand {
    match s {
        Segment::Line(_, p1) => PathCommand::LineTo(p1),
        Segment::Curve(_, c, e) => PathCommand::QuadraticTo(c, e),
    }
}

/// The commands a non-empty contour turns into: one move to the first
/// segment's start, one draw command per segment in order, one close.
pub open spec fn contour_commands(segments: Seq<Segment>) -> Seq<PathCommand> {
    seq![PathCommand::MoveTo(segments[0].start())]
        + segments.map_values(|s: Segment| segment_command(s))
        + seq![PathCommand::Close]
}

/// The commands of a whole shape: each contour's commands, in contour
/// order.
pub open spec fn shape_commands(contours: Seq<Contour>) -> Seq<PathCommand>
    decreases contours.len(),
{
    if contours.len() == 0 {
        Seq::empty()
    } else {
        shape_commands(contours.drop_last()) + contour_commands(contours.last().segments@)
    }
}

/// Walks one closed contour and records the equivalent sub-path on the
/// builder: a move to the contour's start, one draw command per segment,
/// and a close. A contour with no segments is rejected and leaves the
/// builder untouched.
pub fn contour_to_path(path_builder: &mut PathBuilder, contour: &Contour) -> (result: Result<
    (),
    PathError,
>)
    ensures
        match result {
            Ok(()) => contour.segments@.len() > 0 && final(path_builder)@ == old(path_builder)@
                + contour_commands(contour.segments@),
            Err(PathError::EmptyContour) => contour.segments@.len() == 0 && final(path_builder)@
                == old(path_builder)@,
        },
{
    if contour.segments.len() == 0 {
        return Err(PathError::EmptyContour);
    }
    let start_point = match contour.segments[0] {
        Segment::Line(p0, _) => p0,
        Segment::Curve(p0, _, _) => p0,
    };
    path_builder.move_to(start_point);

    let ghost base = path_builder@;
    let n = contour.segments.len();
    let mut i: usize = 0;
    while i < n
        invariant
            n == contour.segments@.len(),
            0 < n,
            i <= n,
            path_builder@ == base + contour.segments@.take(i as int).map_values(
                |s: Segment| segment_command(s),
            ),
        decreases n - i,
    {
        match contour.segments[i] {
            Segment::Line(_, p1) => {
                path_builder.line_to(p1);
            },
            Segment::Curve(_, c, e) => {
                path_builder.quadratic_bezier_to(c, e);
            },
        }
        proof {
            assert(path_builder@ =~= base + contour.segments@.take(i as int + 1).map_values(
                |s: Segment| segment_command(s),
            ));
        }
        i = i + 1;
    }
    path_builder.close();
    proof {
        assert(contour.segments@.take(n as int) =~= contour.segments@);
        assert(path_builder@ =~= old(path_builder)@ + contour_commands(contour.segments@));
    }
    Ok(())
}

/// Builds one path holding every contour of a glyph shape, in shape
/// order. A shape with no contours yields a valid, empty path; a shape
/// holding an empty contour is rejected.
pub fn contours_to_path(shape: &Shape) -> (result: Result<Path, PathError>)
    ensures
        match result {
            Ok(path) => path@ == shape_commands(shape.contours@) && path_wf(path@) && (forall|i: int|
                0 <= i < shape.contours@.len() ==> (#[trigger] shape.contours@[i]).segments@.len()
                    > 0),
            Err(PathError::EmptyContour) => exists|i: int|
                0 <= i < shape.contours@.len() && (#[trigger] shape.contours@[i]).segments@.len()
                    == 0,
        },
{
    let mut path_builder = PathBuilder::new();
    let n = shape.contours.len();
    let mut i: usize = 0;
    while i < n
        invariant
            n == shape.contours@.len(),
            i <= n,
            path_builder@ == shape_commands(shape.contours@.take(i as int)),
            forall|j: int|
                0 <= j < i ==> (#[trigger] shape.contours@[j]).segments@.len() > 0,
        decreases n - i,
    {
        match contour_to_path(&mut path_builder, &shape.contours[i]) {
            Ok(()) => {},
            Err(e) => {
                return Err(e);
            },
        }
        proof {
            assert(shape.contours@.take(i + 1 as int).drop_last() =~= shape.contours@.take(
                i as int,
            ));
            assert(shape.contours@.take(i + 1 as int).last() == shape.contours@[i as int]);
        }
        i = i + 1;
    }
    proof {
        assert(shape.contours@.take(n as int) =~= shape.contours@);
        lemma_shape_commands_wf(shape.contours@);
    }
    Ok(path_builder.build())
}

/// The pen while a path's commands are replayed: where it stands now and
/// where the current sub-path started.
#[derive(Clone, Copy, Debug, PartialEq, Eq, Structural)]
pub struct PenState {
    pub position: Point,
    pub subpath_start: Point,
}

/// One command's effect on the pen: a move starts a new sub-path, the two
/// draw commands move the pen along, and a close returns the pen to the
/// start of the current sub-path.
pub open spec fn pen_step(state: PenState, command: PathCommand) -> PenState {
    match command {
        PathCommand::MoveTo(p) => PenState { position: p, subpath_start: p },
        PathCommand::LineTo(p) => PenState { position: p, subpath_start: state.subpath_start },
        PathCommand::QuadraticTo(_, p) => PenState {
            position: p,
            subpath_start: state.subpath_start,
        },
        PathCommand::Close => PenState {
            position: state.subpath_start,
            subpath_start: state.subpath_start,
        },
    }
}

/// The pen after replaying a command sequence from `state`, front to back.
pub open spec fn replay(state: PenState, commands: Seq<PathCommand>) -> PenState
    decreases commands.len(),
{
    if commands.len() == 0 {
        state
    } else {
        replay(pen_step(state, commands[0]), commands.drop_first())
    }
}

/// Whether a command only draws: it neither starts nor closes a sub-path.
pub open spec fn is_draw_command(command: PathCommand) -> bool {
    command matches PathCommand::LineTo(_) || command matches PathCommand::QuadraticTo(_, _)
}

proof fn lemma_replay_concat(state: PenState, a: Seq<PathCommand>, b: Seq<PathCommand>)
    ensures
        replay(state, a + b) == replay(replay(state, a), b),
    decreases a.len(),
{
    if a.len() == 0 {
        assert(a + b =~= b);
    } else {
        assert((a + b).drop_first() =~= a.drop_first() + b);
        assert((a + b)[0] == a[0]);
        lemma_replay_concat(pen_step(state, a[0]), a.drop_first(), b);
    }
}

proof fn lemma_replay_one(state: PenState, command: PathCommand)
    ensures
        replay(state, seq![command]) == pen_step(state, command),
{
    let s = seq![command];
    assert(s.drop_first().len() == 0);
    assert(replay(pen_step(state, command), s.drop_first()) == pen_step(state, command));
}

proof fn lemma_draws_keep_subpath_start(state: PenState, commands: Seq<PathCommand>)
    requires
        forall|i: int| 0 <= i < commands.len() ==> is_draw_command(#[trigger] commands[i]),
    ensures
        replay(state, commands).subpath_start == state.subpath_start,
    decreases commands.len(),
{
    if commands.len() > 0 {
        let rest = commands.drop_first();
        assert forall|i: int| 0 <= i < rest.len() implies is_draw_command(
            #[trigger] rest[i],
        ) by {
            assert(rest[i] == commands[i + 1]);
        }
        lemma_draws_keep_subpath_start(pen_step(state, commands[0]), rest);
    }
}

/// Closure invariant: replaying the commands a non-empty contour emits
/// brings the pen back onto the contour's first point — after the final
/// close, the sub-path's last point equals its first, from any starting
/// pen state.
pub proof fn lemma_contour_subpath_closed(state: PenState, segments: Seq<Segment>)
    requires
        segments.len() > 0,
    ensures
        replay(state, contour_commands(segments)).position == segments[0].start(),
{
    let start = segments[0].start();
    let moved = seq![PathCommand::MoveTo(start)];
    let draws = segments.map_values(|s: Segment| segment_command(s));
    let closed = seq![PathCommand::Close];
    assert(contour_commands(segments) =~= (moved + draws) + closed);
    lemma_replay_concat(state, moved + draws, closed);
    lemma_replay_concat(state, moved, draws);
    lemma_replay_one(state, PathCommand::MoveTo(start));
    let after_move = replay(state, moved);
    assert(after_move.subpath_start == start);
    assert forall|i: int| 0 <= i < draws.len() implies is_draw_command(#[trigger] draws[i]) by {
        assert(draws[i] == segment_command(segments[i]));
    }
    lemma_draws_keep_subpath_start(after_move, draws);
    let after_draws = replay(after_move, draws);
    lemma_replay_one(after_draws, PathCommand::Close);
}

proof fn lemma_draws_end_position(state: PenState, segments: Seq<Segment>)
    requires
        segments.len() > 0,
    ensures
        replay(state, segments.map_values(|s: Segment| segment_command(s))).position
            == segments.last().end(),
{
    let draws = segments.map_values(|s: Segment| segment_command(s));
    assert(draws =~= draws.drop_last() + seq![draws.last()]);
    lemma_replay_concat(state, draws.drop_last(), seq![draws.last()]);
    lemma_replay_one(replay(state, draws.drop_last()), draws.last());
    assert(draws.last() == segment_command(segments.last()));
}

/// For a contour that keeps the closed-loop invariant, the drawing
/// commands alone already bring the pen back onto the contour's first
/// point: the final close seals a sub-path whose pen stands on its
/// start.
pub proof fn lemma_closed_contour_draws_return(state: PenState, segments: Seq<Segment>)
    requires
        segments.len() > 0,
        contour_closed(segments),
    ensures
        replay(
            state,
            seq![PathCommand::MoveTo(segments[0].start())] + segments.map_values(
                |s: Segment| segment_command(s),
            ),
        ).position == segments[0].start(),
{
    let moved = seq![PathCommand::MoveTo(segments[0].start())];
    let draws = segments.map_values(|s: Segment| segment_command(s));
    lemma_replay_concat(state, moved, draws);
    lemma_replay_one(state, PathCommand::MoveTo(segments[0].start()));
    lemma_draws_end_position(replay(state, moved), segments);
    assert(segments[segments.len() - 1].end() == segments[0].start());
}

/// Whether a command sequence is a row of complete sub-paths, given
/// whether a sub-path is open where it starts: a move may only start a
/// fresh sub-path, draw commands and a close need an open one, and at the
/// end no sub-path may be left open.
pub open spec fn subpaths_wf(commands: Seq<PathCommand>, open_subpath: bool) -> bool
    decreases commands.len(),
{
    if commands.len() == 0 {
        !open_subpath
    } else {
        match commands[0] {
            PathCommand::MoveTo(_) => !open_subpath && subpaths_wf(commands.drop_first(), true),
            PathCommand::LineTo(_) => open_subpath && subpaths_wf(commands.drop_first(), true),
            PathCommand::QuadraticTo(_, _) => open_subpath && subpaths_wf(
                commands.drop_first(),
                true,
            ),
            PathCommand::Close => open_subpath && subpaths_wf(commands.drop_first(), false),
        }
    }
}

/// The invariant of a finished path: its commands form complete
/// sub-paths, each begun by one move and sealed by one close.
pub open spec fn path_wf(commands: Seq<PathCommand>) -> bool {
    subpaths_wf(commands, false)
}

proof fn lemma_subpaths_wf_concat(a: Seq<PathCommand>, b: Seq<PathCommand>, open_subpath: bool)
    requires
        subpaths_wf(a, open_subpath),
        subpaths_wf(b, false),
    ensures
        subpaths_wf(a + b, open_subpath),
    decreases a.len(),
{
    if a.len() == 0 {
        assert(a + b =~= b);
    } else {
        assert((a + b).drop_first() =~= a.drop_first() + b);
        assert((a + b)[0] == a[0]);
        match a[0] {
            PathCommand::MoveTo(_) => lemma_subpaths_wf_concat(a.drop_first(), b, true),
            PathCommand::LineTo(_) => lemma_subpaths_wf_concat(a.drop_first(), b, true),
            PathCommand::QuadraticTo(_, _) => lemma_subpaths_wf_concat(a.drop_first(), b, true),
            PathCommand::Close => lemma_subpaths_wf_concat(a.drop_first(), b, false),
        }
    }
}

proof fn lemma_draws_then_close_wf(draws: Seq<PathCommand>)
    requires
        forall|i: int| 0 <= i < draws.len() ==> is_draw_command(#[trigger] draws[i]),
    ensures
        subpaths_wf(draws + seq![PathCommand::Close], true),
    decreases draws.len(),
{
    let sealed = seq![PathCommand::Close];
    if draws.len() == 0 {
        assert(draws + sealed =~= sealed);
        assert(sealed.drop_first().len() == 0);
        assert(subpaths_wf(sealed.drop_first(), false));
    } else {
        let rest = draws.drop_first();
        assert forall|i: int| 0 <= i < rest.len() implies is_draw_command(
            #[trigger] rest[i],
        ) by {
            assert(rest[i] == draws[i + 1]);
        }
        lemma_draws_then_close_wf(rest);
        assert((draws + sealed).drop_first() =~= rest + sealed);
        assert((draws + sealed)[0] == draws[0]);
    }
}

/// The commands of one non-empty contour form a single complete
/// sub-path: begun by its move, sealed by its close.
pub proof fn lemma_contour_commands_wf(segments: Seq<Segment>)
    requires
        segments.len() > 0,
    ensures
        path_wf(contour_commands(segments)),
{
    let start = segments[0].start();
    let draws = segments.map_values(|s: Segment| segment_command(s));
    assert forall|i: int| 0 <= i < draws.len() implies is_draw_command(#[trigger] draws[i]) by {
        assert(draws[i] == segment_command(segments[i]));
    }
    lemma_draws_then_close_wf(draws);
    let commands = contour_commands(segments);
    assert(commands[0] == PathCommand::MoveTo(start));
    assert(commands.drop_first() =~= draws + seq![PathCommand::Close]);
}

/// A path built from non-empty contours keeps the path invariant: every
/// sub-path is explicitly closed before the path is finalized.
pub proof fn lemma_shape_commands_wf(contours: Seq<Contour>)
    requires
        forall|i: int| 0 <= i < contours.len() ==> (#[trigger] contours[i]).segments@.len() > 0,
    ensures
        path_wf(shape_commands(contours)),
    decreases contours.len(),
{
    if contours.len() > 0 {
        let front = contours.drop_last();
        assert forall|i: int| 0 <= i < front.len() implies (#[trigger] front[i]).segments@.len()
            > 0 by {
            assert(front[i] == contours[i]);
        }
        lemma_shape_commands_wf(front);
        lemma_contour_commands_wf(contours.last().segments@);
        lemma_subpaths_wf_concat(
            shape_commands(front),
            contour_commands(contours.last().segments@),
            false,
        );
    }
}

/// Segment-count correspondence: a contour of `n` segments emits exactly
/// `n` draw commands — one per segment, in segment order — framed by one
/// initial move and one final close, `n + 2` commands in all.
pub proof fn lemma_contour_command_count(segments: Seq<Segment>)
    ensures
        contour_commands(segments).len() == segments.len() + 2,
        contour_commands(segments)[0] == PathCommand::MoveTo(segments[0].start()),
        contour_commands(segments).last() == PathCommand::Close,
        forall|i: int|
            1 <= i <= segments.len() ==> #[trigger] contour_commands(segments)[i]
                == segment_command(segments[i - 1]),
{
}

} // verus!
