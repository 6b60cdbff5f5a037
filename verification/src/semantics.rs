//! The mathematical semantics of the plotter: how each command transforms the
//! state and which segments it emits. The executable interpreter is proved
//! against these functions.

use vstd::prelude::*;

use crate::model::{Command, DrawRequest, Point, SegmentView, StateView};

verus! {

/// The state a conversion run starts from: origin, pen up, no ink.
pub open spec fn init_state() -> StateView {
    StateView { x: 0, y: 0, pen_down: false, color: 0 }
}

/// The result of replaying one or more commands: the state afterwards and the
/// segments emitted, in order.
pub ghost struct StepView {
    pub state: StateView,
    pub segs: Seq<SegmentView>,
}

/// The views of a sequence of emitted segments.
pub open spec fn views_of(v: Seq<DrawRequest>) -> Seq<SegmentView> {
    v.map_values(|d: DrawRequest| d@)
}

/// A visit of one absolute point: the position moves there, the pen is
/// lowered when `set_pen` holds, and a segment from the previous position is
/// emitted exactly when the pen was already down and a color was selected.
pub open spec fn move_abs(s: StateView, p: Point, set_pen: bool) -> StepView {
    StepView {
        state: StateView {
            x: p.x as int,
            y: p.y as int,
            pen_down: s.pen_down || set_pen,
            color: s.color,
        },
        segs: if s.pen_down && s.color != 0 {
            seq![SegmentView { x1: s.x, y1: s.y, x2: p.x as int, y2: p.y as int, color: s.color }]
        } else {
            Seq::empty()
        },
    }
}

/// A visit of every absolute point in order. With `set_pen` (a `PenDown`
/// command) the pen ends down even when the list is empty.
pub open spec fn walk_abs(s: StateView, pts: Seq<Point>, set_pen: bool) -> StepView
    decreases pts.len(),
{
    if pts.len() == 0 {
        StepView {
            state: StateView {
                x: s.x,
                y: s.y,
                pen_down: s.pen_down || set_pen,
                color: s.color,
            },
            segs: Seq::empty(),
        }
    } else {
        let first = move_abs(s, pts[0], set_pen);
        let rest = walk_abs(first.state, pts.drop_first(), set_pen);
        StepView { state: rest.state, segs: first.segs + rest.segs }
    }
}

/// One relative move: the delta is added to the current position, and a
/// segment from the old to the new position is emitted exactly when the pen
/// is down and a color is selected.
pub open spec fn move_rel(s: StateView, d: Point) -> StepView {
    StepView {
        state: StateView {
            x: s.x + d.x,
            y: s.y + d.y,
            pen_down: s.pen_down,
            color: s.color,
        },
        segs: if s.pen_down && s.color != 0 {
            seq![
                SegmentView { x1: s.x, y1: s.y, x2: s.x + d.x, y2: s.y + d.y, color: s.color },
            ]
        } else {
            Seq::empty()
        },
    }
}

/// Every delta applied cumulatively, in order.
pub open spec fn walk_rel(s: StateView, ds: Seq<Point>) -> StepView
    decreases ds.len(),
{
    if ds.len() == 0 {
        StepView { state: s, segs: Seq::empty() }
    } else {
        let first = move_rel(s, ds[0]);
        let rest = walk_rel(first.state, ds.drop_first());
        StepView { state: rest.state, segs: first.segs + rest.segs }
    }
}

/// The state after a `PenUp` command: the pen is lifted and the position
/// jumps to the last point, or stays where it was if there is none.
pub open spec fn pen_up_state(s: StateView, pts: Seq<Point>) -> StateView {
    StateView {
        x: if pts.len() == 0 { s.x } else { pts.last().x as int },
        y: if pts.len() == 0 { s.y } else { pts.last().y as int },
        pen_down: false,
        color: s.color,
    }
}

/// Whether a command is inside the interpreter's domain: only a `SelectPen`
/// with an index outside the carousel (0 through 8) is rejected.
pub open spec fn command_ok(c: Command) -> bool {
    match c {
        Command::SelectPen(p) => p <= 8,
        _ => true,
    }
}

/// Whether every command of a stream is inside the interpreter's domain.
pub open spec fn commands_ok(cmds: Seq<Command>) -> bool {
    forall|i: int| 0 <= i < cmds.len() ==> command_ok(cmds[i])
}

/// The effect of one command on the state, and the segments it emits.
pub open spec fn step(s: StateView, c: Command) -> StepView {
    match c {
        Command::PenUp(pts) => StepView { state: pen_up_state(s, pts@), segs: Seq::empty() },
        Command::PenDown(pts) => walk_abs(s, pts@, true),
        Command::PlotAbsolute(pts) => walk_abs(s, pts@, false),
        Command::PlotRelative(ds) => walk_rel(s, ds@),
        Command::SelectPen(p) => StepView {
            state: StateView { x: s.x, y: s.y, pen_down: s.pen_down, color: p as int },
            segs: Seq::empty(),
        },
        Command::Initialize => StepView { state: s, segs: Seq::empty() },
    }
}

/// The replay of a whole command stream: the final state and every emitted
/// segment, in order.
pub open spec fn run(s: StateView, cmds: Seq<Command>) -> StepView
    decreases cmds.len(),
{
    if cmds.len() == 0 {
        StepView { state: s, segs: Seq::empty() }
    } else {
        let first = step(s, cmds[0]);
        let rest = run(first.state, cmds.drop_first());
        StepView { state: rest.state, segs: first.segs + rest.segs }
    }
}

/// Whether a coordinate fits the machine representation of positions.
pub open spec fn in_i64(v: int) -> bool {
    i64::MIN <= v <= i64::MAX
}

/// Whether every cumulative position reached by a chain of deltas fits the
/// machine representation. Only relative moves can leave it: every absolute
/// coordinate already arrives as a machine integer.
pub open spec fn walk_rel_in_bounds(s: StateView, ds: Seq<Point>) -> bool
    decreases ds.len(),
{
    ds.len() == 0 || {
        let first = move_rel(s, ds[0]);
        in_i64(first.state.x) && in_i64(first.state.y) && walk_rel_in_bounds(
            first.state,
            ds.drop_first(),
        )
    }
}

/// Whether one command keeps every position it reaches representable.
pub open spec fn step_in_bounds(s: StateView, c: Command) -> bool {
    match c {
        Command::PlotRelative(ds) => walk_rel_in_bounds(s, ds@),
        _ => true,
    }
}

/// Whether a whole command stream keeps every position representable.
pub open spec fn run_in_bounds(s: StateView, cmds: Seq<Command>) -> bool
    decreases cmds.len(),
{
    cmds.len() == 0 || (step_in_bounds(s, cmds[0]) && run_in_bounds(
        step(s, cmds[0]).state,
        cmds.drop_first(),
    ))
}

/// A walk through absolute points ends at the last point (or where it began,
/// if there is none), lowers the pen exactly when asked to, and keeps the
/// selected color.
pub proof fn lemma_walk_abs_state(s: StateView, pts: Seq<Point>, set_pen: bool)
    ensures
        walk_abs(s, pts, set_pen).state.color == s.color,
        walk_abs(s, pts, set_pen).state.pen_down == (s.pen_down || set_pen),
        pts.len() == 0 ==> walk_abs(s, pts, set_pen).state.x == s.x && walk_abs(
            s,
            pts,
            set_pen,
        ).state.y == s.y,
        pts.len() > 0 ==> walk_abs(s, pts, set_pen).state.x == pts.last().x as int && walk_abs(
            s,
            pts,
            set_pen,
        ).state.y == pts.last().y as int,
    decreases pts.len(),
{
    if pts.len() > 0 {
        let first = move_abs(s, pts[0], set_pen);
        lemma_walk_abs_state(first.state, pts.drop_first(), set_pen);
        if pts.len() > 1 {
            assert(pts.drop_first().last() == pts.last());
        }
    }
}

} // verus!
