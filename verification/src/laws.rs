//! The library's stated laws: properties of the semantics that hold for every
//! input, each proved here once and for all.

use vstd::prelude::*;

use crate::model::{Command, Point, SegmentView, StateView};
use crate::semantics::{
    command_ok, commands_ok, move_abs, move_rel, pen_up_state, run, step, walk_abs, walk_rel,
};

verus! {

/// With the pen already down and a color selected, a walk through absolute
/// points (a `PenDown` or `PlotAbsolute` command) emits one segment per
/// point, from the previous position to that point, in that order, in the
/// selected color.
pub proof fn lemma_down_walk_emits(s: StateView, pts: Seq<Point>, set_pen: bool)
    requires
        s.pen_down,
        s.color != 0,
    ensures
        walk_abs(s, pts, set_pen).segs.len() == pts.len(),
        forall|k: int|
            0 <= k < pts.len() ==> walk_abs(s, pts, set_pen).segs[k] == (SegmentView {
                x1: if k == 0 { s.x } else { pts[k - 1].x as int },
                y1: if k == 0 { s.y } else { pts[k - 1].y as int },
                x2: pts[k].x as int,
                y2: pts[k].y as int,
                color: s.color,
            }),
    decreases pts.len(),
{
    if pts.len() > 0 {
        let first = move_abs(s, pts[0], set_pen);
        lemma_down_walk_emits(first.state, pts.drop_first(), set_pen);
        assert forall|k: int| 0 <= k < pts.len() implies walk_abs(s, pts, set_pen).segs[k]
            == (SegmentView {
            x1: if k == 0 { s.x } else { pts[k - 1].x as int },
            y1: if k == 0 { s.y } else { pts[k - 1].y as int },
            x2: pts[k].x as int,
            y2: pts[k].y as int,
            color: s.color,
        }) by {
            if k > 0 {
                assert(walk_abs(s, pts, set_pen).segs[k] == walk_abs(
                    first.state,
                    pts.drop_first(),
                    set_pen,
                ).segs[k - 1]);
                assert(pts.drop_first()[k - 1] == pts[k]);
                if k > 1 {
                    assert(pts.drop_first()[k - 2] == pts[k - 1]);
                }
            }
        }
    }
}

/// What the `k`-th segment of a chain of relative moves looks like: it spans
/// exactly the `k`-th delta, carries the starting color, and begins where the
/// previous segment ended (the first at the starting position).
pub open spec fn rel_seg_chained(s: StateView, ds: Seq<Point>, k: int) -> bool {
    let segs = walk_rel(s, ds).segs;
    &&& segs[k].x2 == segs[k].x1 + ds[k].x
    &&& segs[k].y2 == segs[k].y1 + ds[k].y
    &&& segs[k].color == s.color
    &&& (k == 0 ==> segs[k].x1 == s.x && segs[k].y1 == s.y)
    &&& (k > 0 ==> segs[k].x1 == segs[k - 1].x2 && segs[k].y1 == segs[k - 1].y2)
}

/// With the pen down and a color selected, a chain of relative moves emits
/// one segment per delta: each starts where the previous one ended (the first
/// at the current position) and ends exactly the delta away, in the selected
/// color.
pub proof fn lemma_down_walk_rel_emits(s: StateView, ds: Seq<Point>)
    requires
        s.pen_down,
        s.color != 0,
    ensures
        walk_rel(s, ds).segs.len() == ds.len(),
        forall|k: int| 0 <= k < ds.len() ==> #[trigger] rel_seg_chained(s, ds, k),
    decreases ds.len(),
{
    if ds.len() > 0 {
        let first = move_rel(s, ds[0]);
        lemma_down_walk_rel_emits(first.state, ds.drop_first());
        assert forall|k: int| 0 <= k < ds.len() implies #[trigger] rel_seg_chained(s, ds, k) by {
            let segs = walk_rel(s, ds).segs;
            let rsegs = walk_rel(first.state, ds.drop_first()).segs;
            if k > 0 {
                assert(rel_seg_chained(first.state, ds.drop_first(), k - 1));
                assert(segs[k] == rsegs[k - 1]);
                assert(ds.drop_first()[k - 1] == ds[k]);
                if k > 1 {
                    assert(segs[k - 1] == rsegs[k - 2]);
                }
            }
        }
    }
}

/// A walk through absolute points with no ink selected emits nothing and
/// keeps the ink unselected.
proof fn lemma_no_ink_walk_abs(s: StateView, pts: Seq<Point>, set_pen: bool)
    requires
        s.color == 0,
    ensures
        walk_abs(s, pts, set_pen).segs == Seq::<SegmentView>::empty(),
        walk_abs(s, pts, set_pen).state.color == 0,
    decreases pts.len(),
{
    if pts.len() > 0 {
        let first = move_abs(s, pts[0], set_pen);
        lemma_no_ink_walk_abs(first.state, pts.drop_first(), set_pen);
        assert(walk_abs(s, pts, set_pen).segs =~= Seq::<SegmentView>::empty());
    }
}

/// A chain of relative moves with no ink selected emits nothing and keeps
/// the ink unselected.
proof fn lemma_no_ink_walk_rel(s: StateView, ds: Seq<Point>)
    requires
        s.color == 0,
    ensures
        walk_rel(s, ds).segs == Seq::<SegmentView>::empty(),
        walk_rel(s, ds).state.color == 0,
    decreases ds.len(),
{
    if ds.len() > 0 {
        let first = move_rel(s, ds[0]);
        lemma_no_ink_walk_rel(first.state, ds.drop_first());
        assert(walk_rel(s, ds).segs =~= Seq::<SegmentView>::empty());
    }
}

/// While color 0 ("no ink") is selected, no command emits a segment,
/// whatever the pen state.
pub proof fn lemma_no_ink_no_segments(s: StateView, c: Command)
    requires
        s.color == 0,
    ensures
        step(s, c).segs == Seq::<SegmentView>::empty(),
{
    match c {
        Command::PenDown(pts) => {
            lemma_no_ink_walk_abs(s, pts@, true);
        },
        Command::PlotAbsolute(pts) => {
            lemma_no_ink_walk_abs(s, pts@, false);
        },
        Command::PlotRelative(ds) => {
            lemma_no_ink_walk_rel(s, ds@);
        },
        _ => {},
    }
}

/// A walk through absolute points with the pen up and no order to lower it
/// emits nothing and leaves the pen up.
proof fn lemma_lifted_walk_abs(s: StateView, pts: Seq<Point>)
    requires
        !s.pen_down,
    ensures
        walk_abs(s, pts, false).segs == Seq::<SegmentView>::empty(),
        !walk_abs(s, pts, false).state.pen_down,
    decreases pts.len(),
{
    if pts.len() > 0 {
        let first = move_abs(s, pts[0], false);
        lemma_lifted_walk_abs(first.state, pts.drop_first());
        assert(walk_abs(s, pts, false).segs =~= Seq::<SegmentView>::empty());
    }
}

/// A chain of relative moves with the pen up emits nothing and leaves the
/// pen up.
proof fn lemma_lifted_walk_rel(s: StateView, ds: Seq<Point>)
    requires
        !s.pen_down,
    ensures
        walk_rel(s, ds).segs == Seq::<SegmentView>::empty(),
        !walk_rel(s, ds).state.pen_down,
    decreases ds.len(),
{
    if ds.len() > 0 {
        let first = move_rel(s, ds[0]);
        lemma_lifted_walk_rel(first.state, ds.drop_first());
        assert(walk_rel(s, ds).segs =~= Seq::<SegmentView>::empty());
    }
}

/// With the pen up, any single command other than `PenDown` emits nothing
/// and leaves the pen up.
pub proof fn lemma_lifted_pen_step(s: StateView, c: Command)
    requires
        !s.pen_down,
        !(c is PenDown),
    ensures
        step(s, c).segs == Seq::<SegmentView>::empty(),
        !step(s, c).state.pen_down,
{
    match c {
        Command::PlotAbsolute(pts) => {
            lemma_lifted_walk_abs(s, pts@);
        },
        Command::PlotRelative(ds) => {
            lemma_lifted_walk_rel(s, ds@);
        },
        _ => {},
    }
}

/// Once the pen is up, a whole stream of commands without a `PenDown` never
/// emits a segment: only a `PenDown` re-establishes drawing.
pub proof fn lemma_lifted_pen_run(s: StateView, cmds: Seq<Command>)
    requires
        !s.pen_down,
        forall|i: int| 0 <= i < cmds.len() ==> !(cmds[i] is PenDown),
    ensures
        run(s, cmds).segs == Seq::<SegmentView>::empty(),
        !run(s, cmds).state.pen_down,
    decreases cmds.len(),
{
    if cmds.len() > 0 {
        lemma_lifted_pen_step(s, cmds[0]);
        lemma_lifted_pen_run(step(s, cmds[0]).state, cmds.drop_first());
        assert(run(s, cmds).segs =~= Seq::<SegmentView>::empty());
    }
}

/// After any `PenUp` command, no later command emits a segment until a
/// `PenDown` occurs.
pub proof fn lemma_pen_up_then_quiet(s: StateView, up: Command, cmds: Seq<Command>)
    requires
        up is PenUp,
        forall|i: int| 0 <= i < cmds.len() ==> !(cmds[i] is PenDown),
    ensures
        run(step(s, up).state, cmds).segs == Seq::<SegmentView>::empty(),
{
    match up {
        Command::PenUp(pts) => {
            assert(step(s, up).state == pen_up_state(s, pts@));
        },
        _ => {},
    }
    lemma_lifted_pen_run(step(s, up).state, cmds);
}

/// The sum of the horizontal components of a chain of deltas.
pub open spec fn sum_x(ds: Seq<Point>) -> int
    decreases ds.len(),
{
    if ds.len() == 0 {
        0
    } else {
        ds[0].x + sum_x(ds.drop_first())
    }
}

/// The sum of the vertical components of a chain of deltas.
pub open spec fn sum_y(ds: Seq<Point>) -> int
    decreases ds.len(),
{
    if ds.len() == 0 {
        0
    } else {
        ds[0].y + sum_y(ds.drop_first())
    }
}

/// A chain of relative moves from position (x, y) ends at (x + the sum of
/// the deltas' horizontal parts, y + the sum of their vertical parts), and
/// touches neither the pen state nor the color. In particular a single delta
/// (dx, dy) from P ends at (P.x + dx, P.y + dy).
pub proof fn lemma_rel_moves_sum(s: StateView, ds: Seq<Point>)
    ensures
        walk_rel(s, ds).state.x == s.x + sum_x(ds),
        walk_rel(s, ds).state.y == s.y + sum_y(ds),
        walk_rel(s, ds).state.pen_down == s.pen_down,
        walk_rel(s, ds).state.color == s.color,
    decreases ds.len(),
{
    if ds.len() > 0 {
        lemma_rel_moves_sum(move_rel(s, ds[0]).state, ds.drop_first());
    }
}

/// Applying a chain of deltas one by one moves the plotter to the same place
/// as applying their sum in a single relative move.
pub proof fn lemma_rel_batch_once(s: StateView, ds: Seq<Point>, total: Point)
    requires
        total.x as int == sum_x(ds),
        total.y as int == sum_y(ds),
    ensures
        walk_rel(s, ds).state == walk_rel(s, seq![total]).state,
{
    lemma_rel_moves_sum(s, ds);
    lemma_rel_moves_sum(s, seq![total]);
    assert(seq![total].drop_first() =~= Seq::<Point>::empty());
    assert(sum_x(seq![total].drop_first()) == 0);
    assert(sum_y(seq![total].drop_first()) == 0);
    assert(sum_x(seq![total]) == total.x as int);
    assert(sum_y(seq![total]) == total.y as int);
    assert(walk_rel(s, ds).state =~= walk_rel(s, seq![total]).state);
}

/// A `SelectPen` whose index lies outside the carousel (0 through 8) puts
/// the whole stream outside the interpreter's domain: the run aborts with
/// `UnknownColorIndex`, as `interpret`'s contract states.
pub proof fn lemma_unknown_color_aborts(cmds: Seq<Command>, i: int)
    requires
        0 <= i < cmds.len(),
        cmds[i] matches Command::SelectPen(p) && p > 8,
    ensures
        !commands_ok(cmds),
{
    assert(!command_ok(cmds[i]));
}

/// Selecting "no ink" (color 0), lowering the pen somewhere, and plotting to
/// any point draws nothing; selecting color 1 afterwards and repeating the
/// plot draws exactly one segment, from the last plotted point to the new
/// one, in color 1.
pub proof fn lemma_no_ink_then_ink(
    s: StateView,
    down: Command,
    plot1: Command,
    plot2: Command,
    q: Point,
    p: Point,
    p2: Point,
)
    requires
        down matches Command::PenDown(pts) && pts@ == seq![q],
        plot1 matches Command::PlotAbsolute(pts) && pts@ == seq![p],
        plot2 matches Command::PlotAbsolute(pts) && pts@ == seq![p2],
    ensures
        run(s, seq![Command::SelectPen(0), down, plot1]).segs == Seq::<SegmentView>::empty(),
        run(s, seq![Command::SelectPen(0), down, plot1, Command::SelectPen(1), plot2]).segs
            == seq![
            SegmentView {
                x1: p.x as int,
                y1: p.y as int,
                x2: p2.x as int,
                y2: p2.y as int,
                color: 1,
            },
        ],
{
    let sel0 = Command::SelectPen(0);
    let sel1 = Command::SelectPen(1);
    let s1 = step(s, sel0).state;
    let s2 = step(s1, down).state;
    let s3 = step(s2, plot1).state;
    let s4 = step(s3, sel1).state;
    let s5 = step(s4, plot2).state;
    assert(seq![q].drop_first() =~= Seq::<Point>::empty());
    assert(seq![p].drop_first() =~= Seq::<Point>::empty());
    assert(seq![p2].drop_first() =~= Seq::<Point>::empty());
    match down {
        Command::PenDown(pts) => {
            crate::semantics::lemma_walk_abs_state(s1, pts@, true);
        },
        _ => {},
    }
    match plot1 {
        Command::PlotAbsolute(pts) => {
            crate::semantics::lemma_walk_abs_state(s2, pts@, false);
        },
        _ => {},
    }
    lemma_no_ink_no_segments(s1, down);
    lemma_no_ink_no_segments(s2, plot1);
    assert(s3.pen_down);
    assert(s3.x == p.x as int && s3.y == p.y as int);
    assert(s4.color == 1);
    let drawn = SegmentView {
        x1: p.x as int,
        y1: p.y as int,
        x2: p2.x as int,
        y2: p2.y as int,
        color: 1,
    };
    match plot2 {
        Command::PlotAbsolute(pts) => {
            assert(pts@[0] == p2);
            assert(pts@.drop_first() =~= Seq::<Point>::empty());
            let m = move_abs(s4, p2, false);
            assert(m.segs =~= seq![drawn]);
            assert(walk_abs(m.state, pts@.drop_first(), false).segs =~= Seq::<
                SegmentView,
            >::empty());
            assert(walk_abs(s4, pts@, false).segs =~= m.segs + walk_abs(
                m.state,
                pts@.drop_first(),
                false,
            ).segs);
            assert(step(s4, plot2).segs =~= seq![drawn]);
        },
        _ => {},
    }
    assert(step(s, sel0).segs =~= Seq::<SegmentView>::empty());
    assert(step(s3, sel1).segs =~= Seq::<SegmentView>::empty());
    let t1 = seq![down, plot1];
    let t2 = seq![plot1];
    let short = seq![sel0, down, plot1];
    assert(short[0] == sel0);
    assert(short.drop_first() =~= t1);
    assert(t1[0] == down);
    assert(t1.drop_first() =~= t2);
    assert(t2[0] == plot1);
    assert(t2.drop_first() =~= Seq::<Command>::empty());
    assert(run(s3, Seq::<Command>::empty()).segs =~= Seq::<SegmentView>::empty());
    assert(run(s2, t2).segs =~= Seq::<SegmentView>::empty());
    assert(run(s1, t1).segs =~= Seq::<SegmentView>::empty());
    assert(run(s, short).segs =~= Seq::<SegmentView>::empty());
    let u1 = seq![down, plot1, sel1, plot2];
    let u2 = seq![plot1, sel1, plot2];
    let u3 = seq![sel1, plot2];
    let u4 = seq![plot2];
    let full = seq![sel0, down, plot1, sel1, plot2];
    assert(full[0] == sel0);
    assert(full.drop_first() =~= u1);
    assert(u1[0] == down);
    assert(u1.drop_first() =~= u2);
    assert(u2[0] == plot1);
    assert(u2.drop_first() =~= u3);
    assert(u3[0] == sel1);
    assert(u3.drop_first() =~= u4);
    assert(u4[0] == plot2);
    assert(u4.drop_first() =~= Seq::<Command>::empty());
    assert(run(s5, Seq::<Command>::empty()).segs =~= Seq::<SegmentView>::empty());
    assert(run(s4, u4).segs =~= seq![drawn]);
    assert(run(s3, u3).segs =~= seq![drawn]);
    assert(run(s2, u2).segs =~= seq![drawn]);
    assert(run(s1, u1).segs =~= seq![drawn]);
    assert(run(s, full).segs =~= seq![drawn]);
}

} // verus!
