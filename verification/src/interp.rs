//! The executable interpreter: a single pass over the command stream that
//! threads one `PlotterState` through every command and collects the segments
//! to draw. Each function is proved against the semantics in
//! [`crate::semantics`].

use vstd::prelude::*;

use crate::model::{color_of_index, Command, DrawRequest, Point, PlotterError, PlotterState};
use crate::model::SegmentView;
use crate::semantics::{
    command_ok, commands_ok, init_state, lemma_walk_abs_state, move_abs, move_rel, pen_up_state,
    run, run_in_bounds, step, step_in_bounds, views_of, walk_abs, walk_rel, walk_rel_in_bounds,
};

verus! {

/// The outcome of a successful conversion run: the state the plotter was left
/// in and every segment to draw, in emission order.
#[derive(Debug)]
pub struct Interpretation {
    pub state: PlotterState,
    pub segments: Vec<DrawRequest>,
}

impl PlotterState {
    /// The state a run starts from: the origin, pen up, no ink selected.
    pub fn new() -> (s: Self)
        ensures
            s@ == init_state(),
            s.wf(),
    {
        PlotterState { position: Point { x: 0, y: 0 }, pen_down: false, color_index: 0 }
    }

    /// Visits every point of `pts` in order, appending to `out` one segment
    /// per visit made with the pen already down and a color selected. With
    /// `set_pen` the pen ends down even when `pts` is empty.
    fn walk_points(&mut self, pts: &Vec<Point>, set_pen: bool, out: &mut Vec<DrawRequest>)
        requires
            old(self).wf(),
        ensures
            final(self).wf(),
            final(self)@ == walk_abs(old(self)@, pts@, set_pen).state,
            views_of(final(out)@) == views_of(old(out)@) + walk_abs(
                old(self)@,
                pts@,
                set_pen,
            ).segs,
    {
        let ghost s0 = self@;
        let ghost out0 = out@;
        proof {
            assert(pts@.skip(0) =~= pts@);
        }
        let mut i: usize = 0;
        while i < pts.len()
            invariant
                self.wf(),
                i <= pts.len(),
                walk_abs(s0, pts@, set_pen).state == walk_abs(
                    self@,
                    pts@.skip(i as int),
                    set_pen,
                ).state,
                views_of(out0) + walk_abs(s0, pts@, set_pen).segs == views_of(out@) + walk_abs(
                    self@,
                    pts@.skip(i as int),
                    set_pen,
                ).segs,
            decreases pts.len() - i,
        {
            let ghost rest = pts@.skip(i as int);
            let ghost pre = self@;
            let ghost out_pre = out@;
            proof {
                assert(rest[0] == pts@[i as int]);
                assert(rest.drop_first() =~= pts@.skip(i as int + 1));
            }
            let p = pts[i];
            let from = self.position;
            let was_down = self.pen_down;
            let ink = self.color_index;
            self.position = p;
            if set_pen {
                self.pen_down = true;
            }
            proof {
                assert(self@ == move_abs(pre, p, set_pen).state);
            }
            if was_down && ink != 0 {
                let col = color_of_index(ink).unwrap();
                let d = DrawRequest { start: from, end: p, color: col };
                out.push(d);
                proof {
                    let tail = walk_abs(self@, rest.drop_first(), set_pen).segs;
                    assert(move_abs(pre, p, set_pen).segs =~= seq![d@]);
                    assert(views_of(out@) =~= views_of(out_pre).push(d@));
                    assert(views_of(out_pre) + (seq![d@] + tail) =~= views_of(out_pre).push(d@)
                        + tail);
                }
            } else {
                proof {
                    let tail = walk_abs(self@, rest.drop_first(), set_pen).segs;
                    assert(move_abs(pre, p, set_pen).segs =~= Seq::<SegmentView>::empty());
                    assert(Seq::<SegmentView>::empty() + tail =~= tail);
                }
            }
            i = i + 1;
        }
        if set_pen {
            self.pen_down = true;
        }
        proof {
            assert(pts@.skip(pts@.len() as int) =~= Seq::<Point>::empty());
            assert(views_of(out@) + Seq::<SegmentView>::empty() =~= views_of(out@));
        }
    }

    /// Applies every delta of `ds` cumulatively to the position, appending to
    /// `out` one segment per move made with the pen down and a color
    /// selected.
    fn walk_deltas(&mut self, ds: &Vec<Point>, out: &mut Vec<DrawRequest>)
        requires
            old(self).wf(),
            walk_rel_in_bounds(old(self)@, ds@),
        ensures
            final(self).wf(),
            final(self)@ == walk_rel(old(self)@, ds@).state,
            views_of(final(out)@) == views_of(old(out)@) + walk_rel(old(self)@, ds@).segs,
    {
        let ghost s0 = self@;
        let ghost out0 = out@;
        proof {
            assert(ds@.skip(0) =~= ds@);
        }
        let mut i: usize = 0;
        while i < ds.len()
            invariant
                self.wf(),
                i <= ds.len(),
                walk_rel_in_bounds(self@, ds@.skip(i as int)),
                walk_rel(s0, ds@).state == walk_rel(self@, ds@.skip(i as int)).state,
                views_of(out0) + walk_rel(s0, ds@).segs == views_of(out@) + walk_rel(
                    self@,
                    ds@.skip(i as int),
                ).segs,
            decreases ds.len() - i,
        {
            let ghost rest = ds@.skip(i as int);
            let ghost pre = self@;
            let ghost out_pre = out@;
            proof {
                assert(rest[0] == ds@[i as int]);
                assert(rest.drop_first() =~= ds@.skip(i as int + 1));
                assert(walk_rel_in_bounds(pre, rest));
                assert(crate::semantics::in_i64(move_rel(pre, rest[0]).state.x));
                assert(crate::semantics::in_i64(move_rel(pre, rest[0]).state.y));
            }
            let d = ds[i];
            let from = self.position;
            self.position = Point { x: from.x + d.x, y: from.y + d.y };
            proof {
                assert(self@ == move_rel(pre, d).state);
            }
            if self.pen_down && self.color_index != 0 {
                let col = color_of_index(self.color_index).unwrap();
                let req = DrawRequest { start: from, end: self.position, color: col };
                out.push(req);
                proof {
                    let tail = walk_rel(self@, rest.drop_first()).segs;
                    assert(move_rel(pre, d).segs =~= seq![req@]);
                    assert(views_of(out@) =~= views_of(out_pre).push(req@));
                    assert(views_of(out_pre) + (seq![req@] + tail) =~= views_of(out_pre).push(req@)
                        + tail);
                }
            } else {
                proof {
                    let tail = walk_rel(self@, rest.drop_first()).segs;
                    assert(move_rel(pre, d).segs =~= Seq::<SegmentView>::empty());
                    assert(Seq::<SegmentView>::empty() + tail =~= tail);
                }
            }
            i = i + 1;
        }
        proof {
            assert(ds@.skip(ds@.len() as int) =~= Seq::<Point>::empty());
            assert(views_of(out@) + Seq::<SegmentView>::empty() =~= views_of(out@));
        }
    }

    /// Applies one command: updates the state and appends the segments the
    /// command emits, or rejects a `SelectPen` whose index lies outside the
    /// carousel, leaving state and output untouched.
    pub fn apply(&mut self, cmd: &Command, out: &mut Vec<DrawRequest>) -> (r: Result<
        (),
        PlotterError,
    >)
        requires
            old(self).wf(),
            step_in_bounds(old(self)@, *cmd),
        ensures
            final(self).wf(),
            command_ok(*cmd) ==> r is Ok && final(self)@ == step(old(self)@, *cmd).state
                && views_of(final(out)@) == views_of(old(out)@) + step(old(self)@, *cmd).segs,
            !command_ok(*cmd) ==> r == Result::<(), PlotterError>::Err(
                PlotterError::UnknownColorIndex,
            ) && *final(self) == *old(self) && final(out)@ == old(out)@,
    {
        match cmd {
            Command::PenUp(pts) => {
                if pts.len() > 0 {
                    self.position = pts[pts.len() - 1];
                }
                self.pen_down = false;
                proof {
                    assert(self@ == pen_up_state(old(self)@, pts@));
                    assert(views_of(out@) + Seq::<SegmentView>::empty() =~= views_of(out@));
                }
                Ok(())
            },
            Command::PenDown(pts) => {
                self.walk_points(pts, true, out);
                Ok(())
            },
            Command::PlotAbsolute(pts) => {
                self.walk_points(pts, false, out);
                Ok(())
            },
            Command::PlotRelative(ds) => {
                self.walk_deltas(ds, out);
                Ok(())
            },
            Command::SelectPen(p) => {
                if *p <= 8 {
                    self.color_index = *p;
                    proof {
                        assert(views_of(out@) + Seq::<SegmentView>::empty() =~= views_of(out@));
                    }
                    Ok(())
                } else {
                    Err(PlotterError::UnknownColorIndex)
                }
            },
            Command::Initialize => {
                proof {
                    assert(views_of(out@) + Seq::<SegmentView>::empty() =~= views_of(out@));
                }
                Ok(())
            },
        }
    }
}

/// Replays the whole command stream from the initial state, in one pass.
///
/// Succeeds exactly when every `SelectPen` stays inside the carousel; the
/// first one outside it aborts the run with `UnknownColorIndex` and no
/// segments are reported.
pub fn interpret(cmds: &Vec<Command>) -> (r: Result<Interpretation, PlotterError>)
    requires
        run_in_bounds(init_state(), cmds@),
    ensures
        r is Ok <==> commands_ok(cmds@),
        r matches Ok(conv) ==> conv.state.wf() && conv.state@ == run(init_state(), cmds@).state
            && views_of(conv.segments@) == run(init_state(), cmds@).segs,
        r matches Err(e) ==> e == PlotterError::UnknownColorIndex,
{
    let mut st = PlotterState::new();
    let mut segments: Vec<DrawRequest> = Vec::new();
    proof {
        assert(cmds@.skip(0) =~= cmds@);
        assert(views_of(segments@) =~= Seq::<SegmentView>::empty());
        assert(Seq::<SegmentView>::empty() + run(init_state(), cmds@).segs =~= run(
            init_state(),
            cmds@,
        ).segs);
    }
    let mut i: usize = 0;
    while i < cmds.len()
        invariant
            st.wf(),
            i <= cmds.len(),
            run_in_bounds(st@, cmds@.skip(i as int)),
            run(init_state(), cmds@).state == run(st@, cmds@.skip(i as int)).state,
            run(init_state(), cmds@).segs == views_of(segments@) + run(
                st@,
                cmds@.skip(i as int),
            ).segs,
            forall|j: int| 0 <= j < i ==> command_ok(cmds@[j]),
        decreases cmds.len() - i,
    {
        let ghost rest = cmds@.skip(i as int);
        let ghost pre = st@;
        let ghost seg_pre = segments@;
        proof {
            assert(rest[0] == cmds@[i as int]);
            assert(rest.drop_first() =~= cmds@.skip(i as int + 1));
            assert(step_in_bounds(pre, cmds@[i as int]));
        }
        let r = st.apply(&cmds[i], &mut segments);
        if r.is_err() {
            proof {
                assert(!command_ok(cmds@[i as int]));
                assert(!commands_ok(cmds@));
            }
            return Err(PlotterError::UnknownColorIndex);
        }
        proof {
            let tail = run(st@, rest.drop_first()).segs;
            assert((views_of(seg_pre) + step(pre, rest[0]).segs) + tail =~= views_of(seg_pre) + (
            step(pre, rest[0]).segs + tail));
        }
        i = i + 1;
    }
    proof {
        assert(cmds@.skip(cmds@.len() as int) =~= Seq::<Command>::empty());
        assert(views_of(segments@) + Seq::<SegmentView>::empty() =~= views_of(segments@));
    }
    Ok(Interpretation { state: st, segments })
}

/// Decides whether a command stream keeps every position it reaches inside
/// the machine representation of coordinates, by replaying the position
/// updates with checked arithmetic. `interpret` asks for exactly this.
pub fn commands_in_bounds(cmds: &Vec<Command>) -> (b: bool)
    ensures
        b == run_in_bounds(init_state(), cmds@),
{
    let mut st = PlotterState::new();
    proof {
        assert(cmds@.skip(0) =~= cmds@);
    }
    let mut i: usize = 0;
    while i < cmds.len()
        invariant
            i <= cmds.len(),
            run_in_bounds(init_state(), cmds@) == run_in_bounds(st@, cmds@.skip(i as int)),
        decreases cmds.len() - i,
    {
        let ghost rest = cmds@.skip(i as int);
        let ghost pre = st@;
        proof {
            assert(rest[0] == cmds@[i as int]);
            assert(rest.drop_first() =~= cmds@.skip(i as int + 1));
        }
        match &cmds[i] {
            Command::PenUp(pts) => {
                if pts.len() > 0 {
                    st.position = pts[pts.len() - 1];
                }
                st.pen_down = false;
                proof {
                    assert(st@ == step(pre, cmds@[i as int]).state);
                }
            },
            Command::PenDown(pts) => {
                if pts.len() > 0 {
                    st.position = pts[pts.len() - 1];
                }
                st.pen_down = true;
                proof {
                    lemma_walk_abs_state(pre, pts@, true);
                    assert(st@ == step(pre, cmds@[i as int]).state);
                }
            },
            Command::PlotAbsolute(pts) => {
                if pts.len() > 0 {
                    st.position = pts[pts.len() - 1];
                }
                proof {
                    lemma_walk_abs_state(pre, pts@, false);
                    assert(st@ == step(pre, cmds@[i as int]).state);
                }
            },
            Command::PlotRelative(ds) => {
                proof {
                    assert(ds@.skip(0) =~= ds@);
                }
                let mut j: usize = 0;
                while j < ds.len()
                    invariant
                        j <= ds.len(),
                        walk_rel_in_bounds(pre, ds@) == walk_rel_in_bounds(
                            st@,
                            ds@.skip(j as int),
                        ),
                        walk_rel(pre, ds@).state == walk_rel(st@, ds@.skip(j as int)).state,
                        run_in_bounds(init_state(), cmds@) == run_in_bounds(pre, rest),
                        rest == cmds@.skip(i as int),
                        0 <= i < cmds@.len(),
                        rest[0] == cmds@[i as int],
                        cmds@[i as int] matches Command::PlotRelative(dd) && dd@ == ds@,
                    decreases ds.len() - j,
                {
                    let ghost drest = ds@.skip(j as int);
                    let ghost dpre = st@;
                    proof {
                        assert(drest[0] == ds@[j as int]);
                        assert(drest.drop_first() =~= ds@.skip(j as int + 1));
                    }
                    let d = ds[j];
                    let nx = st.position.x.checked_add(d.x);
                    let ny = st.position.y.checked_add(d.y);
                    if nx.is_none() || ny.is_none() {
                        proof {
                            assert(!walk_rel_in_bounds(dpre, drest));
                            assert(!step_in_bounds(pre, cmds@[i as int]));
                            assert(!run_in_bounds(pre, rest));
                        }
                        return false;
                    }
                    st.position = Point { x: nx.unwrap(), y: ny.unwrap() };
                    proof {
                        assert(st@ == move_rel(dpre, d).state);
                    }
                    j = j + 1;
                }
                proof {
                    assert(ds@.skip(ds@.len() as int) =~= Seq::<Point>::empty());
                    assert(step_in_bounds(pre, cmds@[i as int]));
                    assert(st@ == step(pre, cmds@[i as int]).state);
                }
            },
            Command::SelectPen(p) => {
                st.color_index = *p;
                proof {
                    assert(st@ == step(pre, cmds@[i as int]).state);
                }
            },
            Command::Initialize => {
                proof {
                    assert(st@ == step(pre, cmds@[i as int]).state);
                }
            },
        }
        i = i + 1;
    }
    proof {
        assert(cmds@.skip(cmds@.len() as int) =~= Seq::<Command>::empty());
    }
    true
}

} // verus!
