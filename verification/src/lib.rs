//! A verified interpreter for plotter command streams.
//!
//! The library replays a finite sequence of plotter commands (pen up/down,
//! absolute and relative plots, pen selection) against a small state machine
//! and produces the line segments a plotter would draw, each with a resolved
//! color name.

use vstd::prelude::*;

pub mod interp;
pub mod laws;
pub mod model;
pub mod semantics;

verus! {

/// Width of the output canvas, in plotter units.
pub const CANVAS_WIDTH: u64 = 7650;

/// Height of the output canvas, in plotter units.
pub const CANVAS_HEIGHT: u64 = 10300;

/// Stroke width of every emitted line segment, in plotter units.
pub const STROKE_WIDTH: u64 = 10;

} // verus!
