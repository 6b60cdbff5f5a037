//! Data model: points, commands, colors, plotter state, and emitted segments.

use vstd::prelude::*;

verus! {

/// A 2D coordinate pair in plotter units.
#[derive(Clone, Copy, Debug, PartialEq, Eq, Structural)]
pub struct Point {
    pub x: i64,
    pub y: i64,
}

/// A pen color, one entry of the plotter's fixed pen carousel.
///
/// Index 0 of the carousel is "no ink selected" and has no color here;
/// the indices 1 through 8 map to these eight colors.
#[derive(Clone, Copy, Debug, PartialEq, Eq, Structural)]
pub enum Color {
    Black,
    Red,
    Blue,
    Green,
    Yellow,
    Orange,
    Brown,
    Pink,
}

/// One plotter command, already parsed by the command source.
#[derive(Debug)]
pub enum Command {
    /// Travel through each point in order with the pen lifted.
    PenUp(Vec<Point>),
    /// Travel through each point in order with the pen lowered.
    PenDown(Vec<Point>),
    /// Move through absolute coordinates; the pen state is unchanged.
    PlotAbsolute(Vec<Point>),
    /// Move by deltas applied cumulatively to the current position.
    PlotRelative(Vec<Point>),
    /// Select the pen slot with the given index.
    SelectPen(u8),
    /// Reset marker from the source format; changes nothing here.
    Initialize,
}

/// The only fatal condition of the interpreter.
#[derive(Clone, Copy, Debug, PartialEq, Eq, Structural)]
pub enum PlotterError {
    /// A `SelectPen` named an index outside the carousel (0 through 8).
    UnknownColorIndex,
}

/// The interpreter's mutable state: pen location, pen up/down, selected slot.
#[derive(Clone, Copy, Debug)]
pub struct PlotterState {
    pub position: Point,
    pub pen_down: bool,
    pub color_index: u8,
}

/// One line segment to draw, with its color already resolved.
#[derive(Clone, Copy, Debug, PartialEq, Eq, Structural)]
pub struct DrawRequest {
    pub start: Point,
    pub end: Point,
    pub color: Color,
}

/// Mathematical model of the plotter state, with unbounded coordinates.
#[verifier::ext_equal]
pub ghost struct StateView {
    pub x: int,
    pub y: int,
    pub pen_down: bool,
    pub color: int,
}

/// Mathematical model of one emitted segment; `color` is the carousel index.
#[verifier::ext_equal]
pub ghost struct SegmentView {
    pub x1: int,
    pub y1: int,
    pub x2: int,
    pub y2: int,
    pub color: int,
}

impl View for PlotterState {
    type V = StateView;

    open spec fn view(&self) -> StateView {
        StateView {
            x: self.position.x as int,
            y: self.position.y as int,
            pen_down: self.pen_down,
            color: self.color_index as int,
        }
    }
}

impl View for DrawRequest {
    type V = SegmentView;

    open spec fn view(&self) -> SegmentView {
        SegmentView {
            x1: self.start.x as int,
            y1: self.start.y as int,
            x2: self.end.x as int,
            y2: self.end.y as int,
            color: index_of_color(self.color),
        }
    }
}

impl PlotterState {
    /// The selected slot always stays inside the carousel.
    pub open spec fn wf(self) -> bool {
        self.color_index <= 8
    }
}

/// The carousel index of a color, always between 1 and 8.
pub open spec fn index_of_color(c: Color) -> int {
    match c {
        Color::Black => 1,
        Color::Red => 2,
        Color::Blue => 3,
        Color::Green => 4,
        Color::Yellow => 5,
        Color::Orange => 6,
        Color::Brown => 7,
        Color::Pink => 8,
    }
}

/// The name of a color, as the renderer sink spells it.
pub open spec fn spec_color_name(c: Color) -> Seq<char> {
    match c {
        Color::Black => "black"@,
        Color::Red => "red"@,
        Color::Blue => "blue"@,
        Color::Green => "green"@,
        Color::Yellow => "yellow"@,
        Color::Orange => "orange"@,
        Color::Brown => "brown"@,
        Color::Pink => "pink"@,
    }
}

/// Resolves a carousel index to its color: `Some` exactly for 1 through 8
/// (0 means "no ink" and has no color, larger indices are unknown).
pub fn color_of_index(c: u8) -> (r: Option<Color>)
    ensures
        r is Some <==> 1 <= c <= 8,
        r matches Some(col) ==> index_of_color(col) == c as int,
{
    match c {
        1 => Some(Color::Black),
        2 => Some(Color::Red),
        3 => Some(Color::Blue),
        4 => Some(Color::Green),
        5 => Some(Color::Yellow),
        6 => Some(Color::Orange),
        7 => Some(Color::Brown),
        8 => Some(Color::Pink),
        _ => None,
    }
}

/// The name of a color, for the renderer sink.
pub fn color_name(c: Color) -> (r: &'static str)
    ensures
        r@ == spec_color_name(c),
{
    match c {
        Color::Black => "black",
        Color::Red => "red",
        Color::Blue => "blue",
        Color::Green => "green",
        Color::Yellow => "yellow",
        Color::Orange => "orange",
        Color::Brown => "brown",
        Color::Pink => "pink",
    }
}

} // verus!
