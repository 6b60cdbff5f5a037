use viz::interp::{commands_in_bounds, interpret};
use viz::model::{color_name, Color, Command, DrawRequest, Point, PlotterError, PlotterState};

fn pt(x: i64, y: i64) -> Point {
    Point { x, y }
}

fn seg(x1: i64, y1: i64, x2: i64, y2: i64, color: Color) -> DrawRequest {
    DrawRequest { start: pt(x1, y1), end: pt(x2, y2), color }
}

#[test]
fn select_pen_down_plot_draws_two_black_segments() {
    let cmds = vec![
        Command::SelectPen(1),
        Command::PenDown(vec![pt(0, 0)]),
        Command::PlotAbsolute(vec![pt(10, 0), pt(10, 10)]),
    ];
    assert!(commands_in_bounds(&cmds));
    let out = interpret(&cmds).unwrap();
    assert_eq!(out.state.position, pt(10, 10));
    assert_eq!(out.segments.len(), 2);
    assert_eq!(out.segments[0], seg(0, 0, 10, 0, Color::Black));
    assert_eq!(out.segments[1], seg(10, 0, 10, 10, Color::Black));
    assert_eq!(color_name(out.segments[0].color), "black");
    assert_eq!(color_name(out.segments[1].color), "black");
}

#[test]
fn no_color_selected_draws_nothing() {
    let cmds = vec![
        Command::PenDown(vec![pt(5, 5)]),
        Command::PlotAbsolute(vec![pt(5, 10)]),
    ];
    let out = interpret(&cmds).unwrap();
    assert_eq!(out.segments.len(), 0);
    assert_eq!(out.state.position, pt(5, 10));
    assert!(out.state.pen_down);
}

#[test]
fn color_zero_suppresses_until_a_color_is_selected() {
    let quiet = vec![
        Command::SelectPen(0),
        Command::PenDown(vec![pt(1, 1)]),
        Command::PlotAbsolute(vec![pt(9, 9)]),
    ];
    let out = interpret(&quiet).unwrap();
    assert_eq!(out.segments.len(), 0);
    assert_eq!(out.state.position, pt(9, 9));

    let loud = vec![
        Command::SelectPen(0),
        Command::PenDown(vec![pt(1, 1)]),
        Command::PlotAbsolute(vec![pt(9, 9)]),
        Command::SelectPen(1),
        Command::PlotAbsolute(vec![pt(4, 4)]),
    ];
    let out = interpret(&loud).unwrap();
    assert_eq!(out.segments.len(), 1);
    assert_eq!(out.segments[0], seg(9, 9, 4, 4, Color::Black));
}

#[test]
fn unknown_color_index_aborts_the_run() {
    let cmds = vec![
        Command::SelectPen(1),
        Command::PenDown(vec![pt(0, 0)]),
        Command::PlotAbsolute(vec![pt(1, 0)]),
        Command::SelectPen(9),
        Command::PlotAbsolute(vec![pt(2, 0)]),
    ];
    match interpret(&cmds) {
        Err(e) => assert_eq!(e, PlotterError::UnknownColorIndex),
        Ok(_) => panic!("a select of pen 9 must abort the run"),
    }
}

#[test]
fn unknown_color_index_aborts_even_as_first_command() {
    let cmds = vec![Command::SelectPen(9)];
    match interpret(&cmds) {
        Err(e) => assert_eq!(e, PlotterError::UnknownColorIndex),
        Ok(_) => panic!("a select of pen 9 must abort the run"),
    }
}

#[test]
fn highest_carousel_index_is_accepted() {
    let cmds = vec![
        Command::SelectPen(8),
        Command::PenDown(vec![pt(0, 0), pt(2, 2)]),
    ];
    let out = interpret(&cmds).unwrap();
    assert_eq!(out.segments.len(), 1);
    assert_eq!(out.segments[0], seg(0, 0, 2, 2, Color::Pink));
}

#[test]
fn relative_plot_applies_deltas_cumulatively() {
    let cmds = vec![
        Command::SelectPen(2),
        Command::PenDown(vec![pt(1, 1)]),
        Command::PlotRelative(vec![pt(2, 3), pt(4, 5)]),
    ];
    let out = interpret(&cmds).unwrap();
    assert_eq!(out.state.position, pt(7, 9));
    assert_eq!(out.segments.len(), 2);
    assert_eq!(out.segments[0], seg(1, 1, 3, 4, Color::Red));
    assert_eq!(out.segments[1], seg(3, 4, 7, 9, Color::Red));
}

#[test]
fn relative_deltas_in_sequence_equal_their_sum_applied_once() {
    let many = vec![
        Command::PlotRelative(vec![pt(2, 3), pt(4, 5), pt(-1, -2)]),
    ];
    let once = vec![Command::PlotRelative(vec![pt(5, 6)])];
    let end_many = interpret(&many).unwrap().state;
    let end_once = interpret(&once).unwrap().state;
    assert_eq!(end_many.position, end_once.position);
    assert_eq!(end_many.position, pt(5, 6));
}

#[test]
fn relative_plot_with_pen_up_moves_without_drawing() {
    let cmds = vec![Command::SelectPen(1), Command::PlotRelative(vec![pt(3, 4)])];
    let out = interpret(&cmds).unwrap();
    assert_eq!(out.segments.len(), 0);
    assert_eq!(out.state.position, pt(3, 4));
}

#[test]
fn pen_up_moves_without_drawing_and_suppresses_later_plots() {
    let cmds = vec![
        Command::SelectPen(1),
        Command::PenDown(vec![pt(0, 0)]),
        Command::PenUp(vec![pt(5, 5)]),
        Command::PlotAbsolute(vec![pt(7, 7)]),
        Command::PlotRelative(vec![pt(1, 1)]),
    ];
    let out = interpret(&cmds).unwrap();
    assert_eq!(out.segments.len(), 0);
    assert_eq!(out.state.position, pt(8, 8));
    assert!(!out.state.pen_down);
}

#[test]
fn pen_down_re_establishes_drawing_after_pen_up() {
    let cmds = vec![
        Command::SelectPen(1),
        Command::PenDown(vec![pt(0, 0)]),
        Command::PenUp(vec![pt(5, 5)]),
        Command::PenDown(vec![pt(6, 6)]),
        Command::PlotAbsolute(vec![pt(7, 6)]),
    ];
    let out = interpret(&cmds).unwrap();
    assert_eq!(out.segments.len(), 1);
    assert_eq!(out.segments[0], seg(6, 6, 7, 6, Color::Black));
}

#[test]
fn pen_up_with_empty_list_lifts_the_pen_in_place() {
    let cmds = vec![
        Command::SelectPen(1),
        Command::PenDown(vec![pt(2, 2)]),
        Command::PenUp(vec![]),
        Command::PlotAbsolute(vec![pt(3, 3)]),
    ];
    let out = interpret(&cmds).unwrap();
    assert_eq!(out.segments.len(), 0);
    assert_eq!(out.state.position, pt(3, 3));
    assert!(!out.state.pen_down);
}

#[test]
fn pen_down_with_empty_list_lowers_the_pen_in_place() {
    let cmds = vec![
        Command::SelectPen(1),
        Command::PenDown(vec![]),
        Command::PlotAbsolute(vec![pt(4, 0)]),
    ];
    let out = interpret(&cmds).unwrap();
    assert_eq!(out.segments.len(), 1);
    assert_eq!(out.segments[0], seg(0, 0, 4, 0, Color::Black));
    assert_eq!(out.state.position, pt(4, 0));
    assert!(out.state.pen_down);
}

#[test]
fn pen_down_while_already_down_draws_from_the_first_point() {
    let cmds = vec![
        Command::SelectPen(1),
        Command::PenDown(vec![pt(0, 0)]),
        Command::PenDown(vec![pt(1, 1), pt(2, 2)]),
    ];
    let out = interpret(&cmds).unwrap();
    assert_eq!(out.segments.len(), 2);
    assert_eq!(out.segments[0], seg(0, 0, 1, 1, Color::Black));
    assert_eq!(out.segments[1], seg(1, 1, 2, 2, Color::Black));
}

#[test]
fn initialize_changes_nothing() {
    let cmds = vec![
        Command::Initialize,
        Command::SelectPen(1),
        Command::Initialize,
        Command::PenDown(vec![pt(0, 0)]),
        Command::PlotAbsolute(vec![pt(1, 0)]),
        Command::Initialize,
    ];
    let out = interpret(&cmds).unwrap();
    assert_eq!(out.segments.len(), 1);
    assert_eq!(out.segments[0], seg(0, 0, 1, 0, Color::Black));
}

#[test]
fn selecting_another_pen_changes_the_color_of_later_segments() {
    let cmds = vec![
        Command::SelectPen(1),
        Command::PenDown(vec![pt(0, 0)]),
        Command::PlotAbsolute(vec![pt(1, 0)]),
        Command::SelectPen(3),
        Command::PlotAbsolute(vec![pt(2, 0)]),
    ];
    let out = interpret(&cmds).unwrap();
    assert_eq!(out.segments.len(), 2);
    assert_eq!(out.segments[0].color, Color::Black);
    assert_eq!(out.segments[1].color, Color::Blue);
    assert_eq!(color_name(out.segments[1].color), "blue");
}

#[test]
fn empty_stream_leaves_the_initial_state() {
    let cmds: Vec<Command> = vec![];
    let out = interpret(&cmds).unwrap();
    assert_eq!(out.segments.len(), 0);
    assert_eq!(out.state.position, pt(0, 0));
    assert!(!out.state.pen_down);
    assert_eq!(out.state.color_index, 0);
}

#[test]
fn bounds_check_accepts_ordinary_streams() {
    let cmds = vec![
        Command::SelectPen(1),
        Command::PenDown(vec![pt(0, 0)]),
        Command::PlotRelative(vec![pt(1000, 1000), pt(-2000, -2000)]),
    ];
    assert!(commands_in_bounds(&cmds));
}

#[test]
fn apply_rejects_an_unknown_pen_and_leaves_the_state_untouched() {
    let mut st = PlotterState::new();
    let mut out: Vec<DrawRequest> = Vec::new();
    let rejected = st.apply(&Command::SelectPen(9), &mut out);
    assert_eq!(rejected, Err(PlotterError::UnknownColorIndex));
    assert_eq!(st.position, Point { x: 0, y: 0 });
    assert!(!st.pen_down);
    assert_eq!(st.color_index, 0);
    assert_eq!(out.len(), 0);
    let accepted = st.apply(&Command::SelectPen(4), &mut out);
    assert_eq!(accepted, Ok(()));
    assert_eq!(st.color_index, 4);
}

#[test]
fn bounds_check_rejects_an_overflowing_relative_move() {
    let cmds = vec![
        Command::PenUp(vec![pt(i64::MAX, 0)]),
        Command::PlotRelative(vec![pt(1, 0)]),
    ];
    assert!(!commands_in_bounds(&cmds));
}

#[test]
fn bounds_check_rejects_an_underflowing_relative_move() {
    let cmds = vec![
        Command::PenUp(vec![pt(0, i64::MIN)]),
        Command::PlotRelative(vec![pt(0, -1)]),
    ];
    assert!(!commands_in_bounds(&cmds));
}
