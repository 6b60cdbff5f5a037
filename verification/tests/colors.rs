use viz::model::{color_name, color_of_index, Color};
use viz::{CANVAS_HEIGHT, CANVAS_WIDTH, STROKE_WIDTH};

#[test]
fn carousel_indices_resolve_to_the_fixed_table() {
    assert_eq!(color_of_index(1), Some(Color::Black));
    assert_eq!(color_of_index(2), Some(Color::Red));
    assert_eq!(color_of_index(3), Some(Color::Blue));
    assert_eq!(color_of_index(4), Some(Color::Green));
    assert_eq!(color_of_index(5), Some(Color::Yellow));
    assert_eq!(color_of_index(6), Some(Color::Orange));
    assert_eq!(color_of_index(7), Some(Color::Brown));
    assert_eq!(color_of_index(8), Some(Color::Pink));
}

#[test]
fn no_ink_and_unknown_indices_have_no_color() {
    assert_eq!(color_of_index(0), None);
    assert_eq!(color_of_index(9), None);
    assert_eq!(color_of_index(255), None);
}

#[test]
fn every_color_has_its_name() {
    assert_eq!(color_name(Color::Black), "black");
    assert_eq!(color_name(Color::Red), "red");
    assert_eq!(color_name(Color::Blue), "blue");
    assert_eq!(color_name(Color::Green), "green");
    assert_eq!(color_name(Color::Yellow), "yellow");
    assert_eq!(color_name(Color::Orange), "orange");
    assert_eq!(color_name(Color::Brown), "brown");
    assert_eq!(color_name(Color::Pink), "pink");
}

#[test]
fn canvas_and_stroke_constants_match_the_output_contract() {
    assert_eq!(CANVAS_WIDTH, 7650);
    assert_eq!(CANVAS_HEIGHT, 10300);
    assert_eq!(STROKE_WIDTH, 10);
}
