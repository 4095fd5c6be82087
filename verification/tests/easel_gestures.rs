use passpartout_printer::colors::PaletteColor;
use passpartout_printer::coords::Coord;
use passpartout_printer::easel::{Easel, EaselCoords, EaselError, Gesture, Orientation, Tool};

fn test_coords() -> EaselCoords {
    EaselCoords {
        portrait_bounds: (Coord::new(0, 0), Coord::new(100, 100)),
        landscape_bounds: (Coord::new(0, 0), Coord::new(200, 80)),
        paintbrush: Coord::new(300, 10),
        spray_can: Coord::new(310, 10),
        pen: Coord::new(320, 10),
        decrease_brush: Coord::new(330, 10),
        increase_brush: Coord::new(340, 10),
        change_orientation: Coord::new(350, 10),
        color_start: Coord::new(400, 10),
        color_row_step: 20,
        color_col_step: 12,
    }
}

fn fresh_easel() -> Easel {
    Easel::new(test_coords(), 7)
}

fn presses(gs: &[Gesture]) -> usize {
    gs.iter()
        .filter(|g| matches!(g, Gesture::Press(_)))
        .count()
}

#[test]
fn well_formed_configuration_accepted() {
    assert!(test_coords().is_well_formed());
}

#[test]
fn flipped_bounds_rejected() {
    let mut bad = test_coords();
    bad.portrait_bounds = (Coord::new(100, 100), Coord::new(0, 0));
    assert!(!bad.is_well_formed());
}

#[test]
fn new_easel_resets_to_known_state() {
    let easel = fresh_easel();
    assert_eq!(easel.brush_size, 0);
    assert_eq!(easel.current_color, PaletteColor::Black);
    assert!(matches!(easel.current_tool, Tool::Paintbrush));
    assert!(matches!(easel.orientation, Orientation::Portrait));
    // Reset clicks the brush to its widest step and back (16 each way) and
    // selects the paintbrush (1); black is already current, so no color
    // click.
    assert_eq!(presses(&easel.gestures), 16 + 16 + 1);
}

#[test]
fn change_color_clicks_the_swatch() {
    let mut easel = fresh_easel();
    let before = easel.gestures.len();
    easel.change_color(&PaletteColor::Red);
    assert_eq!(easel.current_color, PaletteColor::Red);
    let added = &easel.gestures[before..];
    // Red sits at row 2, column 1: x = 400 + 2*20, y = 10 + 1*12.
    assert_eq!(
        added,
        &[
            Gesture::MoveTo(Coord::new(440, 22), 0),
            Gesture::Press(7),
            Gesture::Release(7),
        ]
    );
}

#[test]
fn second_color_selection_issues_no_click() {
    // Selecting the same color twice in a row issues exactly one click.
    let mut easel = fresh_easel();
    let before = easel.gestures.len();
    easel.change_color(&PaletteColor::Green);
    easel.change_color(&PaletteColor::Green);
    assert_eq!(presses(&easel.gestures[before..]), 1);
}

#[test]
fn selecting_current_color_is_a_no_op() {
    let mut easel = fresh_easel();
    let before = easel.gestures.len();
    easel.change_color(&PaletteColor::Black);
    assert_eq!(easel.gestures.len(), before);
    assert_eq!(easel.current_color, PaletteColor::Black);
}

#[test]
fn brush_size_clamps_above() {
    let mut easel = fresh_easel();
    let before = easel.gestures.len();
    easel.change_brush_size(20);
    assert_eq!(easel.brush_size, 16);
    let added = &easel.gestures[before..];
    assert_eq!(presses(added), 16);
    assert_eq!(added[0], Gesture::MoveTo(Coord::new(340, 10), 0));
}

#[test]
fn brush_size_clamps_below() {
    let mut easel = fresh_easel();
    easel.change_brush_size(16);
    let before = easel.gestures.len();
    easel.change_brush_size(-5);
    assert_eq!(easel.brush_size, 0);
    let added = &easel.gestures[before..];
    assert_eq!(presses(added), 16);
    assert_eq!(added[0], Gesture::MoveTo(Coord::new(330, 10), 0));
}

#[test]
fn brush_clicks_once_per_step() {
    let mut easel = fresh_easel();
    let before = easel.gestures.len();
    easel.change_brush_size(5);
    assert_eq!(easel.brush_size, 5);
    let added = &easel.gestures[before..];
    assert_eq!(presses(added), 5);
    // The first click settles at the ordinary delay, the repeats at the
    // slower brush timing.
    assert_eq!(added[1], Gesture::Press(7));
    assert_eq!(added[3], Gesture::Press(32));
}

#[test]
fn brush_unchanged_means_no_clicks() {
    let mut easel = fresh_easel();
    let before = easel.gestures.len();
    easel.change_brush_size(0);
    assert_eq!(easel.gestures.len(), before);
    assert_eq!(easel.brush_size, 0);
}

#[test]
fn orientation_toggles_and_always_clicks() {
    let mut easel = fresh_easel();
    let before = easel.gestures.len();
    easel.change_orientation();
    assert!(matches!(easel.orientation, Orientation::Landscape));
    easel.change_orientation();
    assert!(matches!(easel.orientation, Orientation::Portrait));
    let added = &easel.gestures[before..];
    assert_eq!(presses(added), 2);
    assert_eq!(added[0], Gesture::MoveTo(Coord::new(350, 10), 0));
}

#[test]
fn change_tool_clicks_its_control() {
    let mut easel = fresh_easel();
    let before = easel.gestures.len();
    easel.change_tool(Tool::Pen);
    assert!(matches!(easel.current_tool, Tool::Pen));
    assert_eq!(
        easel.gestures[before],
        Gesture::MoveTo(Coord::new(320, 10), 0)
    );
}

#[test]
fn get_bounds_follows_orientation() {
    let mut easel = fresh_easel();
    let (ul, lr) = easel.get_bounds();
    assert_eq!(((ul.x, ul.y), (lr.x, lr.y)), ((0, 0), (100, 100)));
    easel.change_orientation();
    let (ul, lr) = easel.get_bounds();
    assert_eq!(((ul.x, ul.y), (lr.x, lr.y)), ((0, 0), (200, 80)));
}

#[test]
fn draw_line_matches_two_point_shape() {
    // A line and a two-point unclosed, unfilled shape produce identical
    // gesture sequences.
    let mut line_easel = fresh_easel();
    let mut shape_easel = fresh_easel();
    let p1 = Coord::new(5, 6);
    let p2 = Coord::new(40, 30);
    line_easel
        .draw_line(p1, p2, &PaletteColor::Blue)
        .expect("line fits the canvas");
    shape_easel
        .draw_shape(&vec![p1, p2], &PaletteColor::Blue, false, false)
        .expect("shape fits the canvas");
    assert_eq!(line_easel.gestures, shape_easel.gestures);
}

#[test]
fn draw_shape_emits_one_continuous_stroke() {
    let mut easel = fresh_easel();
    easel.change_color(&PaletteColor::Red);
    let before = easel.gestures.len();
    easel
        .draw_shape(
            &vec![Coord::new(1, 1), Coord::new(2, 2)],
            &PaletteColor::Red,
            false,
            false,
        )
        .expect("shape fits the canvas");
    let added = &easel.gestures[before..];
    assert_eq!(
        added,
        &[
            Gesture::MoveTo(Coord::new(1, 1), 7),
            Gesture::Press(0),
            Gesture::MoveTo(Coord::new(1, 1), 7),
            Gesture::MoveTo(Coord::new(2, 2), 7),
            Gesture::Release(7),
        ]
    );
}

#[test]
fn closing_a_shape_returns_to_its_first_point() {
    let mut easel = fresh_easel();
    easel.change_color(&PaletteColor::Red);
    let before = easel.gestures.len();
    easel
        .draw_shape(
            &vec![Coord::new(1, 1), Coord::new(2, 2), Coord::new(1, 3)],
            &PaletteColor::Red,
            true,
            false,
        )
        .expect("shape fits the canvas");
    let added = &easel.gestures[before..];
    assert_eq!(added[added.len() - 2], Gesture::MoveTo(Coord::new(1, 1), 7));
    assert!(matches!(added[added.len() - 1], Gesture::Release(7)));
}

#[test]
fn point_beyond_bounds_is_rejected() {
    // Portrait bounds run (0,0)-(100,100); x = 101 exceeds them.
    let mut easel = fresh_easel();
    let result = easel.draw_shape(
        &vec![Coord::new(101, 50)],
        &PaletteColor::Red,
        false,
        false,
    );
    assert!(matches!(result, Err(EaselError::OutOfBounds)));
}

#[test]
fn empty_shape_is_rejected() {
    let mut easel = fresh_easel();
    let before = easel.gestures.len();
    let result = easel.draw_shape(&vec![], &PaletteColor::Red, true, true);
    assert!(matches!(result, Err(EaselError::NoCoordinates)));
    // Nothing was emitted, not even a color click.
    assert_eq!(easel.gestures.len(), before);
}

#[test]
fn out_of_bounds_aborts_before_stroke_gestures() {
    let mut easel = fresh_easel();
    let before = easel.gestures.len();
    let result = easel.draw_shape(
        &vec![Coord::new(10, 10), Coord::new(50, 200)],
        &PaletteColor::Red,
        false,
        false,
    );
    assert!(matches!(result, Err(EaselError::OutOfBounds)));
    // Only the color click was emitted; no press, move or release of the
    // stroke itself.
    let added = &easel.gestures[before..];
    assert_eq!(added.len(), 3);
    assert_eq!(added[0], Gesture::MoveTo(Coord::new(440, 22), 0));
}

#[test]
fn error_messages() {
    assert_eq!(EaselError::OutOfBounds.message(), "out of bounds");
    assert_eq!(EaselError::NoCoordinates.message(), "invalid coordinates");
}
