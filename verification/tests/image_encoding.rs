use passpartout_printer::colors::PaletteColor;
use passpartout_printer::coords::Coord;
use passpartout_printer::easel::{Easel, EaselCoords, EaselError, Gesture};
use passpartout_printer::image_drawer::{resize_target, ImageDrawer};

fn coords_with_portrait(lower_right: (i32, i32)) -> EaselCoords {
    EaselCoords {
        portrait_bounds: (Coord::new(0, 0), Coord::new(lower_right.0, lower_right.1)),
        landscape_bounds: (Coord::new(0, 0), Coord::new(200, 80)),
        paintbrush: Coord::new(300, 10),
        spray_can: Coord::new(310, 10),
        pen: Coord::new(320, 10),
        decrease_brush: Coord::new(330, 10),
        increase_brush: Coord::new(340, 10),
        change_orientation: Coord::new(350, 10),
        color_start: Coord::new(400, 10),
        color_row_step: 20,
        color_col_step: 12,
    }
}

/// Splits a gesture log into strokes, as the pointer driver would see them.
fn strokes(gs: &[Gesture]) -> Vec<Vec<(i32, i32)>> {
    let mut out = vec![];
    let mut i = 0;
    while i < gs.len() {
        if let Gesture::Press(0) = gs[i] {
            let mut pts = vec![];
            if i > 0 {
                if let Gesture::MoveTo(c, _) = gs[i - 1] {
                    pts.push((c.x, c.y));
                }
            }
            let mut j = i + 1;
            while j < gs.len() {
                match gs[j] {
                    Gesture::MoveTo(c, _) => pts.push((c.x, c.y)),
                    Gesture::Release(_) => break,
                    _ => {}
                }
                j += 1;
            }
            out.push(pts);
            i = j;
        }
        i += 1;
    }
    out
}

#[test]
fn two_by_two_raster_encodes_to_three_strokes() {
    // The raster [[A, A], [B, A]] in row-major order, with A the easel's
    // starting color: row 0 becomes one stroke of A across both columns,
    // row 1 one stroke of B at column 0 and one of A at column 1.
    let black = PaletteColor::Black.get_rgba();
    let red = PaletteColor::Red.get_rgba();
    let easel = Easel::new(coords_with_portrait((3, 3)), 7);
    let mut drawer = ImageDrawer::new(easel, 2, 2);
    assert_eq!((drawer.offset.x, drawer.offset.y), (0, 0));
    let before = drawer.easel.gestures.len();

    drawer.handle_pixel(black, 0, 0).expect("in bounds");
    drawer.handle_pixel(black, 1, 0).expect("in bounds");
    drawer.handle_pixel(red, 0, 1).expect("in bounds");
    drawer.handle_pixel(black, 1, 1).expect("in bounds");
    drawer.flush_run().expect("in bounds");

    let drawn = strokes(&drawer.easel.gestures[before..]);
    assert_eq!(drawn.len(), 3);
    // Row 0, both columns, drawn in the starting color on the row advance.
    assert_eq!(drawn[0][0], (0, 0));
    assert_eq!(*drawn[0].last().unwrap(), (2, 0));
    // Row 1: the single red pixel at column 0.
    assert_eq!(drawn[1][0], (0, 1));
    assert_eq!(*drawn[1].last().unwrap(), (0, 1));
    // Row 1: the trailing black run at column 1, flushed at the end.
    assert_eq!(drawn[2][0], (1, 1));
    assert_eq!(*drawn[2].last().unwrap(), (2, 1));
    // The flush starts the next (virtual) row.
    assert_eq!((drawer.current_pos.x, drawer.current_pos.y), (0, 2));
    // Each color change clicked a swatch: red before the second stroke,
    // black before the third.
    let added = &drawer.easel.gestures[before..];
    assert!(added.contains(&Gesture::MoveTo(Coord::new(440, 22), 0))); // red swatch
    assert!(added.contains(&Gesture::MoveTo(Coord::new(400, 10), 0))); // black swatch
}

#[test]
fn drawer_setup_centers_the_image() {
    let easel = Easel::new(coords_with_portrait((9, 9)), 7);
    let drawer = ImageDrawer::new(easel, 2, 2);
    assert_eq!((drawer.easel_size.x, drawer.easel_size.y), (8, 8));
    assert_eq!((drawer.offset.x, drawer.offset.y), (3, 3));
    assert_eq!(
        (drawer.current_pos.x, drawer.current_pos.y),
        (drawer.offset.x, drawer.offset.y)
    );
    assert_eq!((drawer.image_size.x, drawer.image_size.y), (2, 2));
}

#[test]
fn wide_image_flips_a_portrait_easel() {
    let easel = Easel::new(coords_with_portrait((9, 9)), 7);
    let drawer = ImageDrawer::new(easel, 30, 20);
    assert!(matches!(
        drawer.easel.orientation,
        passpartout_printer::easel::Orientation::Landscape
    ));
    // Landscape bounds are (0,0)-(200,80).
    assert_eq!((drawer.easel_size.x, drawer.easel_size.y), (199, 79));
}

#[test]
fn top_border_covers_the_letterbox_rows() {
    let easel = Easel::new(coords_with_portrait((9, 9)), 7);
    let mut drawer = ImageDrawer::new(easel, 2, 2);
    let before = drawer.easel.gestures.len();
    drawer.draw_top_border().expect("in bounds");
    let drawn = strokes(&drawer.easel.gestures[before..]);
    // The offset is 3, so rows 0, 1 and 2 get a background stroke each.
    assert_eq!(drawn.len(), 3);
    for (iy, stroke) in drawn.iter().enumerate() {
        assert_eq!(stroke[0], (0, iy as i32));
        assert_eq!(*stroke.last().unwrap(), (8, iy as i32));
    }
    assert_eq!(drawer.current_color, PaletteColor::White);
}

#[test]
fn cleanup_draws_side_and_bottom_borders() {
    let easel = Easel::new(coords_with_portrait((9, 9)), 7);
    let mut drawer = ImageDrawer::new(easel, 2, 2);
    let before = drawer.easel.gestures.len();
    drawer.cleanup_image().expect("in bounds");
    let drawn = strokes(&drawer.easel.gestures[before..]);
    // Left column: one vertical edge line plus two horizontal strokes
    // beside the image rows; same on the right; then five bottom rows from
    // the run start (y = 3) down to the canvas edge (y = 7).
    assert_eq!(drawn.len(), 3 + 3 + 5);
    assert_eq!(drawn[0][0], (2, 0));
    assert_eq!(*drawn[0].last().unwrap(), (2, 2));
    assert_eq!(drawn[1][0], (0, 3));
    assert_eq!(*drawn[1].last().unwrap(), (2, 3));
    assert_eq!(drawn[3][0], (6, 0));
    assert_eq!(*drawn[3].last().unwrap(), (6, 2));
    assert_eq!(drawn[6][0], (0, 3));
    assert_eq!(*drawn[6].last().unwrap(), (8, 3));
    assert_eq!(drawn[10][0], (0, 7));
    assert_eq!(*drawn[10].last().unwrap(), (8, 7));
}

#[test]
fn cleanup_with_no_gap_draws_nothing() {
    // A 2x2 image on a 2x2 canvas leaves no letterbox gap, and after the
    // flush the run start sits past the last row.
    let black = PaletteColor::Black.get_rgba();
    let easel = Easel::new(coords_with_portrait((3, 3)), 7);
    let mut drawer = ImageDrawer::new(easel, 2, 2);
    drawer.handle_pixel(black, 0, 0).expect("in bounds");
    drawer.handle_pixel(black, 1, 0).expect("in bounds");
    drawer.handle_pixel(black, 0, 1).expect("in bounds");
    drawer.handle_pixel(black, 1, 1).expect("in bounds");
    drawer.flush_run().expect("in bounds");
    let before = drawer.easel.gestures.len();
    drawer.cleanup_image().expect("nothing to draw");
    assert_eq!(drawer.easel.gestures.len(), before);
}

#[test]
fn oversized_image_fails_out_of_bounds() {
    // A 10x10 image on a 2x2 canvas: the first run that pokes past the
    // lower-right corner fails, and the run state stays put.
    let black = PaletteColor::Black.get_rgba();
    let red = PaletteColor::Red.get_rgba();
    let easel = Easel::new(coords_with_portrait((3, 3)), 7);
    let mut drawer = ImageDrawer::new(easel, 10, 10);
    drawer.handle_pixel(black, 0, 0).expect("no stroke yet");
    let pos_before = drawer.current_pos;
    let result = drawer.handle_pixel(red, 9, 0);
    assert!(matches!(result, Err(EaselError::OutOfBounds)));
    assert_eq!(drawer.current_pos, pos_before);
}

#[test]
fn resize_target_picks_the_matching_bounds() {
    let coords = coords_with_portrait((100, 100));
    // Wider than tall: landscape bounds (0,0)-(200,80).
    assert_eq!(resize_target(&coords, 400, 300), (200, 80));
    // Taller than wide (and square): portrait bounds.
    assert_eq!(resize_target(&coords, 300, 400), (100, 100));
    assert_eq!(resize_target(&coords, 300, 300), (100, 100));
}
