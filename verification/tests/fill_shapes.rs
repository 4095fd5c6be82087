use passpartout_printer::colors::PaletteColor;
use passpartout_printer::coords::Coord;
use passpartout_printer::easel::{Easel, EaselCoords, EaselError, Gesture};

fn test_coords() -> EaselCoords {
    EaselCoords {
        portrait_bounds: (Coord::new(0, 0), Coord::new(100, 100)),
        landscape_bounds: (Coord::new(0, 0), Coord::new(200, 80)),
        paintbrush: Coord::new(300, 10),
        spray_can: Coord::new(310, 10),
        pen: Coord::new(320, 10),
        decrease_brush: Coord::new(330, 10),
        increase_brush: Coord::new(340, 10),
        change_orientation: Coord::new(350, 10),
        color_start: Coord::new(400, 10),
        color_row_step: 20,
        color_col_step: 12,
    }
}

fn fresh_easel() -> Easel {
    Easel::new(test_coords(), 7)
}

/// Splits a gesture log into strokes: each stroke is the list of pointer
/// positions visited between a press at depth zero and its release,
/// including the position moved to just before the press.
fn strokes(gs: &[Gesture]) -> Vec<Vec<(i32, i32)>> {
    let mut out = vec![];
    let mut i = 0;
    while i < gs.len() {
        if let Gesture::Press(0) = gs[i] {
            let mut pts = vec![];
            if i > 0 {
                if let Gesture::MoveTo(c, _) = gs[i - 1] {
                    pts.push((c.x, c.y));
                }
            }
            let mut j = i + 1;
            while j < gs.len() {
                match gs[j] {
                    Gesture::MoveTo(c, _) => pts.push((c.x, c.y)),
                    Gesture::Release(_) => break,
                    _ => {}
                }
                j += 1;
            }
            out.push(pts);
            i = j;
        }
        i += 1;
    }
    out
}

fn triangle() -> Vec<Coord> {
    vec![Coord::new(0, 0), Coord::new(10, 0), Coord::new(5, 10)]
}

#[test]
fn triangle_fill_draws_horizontal_strokes_inside() {
    let mut easel = fresh_easel();
    let before = easel.gestures.len();
    easel
        .fill(&triangle(), &PaletteColor::Red)
        .expect("triangle fits the canvas");
    let drawn = strokes(&easel.gestures[before..]);
    // Scanlines sit at y = 0 and y = 6; only y = 6 straddles any edge.
    assert_eq!(drawn.len(), 1);
    for stroke in &drawn {
        let y = stroke[0].1;
        assert!(stroke.iter().all(|p| p.1 == y), "stroke must be horizontal");
        assert!(0 < y && y < 10, "scanline must sit inside the triangle");
        // The triangle's width at height y runs from y/2 to 10 - y/2.
        let left = y as f64 / 2.0;
        let right = 10.0 - y as f64 / 2.0;
        for p in stroke {
            assert!(left <= p.0 as f64 && p.0 as f64 <= right);
        }
    }
    assert_eq!(drawn[0][0], (7, 6));
    assert_eq!(*drawn[0].last().unwrap(), (3, 6));
}

#[test]
fn fill_restores_brush_width() {
    let mut easel = fresh_easel();
    easel.change_brush_size(5);
    assert_eq!(easel.brush_size, 5);
    easel
        .fill(&triangle(), &PaletteColor::Red)
        .expect("triangle fits the canvas");
    assert_eq!(easel.brush_size, 5);
}

#[test]
fn fill_restores_brush_width_on_failure() {
    // A triangle poking past the canvas fails with OutOfBounds, but the
    // brush still comes back.
    let mut easel = fresh_easel();
    easel.change_brush_size(3);
    let result = easel.fill(
        &vec![Coord::new(90, 90), Coord::new(110, 90), Coord::new(100, 120)],
        &PaletteColor::Red,
    );
    assert!(matches!(result, Err(EaselError::OutOfBounds)));
    assert_eq!(easel.brush_size, 3);
}

#[test]
fn filled_shape_draws_outline_then_fill() {
    let mut easel = fresh_easel();
    let before = easel.gestures.len();
    easel
        .draw_shape(&triangle(), &PaletteColor::Red, false, true)
        .expect("triangle fits the canvas");
    let drawn = strokes(&easel.gestures[before..]);
    // The outline stroke, closed back to its start, then the one fill
    // stroke.
    assert_eq!(drawn.len(), 2);
    let outline = &drawn[0];
    assert_eq!(outline[0], (0, 0));
    assert_eq!(*outline.last().unwrap(), (0, 0));
    assert!(outline.contains(&(10, 0)) && outline.contains(&(5, 10)));
    assert_eq!(drawn[1][0], (7, 6));
}

#[test]
fn fill_of_flat_polygon_draws_nothing() {
    // A degenerate polygon with no vertical extent has no scanline strictly
    // inside it.
    let mut easel = fresh_easel();
    let before = easel.gestures.len();
    easel
        .fill(
            &vec![Coord::new(0, 5), Coord::new(10, 5)],
            &PaletteColor::Red,
        )
        .expect("nothing to draw");
    assert_eq!(strokes(&easel.gestures[before..]).len(), 0);
}
