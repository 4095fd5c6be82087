use passpartout_printer::colors::{Palette, PaletteColor, Rgba};

fn rgba(r: u8, g: u8, b: u8, a: u8) -> Rgba {
    Rgba { r, g, b, a }
}

/// The quantizer's distance, recomputed independently: per channel the
/// larger of the raw and the alpha-adjusted squared difference, summed.
fn distance(pal: Rgba, inp: Rgba) -> i64 {
    let channel = |pc: u8, ic: u8| -> i64 {
        let plain = pc as i64 - ic as i64;
        let adjusted = pc as i64 - ic as i64 - pal.a as i64 + inp.a as i64;
        (plain * plain).max(adjusted * adjusted)
    };
    channel(pal.r, inp.r) + channel(pal.g, inp.g) + channel(pal.b, inp.b)
}

fn all_colors() -> Vec<PaletteColor> {
    Palette::new().colormap
}

#[test]
fn palette_has_24_members() {
    assert_eq!(all_colors().len(), 24);
}

#[test]
fn nearest_black_is_black() {
    let palette = Palette::new();
    let (ix, rgba_out) = palette.get_closest_color(&rgba(0x0d, 0x0d, 0x0d, 0x00));
    assert_eq!(ix, 0);
    assert_eq!(rgba_out, PaletteColor::Black.get_rgba());
}

#[test]
fn each_palette_color_maps_to_itself() {
    let palette = Palette::new();
    for (ix, color) in all_colors().iter().enumerate() {
        let (found, found_rgba) = palette.get_closest_color(&color.get_rgba());
        assert_eq!(found, ix);
        assert_eq!(found_rgba, color.get_rgba());
    }
}

#[test]
fn nearest_minimizes_distance_with_first_match_ties() {
    // Sweep a coarse grid of inputs, opaque and translucent, and hold the
    // quantizer to the brute-force answer: minimal distance, earliest member
    // on ties.
    let palette = Palette::new();
    let colors = all_colors();
    for r in (0u16..=255).step_by(51) {
        for g in (0u16..=255).step_by(51) {
            for b in (0u16..=255).step_by(51) {
                for a in [0u8, 128, 255] {
                    let inp = rgba(r as u8, g as u8, b as u8, a);
                    let (ix, _) = palette.get_closest_color(&inp);
                    let best = distance(colors[ix].get_rgba(), inp);
                    for (j, c) in colors.iter().enumerate() {
                        let d = distance(c.get_rgba(), inp);
                        assert!(best <= d, "index {} not minimal against {}", ix, j);
                        if j < ix {
                            assert!(d > best, "tie at {} should have won over {}", j, ix);
                        }
                    }
                }
            }
        }
    }
}

#[test]
fn alpha_changes_the_winner() {
    // A bright translucent pixel quantizes differently from the same pixel
    // without alpha, because of the implicit background adjustment.
    let palette = Palette::new();
    let plain = palette.get_closest_color(&rgba(220, 220, 220, 0)).0;
    let translucent = palette.get_closest_color(&rgba(220, 220, 220, 255)).0;
    assert_ne!(plain, translucent);
}

#[test]
fn get_row_col_matches_grid_layout() {
    let expected = [
        (PaletteColor::Black, (0, 0)),
        (PaletteColor::Grey, (0, 1)),
        (PaletteColor::White, (0, 2)),
        (PaletteColor::DarkBrown, (1, 0)),
        (PaletteColor::Brown, (1, 1)),
        (PaletteColor::LightBrown, (1, 2)),
        (PaletteColor::DarkRed, (2, 0)),
        (PaletteColor::Red, (2, 1)),
        (PaletteColor::Pink, (2, 2)),
        (PaletteColor::Orange, (3, 0)),
        (PaletteColor::DarkYellow, (3, 1)),
        (PaletteColor::Yellow, (3, 2)),
        (PaletteColor::DarkGreen, (4, 0)),
        (PaletteColor::Green, (4, 1)),
        (PaletteColor::LightGreen, (4, 2)),
        (PaletteColor::DarkBlue, (5, 0)),
        (PaletteColor::Blue, (5, 1)),
        (PaletteColor::LightBlue, (5, 2)),
        (PaletteColor::DarkIndigo, (6, 0)),
        (PaletteColor::Indigo, (6, 1)),
        (PaletteColor::LightIndigo, (6, 2)),
        (PaletteColor::DarkViolet, (7, 0)),
        (PaletteColor::Violet, (7, 1)),
        (PaletteColor::LightViolet, (7, 2)),
    ];
    for (color, rc) in expected {
        assert_eq!(color.get_row_col(), rc);
    }
}

#[test]
fn get_rgba_spot_checks() {
    assert_eq!(
        PaletteColor::Red.get_rgba(),
        rgba(0xed, 0x1c, 0x22, 0x00)
    );
    assert_eq!(
        PaletteColor::White.get_rgba(),
        rgba(0xe5, 0xe5, 0xe5, 0x00)
    );
    assert_eq!(
        PaletteColor::LightViolet.get_rgba(),
        rgba(0xc1, 0xa7, 0xd7, 0x00)
    );
}
