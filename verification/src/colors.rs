//! The game's fixed paint palette: an enumeration of the selectable colors,
//! each with a canonical RGBA value and the (row, column) position of its
//! swatch in the on-screen color grid, plus the nearest-color quantizer that
//! maps an arbitrary RGBA pixel onto the palette.

use vstd::prelude::*;

verus! {

/// An RGBA pixel with 8-bit channels.
#[derive(Clone, Copy, Debug, PartialEq, Eq, Structural)]
pub struct Rgba {
    pub r: u8,
    pub g: u8,
    pub b: u8,
    pub a: u8,
}

/// One of the palette's selectable colors.
#[derive(Clone, Copy, Debug, PartialEq, Eq, Structural)]
pub enum PaletteColor {
    Black,
    Grey,
    White,
    DarkBrown,
    Brown,
    LightBrown,
    DarkRed,
    Red,
    Pink,
    Orange,
    DarkYellow,
    Yellow,
    DarkGreen,
    Green,
    LightGreen,
    DarkBlue,
    Blue,
    LightBlue,
    DarkIndigo,
    Indigo,
    LightIndigo,
    DarkViolet,
    Violet,
    LightViolet,
}

/// The set of palette colors in their fixed enumeration order.  Quantization
/// breaks distance ties by the first match in this order.
pub struct Palette {
    pub colormap: Vec<PaletteColor>,
}

/// The palette's fixed enumeration order.
pub open spec fn palette_order() -> Seq<PaletteColor> {
    seq![
        PaletteColor::Black,
        PaletteColor::Grey,
        PaletteColor::White,
        PaletteColor::DarkBrown,
        PaletteColor::Brown,
        PaletteColor::LightBrown,
        PaletteColor::DarkRed,
        PaletteColor::Red,
        PaletteColor::Pink,
        PaletteColor::Orange,
        PaletteColor::DarkYellow,
        PaletteColor::Yellow,
        PaletteColor::DarkGreen,
        PaletteColor::Green,
        PaletteColor::LightGreen,
        PaletteColor::DarkBlue,
        PaletteColor::Blue,
        PaletteColor::LightBlue,
        PaletteColor::DarkIndigo,
        PaletteColor::Indigo,
        PaletteColor::LightIndigo,
        PaletteColor::DarkViolet,
        PaletteColor::Violet,
        PaletteColor::LightViolet,
    ]
}

/// Squared difference of one channel, adjusted for an implicit opaque
/// background under a translucent input pixel: the larger of the raw squared
/// difference and the alpha-adjusted squared difference.
pub open spec fn channel_sq_diff(pc: int, pa: int, ic: int, ia: int) -> int {
    let plain = (pc - ic) * (pc - ic);
    let adjusted = (pc - ic - pa + ia) * (pc - ic - pa + ia);
    if plain >= adjusted {
        plain
    } else {
        adjusted
    }
}

/// Distance from an input pixel to a palette color: the sum of the squared
/// per-channel differences.
pub open spec fn color_distance(pal: Rgba, inp: Rgba) -> int {
    channel_sq_diff(pal.r as int, pal.a as int, inp.r as int, inp.a as int)
        + channel_sq_diff(pal.g as int, pal.a as int, inp.g as int, inp.a as int)
        + channel_sq_diff(pal.b as int, pal.a as int, inp.b as int, inp.a as int)
}

/// The index of the palette member closest to `c` by `color_distance`,
/// the earliest such index on ties.
pub open spec fn closest_index(pal: Seq<PaletteColor>, c: Rgba) -> int
    decreases pal.len(),
{
    if pal.len() <= 1 {
        0
    } else {
        let best = closest_index(pal.drop_last(), c);
        if color_distance(pal.last().spec_rgba(), c) < color_distance(pal[best].spec_rgba(), c) {
            pal.len() - 1
        } else {
            best
        }
    }
}

impl PaletteColor {
    /// The fixed (row, column) position of this color's swatch in the
    /// on-screen palette grid.
    pub open spec fn spec_row_col(self) -> (i32, i32) {
        match self {
            PaletteColor::Black => (0, 0),
            PaletteColor::Grey => (0, 1),
            PaletteColor::White => (0, 2),
            PaletteColor::DarkBrown => (1, 0),
            PaletteColor::Brown => (1, 1),
            PaletteColor::LightBrown => (1, 2),
            PaletteColor::DarkRed => (2, 0),
            PaletteColor::Red => (2, 1),
            PaletteColor::Pink => (2, 2),
            PaletteColor::Orange => (3, 0),
            PaletteColor::DarkYellow => (3, 1),
            PaletteColor::Yellow => (3, 2),
            PaletteColor::DarkGreen => (4, 0),
            PaletteColor::Green => (4, 1),
            PaletteColor::LightGreen => (4, 2),
            PaletteColor::DarkBlue => (5, 0),
            PaletteColor::Blue => (5, 1),
            PaletteColor::LightBlue => (5, 2),
            PaletteColor::DarkIndigo => (6, 0),
            PaletteColor::Indigo => (6, 1),
            PaletteColor::LightIndigo => (6, 2),
            PaletteColor::DarkViolet => (7, 0),
            PaletteColor::Violet => (7, 1),
            PaletteColor::LightViolet => (7, 2),
        }
    }

    pub fn get_row_col(&self) -> (p: (i32, i32))
        ensures
            p == self.spec_row_col(),
    {
        match *self {
            PaletteColor::Black => (0, 0),
            PaletteColor::Grey => (0, 1),
            PaletteColor::White => (0, 2),
            PaletteColor::DarkBrown => (1, 0),
            PaletteColor::Brown => (1, 1),
            PaletteColor::LightBrown => (1, 2),
            PaletteColor::DarkRed => (2, 0),
            PaletteColor::Red => (2, 1),
            PaletteColor::Pink => (2, 2),
            PaletteColor::Orange => (3, 0),
            PaletteColor::DarkYellow => (3, 1),
            PaletteColor::Yellow => (3, 2),
            PaletteColor::DarkGreen => (4, 0),
            PaletteColor::Green => (4, 1),
            PaletteColor::LightGreen => (4, 2),
            PaletteColor::DarkBlue => (5, 0),
            PaletteColor::Blue => (5, 1),
            PaletteColor::LightBlue => (5, 2),
            PaletteColor::DarkIndigo => (6, 0),
            PaletteColor::Indigo => (6, 1),
            PaletteColor::LightIndigo => (6, 2),
            PaletteColor::DarkViolet => (7, 0),
            PaletteColor::Violet => (7, 1),
            PaletteColor::LightViolet => (7, 2),
        }
    }

    /// The canonical RGBA value of this palette color.
    pub open spec fn spec_rgba(self) -> Rgba {
        match self {
            PaletteColor::Black => Rgba { r: 0x0d, g: 0x0d, b: 0x0d, a: 0x00 },
            PaletteColor::Grey => Rgba { r: 0x76, g: 0x76, b: 0x76, a: 0x00 },
            PaletteColor::White => Rgba { r: 0xe5, g: 0xe5, b: 0xe5, a: 0x00 },
            PaletteColor::DarkBrown => Rgba { r: 0x62, g: 0x32, b: 0x00, a: 0x00 },
            PaletteColor::Brown => Rgba { r: 0xb9, g: 0x7a, b: 0x56, a: 0x00 },
            PaletteColor::LightBrown => Rgba { r: 0xef, g: 0xe4, b: 0xb0, a: 0x00 },
            PaletteColor::DarkRed => Rgba { r: 0x7e, g: 0x0d, b: 0x0d, a: 0x00 },
            PaletteColor::Red => Rgba { r: 0xed, g: 0x1c, b: 0x22, a: 0x00 },
            PaletteColor::Pink => Rgba { r: 0xff, g: 0xae, b: 0xc9, a: 0x00 },
            PaletteColor::Orange => Rgba { r: 0xff, g: 0x7f, b: 0x26, a: 0x00 },
            PaletteColor::DarkYellow => Rgba { r: 0xff, g: 0xc9, b: 0x0d, a: 0x00 },
            PaletteColor::Yellow => Rgba { r: 0xfa, g: 0xed, b: 0x16, a: 0x00 },
            PaletteColor::DarkGreen => Rgba { r: 0x26, g: 0x5d, b: 0x38, a: 0x00 },
            PaletteColor::Green => Rgba { r: 0x35, g: 0xab, b: 0x55, a: 0x00 },
            PaletteColor::LightGreen => Rgba { r: 0xb5, g: 0xe6, b: 0x1c, a: 0x00 },
            PaletteColor::DarkBlue => Rgba { r: 0x00, g: 0x65, b: 0x91, a: 0x00 },
            PaletteColor::Blue => Rgba { r: 0x00, g: 0xa2, b: 0xe8, a: 0x00 },
            PaletteColor::LightBlue => Rgba { r: 0x99, g: 0xd9, b: 0xea, a: 0x00 },
            PaletteColor::DarkIndigo => Rgba { r: 0x1c, g: 0x22, b: 0x63, a: 0x00 },
            PaletteColor::Indigo => Rgba { r: 0x30, g: 0x39, b: 0xcc, a: 0x00 },
            PaletteColor::LightIndigo => Rgba { r: 0x70, g: 0x92, b: 0xbe, a: 0x00 },
            PaletteColor::DarkViolet => Rgba { r: 0x95, g: 0x35, b: 0x96, a: 0x00 },
            PaletteColor::Violet => Rgba { r: 0xd5, g: 0x5f, b: 0xd7, a: 0x00 },
            PaletteColor::LightViolet => Rgba { r: 0xc1, g: 0xa7, b: 0xd7, a: 0x00 },
        }
    }

    pub fn get_rgba(&self) -> (c: Rgba)
        ensures
            c == self.spec_rgba(),
    {
        match *self {
            PaletteColor::Black => Rgba { r: 0x0d, g: 0x0d, b: 0x0d, a: 0x00 },
            PaletteColor::Grey => Rgba { r: 0x76, g: 0x76, b: 0x76, a: 0x00 },
            PaletteColor::White => Rgba { r: 0xe5, g: 0xe5, b: 0xe5, a: 0x00 },
            PaletteColor::DarkBrown => Rgba { r: 0x62, g: 0x32, b: 0x00, a: 0x00 },
            PaletteColor::Brown => Rgba { r: 0xb9, g: 0x7a, b: 0x56, a: 0x00 },
            PaletteColor::LightBrown => Rgba { r: 0xef, g: 0xe4, b: 0xb0, a: 0x00 },
            PaletteColor::DarkRed => Rgba { r: 0x7e, g: 0x0d, b: 0x0d, a: 0x00 },
            PaletteColor::Red => Rgba { r: 0xed, g: 0x1c, b: 0x22, a: 0x00 },
            PaletteColor::Pink => Rgba { r: 0xff, g: 0xae, b: 0xc9, a: 0x00 },
            PaletteColor::Orange => Rgba { r: 0xff, g: 0x7f, b: 0x26, a: 0x00 },
            PaletteColor::DarkYellow => Rgba { r: 0xff, g: 0xc9, b: 0x0d, a: 0x00 },
            PaletteColor::Yellow => Rgba { r: 0xfa, g: 0xed, b: 0x16, a: 0x00 },
            PaletteColor::DarkGreen => Rgba { r: 0x26, g: 0x5d, b: 0x38, a: 0x00 },
            PaletteColor::Green => Rgba { r: 0x35, g: 0xab, b: 0x55, a: 0x00 },
            PaletteColor::LightGreen => Rgba { r: 0xb5, g: 0xe6, b: 0x1c, a: 0x00 },
            PaletteColor::DarkBlue => Rgba { r: 0x00, g: 0x65, b: 0x91, a: 0x00 },
            PaletteColor::Blue => Rgba { r: 0x00, g: 0xa2, b: 0xe8, a: 0x00 },
            PaletteColor::LightBlue => Rgba { r: 0x99, g: 0xd9, b: 0xea, a: 0x00 },
            PaletteColor::DarkIndigo => Rgba { r: 0x1c, g: 0x22, b: 0x63, a: 0x00 },
            PaletteColor::Indigo => Rgba { r: 0x30, g: 0x39, b: 0xcc, a: 0x00 },
            PaletteColor::LightIndigo => Rgba { r: 0x70, g: 0x92, b: 0xbe, a: 0x00 },
            PaletteColor::DarkViolet => Rgba { r: 0x95, g: 0x35, b: 0x96, a: 0x00 },
            PaletteColor::Violet => Rgba { r: 0xd5, g: 0x5f, b: 0xd7, a: 0x00 },
            PaletteColor::LightViolet => Rgba { r: 0xc1, g: 0xa7, b: 0xd7, a: 0x00 },
        }
    }
}

/// Squared channel difference, adjusted for translucency as
/// `channel_sq_diff` describes.
fn channel_dist(pc: u8, pa: u8, ic: u8, ia: u8) -> (d: i32)
    ensures
        d == channel_sq_diff(pc as int, pa as int, ic as int, ia as int),
        0 <= d <= 260100,
{
    let plain: i32 = pc as i32 - ic as i32;
    assert(0 <= plain * plain <= 65025) by (nonlinear_arith)
        requires
            -255 <= plain <= 255,
    ;
    let plain_sq: i32 = plain * plain;
    let adjusted: i32 = pc as i32 - ic as i32 - pa as i32 + ia as i32;
    assert(0 <= adjusted * adjusted <= 260100) by (nonlinear_arith)
        requires
            -510 <= adjusted <= 510,
    ;
    let adjusted_sq: i32 = adjusted * adjusted;
    if plain_sq >= adjusted_sq {
        plain_sq
    } else {
        adjusted_sq
    }
}

/// Distance from an input pixel to a palette color, as `color_distance`.
fn rgba_dist(pal: Rgba, inp: Rgba) -> (d: i32)
    ensures
        d == color_distance(pal, inp),
        0 <= d <= 780300,
{
    let dr = channel_dist(pal.r, pal.a, inp.r, inp.a);
    let dg = channel_dist(pal.g, pal.a, inp.g, inp.a);
    let db = channel_dist(pal.b, pal.a, inp.b, inp.a);
    dr + dg + db
}

impl Palette {
    /// The full palette in its fixed enumeration order.
    pub fn new() -> (p: Palette)
        ensures
            p.colormap@ == palette_order(),
    {
        let mut colors: Vec<PaletteColor> = Vec::new();
        colors.push(PaletteColor::Black);
        colors.push(PaletteColor::Grey);
        colors.push(PaletteColor::White);
        colors.push(PaletteColor::DarkBrown);
        colors.push(PaletteColor::Brown);
        colors.push(PaletteColor::LightBrown);
        colors.push(PaletteColor::DarkRed);
        colors.push(PaletteColor::Red);
        colors.push(PaletteColor::Pink);
        colors.push(PaletteColor::Orange);
        colors.push(PaletteColor::DarkYellow);
        colors.push(PaletteColor::Yellow);
        colors.push(PaletteColor::DarkGreen);
        colors.push(PaletteColor::Green);
        colors.push(PaletteColor::LightGreen);
        colors.push(PaletteColor::DarkBlue);
        colors.push(PaletteColor::Blue);
        colors.push(PaletteColor::LightBlue);
        colors.push(PaletteColor::DarkIndigo);
        colors.push(PaletteColor::Indigo);
        colors.push(PaletteColor::LightIndigo);
        colors.push(PaletteColor::DarkViolet);
        colors.push(PaletteColor::Violet);
        colors.push(PaletteColor::LightViolet);
        assert(colors@ =~= palette_order());
        Palette { colormap: colors }
    }

    /// The palette member closest to the given color, by `color_distance`,
    /// together with its index in the palette's enumeration order.  Distance
    /// ties go to the earliest member.
    pub fn get_closest_color(&self, color: &Rgba) -> (r: (usize, Rgba))
        requires
            self.colormap@.len() > 0,
        ensures
            r.0 < self.colormap@.len(),
            r.0 as int == closest_index(self.colormap@, *color),
            r.1 == self.colormap@[r.0 as int].spec_rgba(),
            forall|j: int|
                0 <= j < self.colormap@.len() ==> color_distance(
                    self.colormap@[r.0 as int].spec_rgba(),
                    *color,
                ) <= color_distance((#[trigger] self.colormap@[j]).spec_rgba(), *color),
            forall|j: int|
                0 <= j < r.0 ==> color_distance((#[trigger] self.colormap@[j]).spec_rgba(), *color)
                    > color_distance(self.colormap@[r.0 as int].spec_rgba(), *color),
    {
        let mut index: usize = 0;
        let mut color_dist: i32 = rgba_dist(self.colormap[0].get_rgba(), *color);
        let mut ix: usize = 1;
        while ix < self.colormap.len()
            invariant
                self.colormap@.len() > 0,
                1 <= ix <= self.colormap@.len(),
                index < ix,
                index as int == closest_index(self.colormap@.take(ix as int), *color),
                color_dist == color_distance(self.colormap@[index as int].spec_rgba(), *color),
                forall|j: int|
                    0 <= j < ix ==> color_dist <= color_distance(
                        (#[trigger] self.colormap@[j]).spec_rgba(),
                        *color,
                    ),
                forall|j: int|
                    0 <= j < index ==> color_distance(
                        (#[trigger] self.colormap@[j]).spec_rgba(),
                        *color,
                    ) > color_dist,
            decreases self.colormap@.len() - ix,
        {
            proof {
                assert(self.colormap@.take(ix + 1).drop_last() =~= self.colormap@.take(ix as int));
                assert(self.colormap@.take(ix + 1).last() == self.colormap@[ix as int]);
            }
            let curr_color_dist = rgba_dist(self.colormap[ix].get_rgba(), *color);
            if curr_color_dist < color_dist {
                index = ix;
                color_dist = curr_color_dist;
            }
            ix = ix + 1;
        }
        proof {
            assert(self.colormap@.take(self.colormap@.len() as int) =~= self.colormap@);
        }
        (index, self.colormap[index].get_rgba())
    }
}

} // verus!
