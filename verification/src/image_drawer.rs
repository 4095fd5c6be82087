//! Drawing whole images: the run-length stroke encoder.  Pixels arrive in
//! row-major order, already decoded; each one is quantized to the palette,
//! and maximal same-color runs within a row become single horizontal
//! strokes.  Runs never merge across rows.  Around the pixel raster, border
//! strokes in the background color fill whatever letterbox gap the centering
//! offset leaves between the drawn region and the full canvas.

use vstd::prelude::*;

use crate::colors::closest_index;
use crate::colors::palette_order;
use crate::colors::Palette;
use crate::colors::PaletteColor;
use crate::colors::Rgba;
use crate::coords::Coord;
use crate::easel::change_brush_gs;
use crate::easel::coord_in_range;
use crate::easel::move_click_gs;
use crate::easel::tool_coord;
use crate::easel::toggled;
use crate::easel::Easel;
use crate::easel::EaselCoords;
use crate::easel::EaselError;
use crate::easel::Gesture;
use crate::easel::Orientation;
use crate::easel::Tool;
use crate::easel::COORD_LIMIT;
use crate::fill::div_trunc;
use crate::fill::lemma_run_single;
use crate::fill::run_lines;
use crate::fill::stroke_in_range;
use crate::fill::trunc_div;

verus! {

/// The palette member an input pixel quantizes to.
pub open spec fn quantized(c: Rgba) -> PaletteColor {
    palette_order()[closest_index(palette_order(), c)]
}

/// Whether sizing an image of the given dimensions onto the easel calls for
/// toggling the orientation: a wide image wants landscape, a tall one wants
/// portrait.
pub open spec fn flip_needed(o: Orientation, size_x: int, size_y: int) -> bool {
    (size_x > size_y && o is Portrait) || (size_y > size_x && o is Landscape)
}

/// `n` horizontal strokes from x `x0` to x `x1`, on consecutive scanlines
/// starting at y `y0`.
pub open spec fn h_strokes(x0: int, x1: int, y0: int, n: int) -> Seq<(Coord, Coord)> {
    Seq::new(
        (if n <= 0 {
            0
        } else {
            n
        }) as nat,
        |i: int|
            (
                Coord { x: x0 as i32, y: (y0 + i) as i32 },
                Coord { x: x1 as i32, y: (y0 + i) as i32 },
            ),
    )
}

/// The border strokes that tidy the canvas after the raster: the left and
/// right letterbox columns (a vertical edge line plus horizontal strokes
/// beside the image) where a gap exists, then the bottom rows below the
/// last drawn run.
pub open spec fn cleanup_strokes(
    easel_size: Coord,
    image_size: Coord,
    offset: Coord,
    pos: Coord,
) -> Seq<(Coord, Coord)> {
    let left_edge = offset.x - 1;
    let right_edge = image_size.x + offset.x + 1;
    (if left_edge > 0 {
        seq![
            (
                Coord { x: left_edge as i32, y: 0 },
                Coord { x: left_edge as i32, y: image_size.y },
            ),
        ] + h_strokes(0, left_edge, offset.y as int, image_size.y as int)
    } else {
        Seq::empty()
    }) + (if right_edge < easel_size.x {
        seq![
            (
                Coord { x: right_edge as i32, y: 0 },
                Coord { x: right_edge as i32, y: image_size.y },
            ),
        ] + h_strokes(right_edge, easel_size.x as int, offset.y as int, image_size.y as int)
    } else {
        Seq::empty()
    }) + h_strokes(0, easel_size.x as int, pos.y as int, easel_size.y - pos.y)
}

/// The target width and height for scaling an image onto the easel: the
/// extent of the landscape bounds when the image is wider than tall, of the
/// portrait bounds otherwise.
pub fn resize_target(easel_coords: &EaselCoords, size_x: u32, size_y: u32) -> (r: (u32, u32))
    requires
        easel_coords.wf(),
    ensures
        ({
            let b = if size_x > size_y {
                easel_coords.landscape_bounds
            } else {
                easel_coords.portrait_bounds
            };
            r.0 as int == b.1.x - b.0.x && r.1 as int == b.1.y - b.0.y
        }),
{
    let (ul_corner, br_corner) = if size_x > size_y {
        easel_coords.landscape_bounds
    } else {
        easel_coords.portrait_bounds
    };
    let x_bounds = br_corner.x - ul_corner.x;
    let y_bounds = br_corner.y - ul_corner.y;
    (x_bounds as u32, y_bounds as u32)
}

/// Appends the `n` horizontal strokes of `h_strokes` to `v`.
#[verifier::loop_isolation(false)]
fn push_h_strokes(v: &mut Vec<(Coord, Coord)>, x0: i32, x1: i32, y0: i32, n: i32)
    requires
        -3 * COORD_LIMIT as int <= x0 <= 3 * COORD_LIMIT as int,
        -3 * COORD_LIMIT as int <= x1 <= 3 * COORD_LIMIT as int,
        -3 * COORD_LIMIT as int <= y0,
        y0 + n <= 3 * COORD_LIMIT as int,
    ensures
        final(v)@ == old(v)@ + h_strokes(x0 as int, x1 as int, y0 as int, n as int),
        forall|t: int|
            old(v)@.len() <= t < final(v)@.len() ==> stroke_in_range(
                #[trigger] final(v)@[t],
                3 * COORD_LIMIT as int,
            ),
{
    let ghost hs: Seq<(Coord, Coord)> = h_strokes(x0 as int, x1 as int, y0 as int, n as int);
    let mut i: i32 = 0;
    while i < n
        invariant
            0 <= i,
            i as int <= (if n <= 0 { 0int } else { n as int }),
            v@ == old(v)@ + hs.take(i as int),
            forall|t: int|
                old(v)@.len() <= t < v@.len() ==> stroke_in_range(
                    #[trigger] v@[t],
                    3 * COORD_LIMIT as int,
                ),
        decreases n - i,
    {
        v.push((Coord::new(x0, y0 + i), Coord::new(x1, y0 + i)));
        proof {
            assert(hs[i as int] == (
                Coord { x: x0, y: (y0 + i) as i32 },
                Coord { x: x1, y: (y0 + i) as i32 },
            ));
            assert(v@ =~= old(v)@ + hs.take(i + 1));
        }
        i = i + 1;
    }
    proof {
        if n <= 0 {
            assert(hs.take(0) =~= hs);
        } else {
            assert(hs.take(n as int) =~= hs);
        }
        assert(v@ =~= old(v)@ + hs);
    }
}

/// A structure that provides means to draw whole images to the easel, one
/// pixel at a time, merging same-color runs within a row into single
/// strokes.
pub struct ImageDrawer {
    /// The easel drawn on.
    pub easel: Easel,
    /// The fixed palette, used to quantize incoming pixels.
    pub palette: Palette,
    /// The color of the run currently open.
    pub current_color: PaletteColor,
    /// The extent of the easel along each axis.
    pub easel_size: Coord,
    /// Where the run currently open started.
    pub current_pos: Coord,
    /// The size of the image.
    pub image_size: Coord,
    /// The offset that centers the image on the easel.
    pub offset: Coord,
}

impl ImageDrawer {
    /// A usable drawer: a usable easel, the full palette, and every
    /// geometric field within the coordinate limits.
    pub open spec fn wf(self) -> bool {
        &&& self.easel.wf()
        &&& self.palette.colormap@ == palette_order()
        &&& -2 * COORD_LIMIT as int <= self.easel_size.x <= 2 * COORD_LIMIT as int
        &&& -2 * COORD_LIMIT as int <= self.easel_size.y <= 2 * COORD_LIMIT as int
        &&& coord_in_range(self.image_size)
        &&& coord_in_range(self.offset)
        &&& 0 <= self.image_size.x
        &&& 0 <= self.image_size.y
        &&& -3 * COORD_LIMIT as int <= self.current_pos.x <= 3 * COORD_LIMIT as int
        &&& -3 * COORD_LIMIT as int <= self.current_pos.y <= 3 * COORD_LIMIT as int
    }

    /// The configuration fields an encoding step leaves alone.
    pub open spec fn same_layout(self, other: ImageDrawer) -> bool {
        &&& self.easel_size == other.easel_size
        &&& self.image_size == other.image_size
        &&& self.offset == other.offset
        &&& self.palette.colormap@ == other.palette.colormap@
        &&& self.easel.same_config(other.easel)
        &&& self.easel.orientation == other.easel.orientation
        &&& self.easel.current_tool == other.easel.current_tool
        &&& self.easel.brush_size == other.easel.brush_size
    }

    /// Prepares the easel for image drawing: smallest brush, paintbrush
    /// tool, and the orientation that fits the image, then computes the
    /// centering offset that letterboxes the image onto the canvas.
    pub fn new(easel: Easel, size_x: u32, size_y: u32) -> (d: ImageDrawer)
        requires
            easel.wf(),
            size_x <= COORD_LIMIT,
            size_y <= COORD_LIMIT,
        ensures
            d.wf(),
            easel.same_config(d.easel),
            d.easel.brush_size == 0,
            d.easel.current_tool is Paintbrush,
            d.easel.current_color == easel.current_color,
            d.easel.orientation == (if flip_needed(easel.orientation, size_x as int, size_y as int) {
                toggled(easel.orientation)
            } else {
                easel.orientation
            }),
            d.easel.gestures@ == easel.gestures@ + change_brush_gs(
                easel.easel_coords,
                easel.brush_size as int,
                0,
                easel.mouse_wait,
            ) + move_click_gs(tool_coord(easel.easel_coords, Tool::Paintbrush), easel.mouse_wait)
                + (if flip_needed(easel.orientation, size_x as int, size_y as int) {
                move_click_gs(easel.easel_coords.change_orientation, easel.mouse_wait)
            } else {
                Seq::empty()
            }),
            d.current_color == easel.current_color,
            d.easel_size.x == d.easel.spec_bounds().1.x - d.easel.spec_bounds().0.x - 1,
            d.easel_size.y == d.easel.spec_bounds().1.y - d.easel.spec_bounds().0.y - 1,
            d.image_size == (Coord { x: size_x as i32, y: size_y as i32 }),
            d.offset.x as int == trunc_div(d.easel_size.x - size_x + 1, 2),
            d.offset.y as int == trunc_div(d.easel_size.y - size_y, 2),
            d.current_pos == d.offset,
    {
        let ghost e_in: Easel = easel;
        let mut easel = easel;
        easel.change_brush_size(0);
        easel.change_tool(Tool::Paintbrush);

        if (size_x > size_y && matches!(easel.orientation, Orientation::Portrait)) || (size_y
            > size_x && matches!(easel.orientation, Orientation::Landscape)) {
            easel.change_orientation();
        }
        let current_color = easel.current_color;

        let (ulcorner, lrcorner) = easel.get_bounds();
        let easel_x = lrcorner.x - ulcorner.x - 1;
        let easel_y = lrcorner.y - ulcorner.y - 1;
        let easel_size = Coord::new(easel_x, easel_y);

        let size_x = size_x as i32;
        let size_y = size_y as i32;
        let image_size = Coord::new(size_x, size_y);

        // Offsets used to center the image as best as possible on the easel.
        proof {
            vstd::arithmetic::div_mod::lemma_div_is_ordered(
                crate::easel::abs_i(easel_x - size_x + 1),
                2 * COORD_LIMIT as int + 1,
                2,
            );
            vstd::arithmetic::div_mod::lemma_div_is_ordered(
                crate::easel::abs_i(easel_y - size_y as int),
                2 * COORD_LIMIT as int + 1,
                2,
            );
            assert((2 * COORD_LIMIT as int + 1) / 2 == COORD_LIMIT as int);
        }
        let offset_x = div_trunc((easel_x - size_x + 1) as i64, 2) as i32;
        let offset_y = div_trunc((easel_y - size_y) as i64, 2) as i32;
        let offset = Coord::new(offset_x, offset_y);
        let current_pos = Coord::new(offset_x, offset_y);

        let d = ImageDrawer {
            easel,
            palette: Palette::new(),
            current_color,
            easel_size,
            image_size,
            current_pos,
            offset,
        };
        proof {
            assert(d.easel.gestures@ =~= e_in.gestures@ + change_brush_gs(
                e_in.easel_coords,
                e_in.brush_size as int,
                0,
                e_in.mouse_wait,
            ) + move_click_gs(tool_coord(e_in.easel_coords, Tool::Paintbrush), e_in.mouse_wait) + (
            if flip_needed(e_in.orientation, size_x as int, size_y as int) {
                move_click_gs(e_in.easel_coords.change_orientation, e_in.mouse_wait)
            } else {
                Seq::empty()
            }));
        }
        d
    }
}


impl ImageDrawer {
    /// Draws the top border for centering the image along the y-axis: one
    /// background-color stroke per scanline above the image.  When the image
    /// fills the canvas vertically this draws nothing.
    pub fn draw_top_border(&mut self) -> (r: Result<(), EaselError>)
        requires
            old(self).wf(),
        ensures
            final(self).wf(),
            old(self).same_layout(*final(self)),
            final(self).current_pos == old(self).current_pos,
            ({
                let run = run_lines(
                    h_strokes(0, old(self).easel_size.x as int, 0, old(self).offset.y as int),
                    old(self).easel.current_color,
                    PaletteColor::White,
                    old(self).easel.easel_coords,
                    old(self).easel.spec_bounds().0,
                    old(self).easel.spec_bounds().1,
                    old(self).easel.mouse_wait,
                );
                &&& r == (if run.2 {
                    Ok::<(), EaselError>(())
                } else {
                    Err::<(), EaselError>(EaselError::OutOfBounds)
                })
                &&& final(self).easel.current_color == run.1
                &&& final(self).easel.gestures@ == old(self).easel.gestures@ + run.0
                &&& (run.2 ==> final(self).current_color == run.1)
                &&& (!run.2 ==> final(self).current_color == old(self).current_color)
            }),
    {
        let mut v: Vec<(Coord, Coord)> = Vec::new();
        push_h_strokes(&mut v, 0, self.easel_size.x, 0, self.offset.y);
        proof {
            assert(v@ =~= h_strokes(0, self.easel_size.x as int, 0, self.offset.y as int));
        }
        let res = self.easel.draw_lines(&v, &PaletteColor::White);
        if let Err(e) = res {
            return Err(e);
        }
        self.current_color = self.easel.current_color;
        Ok(())
    }

    /// Processes the next pixel from an image, given in row-major order.
    ///
    /// Nothing is drawn unless the pixel starts a new row, in which case the
    /// rest of the open run's row is drawn first, or its quantized color
    /// differs from the open run's, in which case the run is drawn up to the
    /// pixel before this one.  Either way the run then restarts at this
    /// pixel with its quantized color.
    #[verifier::rlimit(100)]
    pub fn handle_pixel(&mut self, rgba: Rgba, x: u32, y: u32) -> (r: Result<(), EaselError>)
        requires
            old(self).wf(),
            x <= COORD_LIMIT,
            y <= COORD_LIMIT,
        ensures
            final(self).wf(),
            old(self).same_layout(*final(self)),
            ({
                let q = quantized(rgba);
                let in_c = Coord {
                    x: (x + old(self).offset.x) as i32,
                    y: (y + old(self).offset.y) as i32,
                };
                let ul = old(self).easel.spec_bounds().0;
                let lr = old(self).easel.spec_bounds().1;
                let ec = old(self).easel.easel_coords;
                let mw = old(self).easel.mouse_wait;
                if in_c.y > old(self).current_pos.y {
                    let s1 = Coord {
                        x: (old(self).image_size.x + old(self).offset.x) as i32,
                        y: old(self).current_pos.y,
                    };
                    let run = run_lines(
                        seq![(old(self).current_pos, s1)],
                        old(self).easel.current_color,
                        old(self).current_color,
                        ec,
                        ul,
                        lr,
                        mw,
                    );
                    &&& r == (if run.2 {
                        Ok::<(), EaselError>(())
                    } else {
                        Err::<(), EaselError>(EaselError::OutOfBounds)
                    })
                    &&& final(self).easel.current_color == run.1
                    &&& final(self).easel.gestures@ == old(self).easel.gestures@ + run.0
                    &&& (run.2 ==> final(self).current_pos == in_c && final(self).current_color
                        == q)
                    &&& (!run.2 ==> final(self).current_pos == old(self).current_pos && final(self).current_color == old(self).current_color)
                } else if q != old(self).current_color {
                    let s1 = Coord { x: (in_c.x - 1) as i32, y: in_c.y };
                    let run = run_lines(
                        seq![(old(self).current_pos, s1)],
                        old(self).easel.current_color,
                        old(self).current_color,
                        ec,
                        ul,
                        lr,
                        mw,
                    );
                    &&& r == (if run.2 {
                        Ok::<(), EaselError>(())
                    } else {
                        Err::<(), EaselError>(EaselError::OutOfBounds)
                    })
                    &&& final(self).easel.current_color == run.1
                    &&& final(self).easel.gestures@ == old(self).easel.gestures@ + run.0
                    &&& (run.2 ==> final(self).current_pos == in_c && final(self).current_color
                        == q)
                    &&& (!run.2 ==> final(self).current_pos == old(self).current_pos && final(self).current_color == old(self).current_color)
                } else {
                    r == Ok::<(), EaselError>(()) && *final(self) == *old(self)
                }
            }),
    {
        let in_coord = Coord::new(x as i32 + self.offset.x, y as i32 + self.offset.y);
        let closest = self.palette.get_closest_color(&rgba);
        let closest_color = self.palette.colormap[closest.0];
        proof {
            assert(closest_color == quantized(rgba));
        }
        // If this pixel starts a new row, draw the rest of the open run's
        // row before moving on.
        if in_coord.y > self.current_pos.y {
            let end = Coord::new(self.image_size.x + self.offset.x, self.current_pos.y);
            let cur = self.current_color;
            let ghost s: (Coord, Coord) = (self.current_pos, end);
            proof {
                lemma_run_single(
                    s,
                    self.easel.current_color,
                    cur,
                    self.easel.easel_coords,
                    self.easel.spec_bounds().0,
                    self.easel.spec_bounds().1,
                    self.easel.mouse_wait,
                );
            }
            let res = self.easel.draw_line(self.current_pos, end, &cur);
            if let Err(e) = res {
                return Err(e);
            }
            self.current_pos = in_coord;
            self.current_color = closest_color;
            return Ok(());
        }
        // If the color changes within the row, draw the run up to the pixel
        // before this one and restart it here.
        if closest_color != self.current_color {
            let end = Coord::new(in_coord.x - 1, in_coord.y);
            let cur = self.current_color;
            let ghost s: (Coord, Coord) = (self.current_pos, end);
            proof {
                lemma_run_single(
                    s,
                    self.easel.current_color,
                    cur,
                    self.easel.easel_coords,
                    self.easel.spec_bounds().0,
                    self.easel.spec_bounds().1,
                    self.easel.mouse_wait,
                );
            }
            let res = self.easel.draw_line(self.current_pos, end, &cur);
            if let Err(e) = res {
                return Err(e);
            }
            self.current_pos = in_coord;
            self.current_color = closest_color;
        }
        Ok(())
    }

    /// Flushes the run currently open: draws it to the image's right edge in
    /// the run's color, exactly as a row advance would, and moves the run
    /// start to the beginning of the next row.
    pub fn flush_run(&mut self) -> (r: Result<(), EaselError>)
        requires
            old(self).wf(),
            old(self).current_pos.y + 1 <= 3 * COORD_LIMIT as int,
        ensures
            final(self).wf(),
            old(self).same_layout(*final(self)),
            final(self).current_color == old(self).current_color,
            ({
                let s1 = Coord {
                    x: (old(self).image_size.x + old(self).offset.x) as i32,
                    y: old(self).current_pos.y,
                };
                let run = run_lines(
                    seq![(old(self).current_pos, s1)],
                    old(self).easel.current_color,
                    old(self).current_color,
                    old(self).easel.easel_coords,
                    old(self).easel.spec_bounds().0,
                    old(self).easel.spec_bounds().1,
                    old(self).easel.mouse_wait,
                );
                &&& r == (if run.2 {
                    Ok::<(), EaselError>(())
                } else {
                    Err::<(), EaselError>(EaselError::OutOfBounds)
                })
                &&& final(self).easel.current_color == run.1
                &&& final(self).easel.gestures@ == old(self).easel.gestures@ + run.0
                &&& (run.2 ==> final(self).current_pos == (Coord {
                    x: old(self).offset.x,
                    y: (old(self).current_pos.y + 1) as i32,
                }))
                &&& (!run.2 ==> final(self).current_pos == old(self).current_pos)
            }),
    {
        let end = Coord::new(self.image_size.x + self.offset.x, self.current_pos.y);
        let cur = self.current_color;
        let ghost s: (Coord, Coord) = (self.current_pos, end);
        proof {
            lemma_run_single(
                s,
                self.easel.current_color,
                cur,
                self.easel.easel_coords,
                self.easel.spec_bounds().0,
                self.easel.spec_bounds().1,
                self.easel.mouse_wait,
            );
        }
        let res = self.easel.draw_line(self.current_pos, end, &cur);
        if let Err(e) = res {
            return Err(e);
        }
        self.current_pos = Coord::new(self.offset.x, self.current_pos.y + 1);
        Ok(())
    }

    /// Draws the bottom border and cleans up the horizontal edges: the left
    /// and right letterbox columns where a gap exists, then background rows
    /// from the run start down to the bottom of the canvas.
    pub fn cleanup_image(&mut self) -> (r: Result<(), EaselError>)
        requires
            old(self).wf(),
        ensures
            final(self).wf(),
            old(self).same_layout(*final(self)),
            final(self).current_pos == old(self).current_pos,
            final(self).current_color == old(self).current_color,
            ({
                let run = run_lines(
                    cleanup_strokes(
                        old(self).easel_size,
                        old(self).image_size,
                        old(self).offset,
                        old(self).current_pos,
                    ),
                    old(self).easel.current_color,
                    PaletteColor::White,
                    old(self).easel.easel_coords,
                    old(self).easel.spec_bounds().0,
                    old(self).easel.spec_bounds().1,
                    old(self).easel.mouse_wait,
                );
                &&& r == (if run.2 {
                    Ok::<(), EaselError>(())
                } else {
                    Err::<(), EaselError>(EaselError::OutOfBounds)
                })
                &&& final(self).easel.current_color == run.1
                &&& final(self).easel.gestures@ == old(self).easel.gestures@ + run.0
            }),
    {
        let mut v: Vec<(Coord, Coord)> = Vec::new();
        // Clean up the left-most edge of the picture if one exists.
        let left_edge = self.offset.x - 1;
        if left_edge > 0 {
            v.push((Coord::new(left_edge, 0), Coord::new(left_edge, self.image_size.y)));
            push_h_strokes(&mut v, 0, left_edge, self.offset.y, self.image_size.y);
        }
        // Clean up the right-most edge of the picture if one exists.
        let right_edge = self.image_size.x + self.offset.x + 1;
        if right_edge < self.easel_size.x {
            v.push((Coord::new(right_edge, 0), Coord::new(right_edge, self.image_size.y)));
            push_h_strokes(&mut v, right_edge, self.easel_size.x, self.offset.y, self.image_size.y);
        }
        // Tidy up the bottom by filling in the rows below the last run.
        push_h_strokes(
            &mut v,
            0,
            self.easel_size.x,
            self.current_pos.y,
            self.easel_size.y - self.current_pos.y,
        );
        proof {
            assert(v@ =~= cleanup_strokes(
                self.easel_size,
                self.image_size,
                self.offset,
                self.current_pos,
            ));
            assert forall|t: int| 0 <= t < v@.len() implies stroke_in_range(
                #[trigger] v@[t],
                3 * COORD_LIMIT as int,
            ) by {}
        }
        self.easel.draw_lines(&v, &PaletteColor::White)
    }
}

} // verus!
