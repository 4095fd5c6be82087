//! Drawing arbitrary shapes: an ordered point list becomes one continuous
//! pointer stroke (press at the first point, move through the rest, release),
//! optionally closed back to the first point, optionally filled by the
//! scanline filler.
//!
//! Points arrive in drawing space and are translated into device space by
//! adding the current orientation's upper-left bound corner; every translated
//! point is validated against the lower-right corner before any stroke
//! gesture is emitted.

use vstd::prelude::*;

use crate::colors::PaletteColor;
use crate::coords::Coord;
use crate::easel::change_color_gs;
use crate::easel::Easel;
use crate::easel::EaselError;
use crate::easel::Gesture;

verus! {

/// The drawing-space point `p` translated into device space by the
/// upper-left bound corner `ul`.
pub open spec fn translate_pt(ul: Coord, p: Coord) -> Coord {
    Coord { x: (ul.x + p.x) as i32, y: (ul.y + p.y) as i32 }
}

/// Whether the translation of `p` stays within the lower-right bound corner
/// `lr`.  Only the lower-right corner is checked, as the game ignores
/// gestures left of or above the canvas.
pub open spec fn pt_in_bounds(ul: Coord, lr: Coord, p: Coord) -> bool {
    ul.x + p.x <= lr.x && ul.y + p.y <= lr.y
}

/// Every point of `pts` translates to within the lower-right bound corner.
pub open spec fn all_in_bounds(ul: Coord, lr: Coord, pts: Seq<Coord>) -> bool {
    forall|i: int| 0 <= i < pts.len() ==> pt_in_bounds(ul, lr, #[trigger] pts[i])
}

/// Every translated point stays at or above `i32::MIN` on both axes, so
/// translation can be carried out in machine arithmetic.  (The upper side
/// needs no clause: a translation beyond `i32::MAX` is beyond the lower-right
/// bound corner and is rejected as out of bounds first.)
pub open spec fn translation_fits(ul: Coord, pts: Seq<Coord>) -> bool {
    forall|i: int|
        0 <= i < pts.len() ==> i32::MIN <= ul.x + (#[trigger] pts[i]).x && i32::MIN <= ul.y
            + pts[i].y
}

/// The move gestures visiting every point of `pts` translated by `ul`, in
/// input order.
pub open spec fn moves_gs(pts: Seq<Coord>, ul: Coord, wait: u64) -> Seq<Gesture> {
    Seq::new(pts.len(), |i: int| Gesture::MoveTo(translate_pt(ul, pts[i]), wait))
}

/// The gestures of one continuous stroke through `pts` translated by `ul`:
/// move to the first point, press, move through every point in input order,
/// optionally move back to the first point, release.
pub open spec fn stroke_gs(pts: Seq<Coord>, ul: Coord, wait: u64, close: bool) -> Seq<Gesture> {
    seq![Gesture::MoveTo(translate_pt(ul, pts[0]), wait), Gesture::Press(0)] + moves_gs(
        pts,
        ul,
        wait,
    ) + (if close {
        seq![Gesture::MoveTo(translate_pt(ul, pts[0]), wait)]
    } else {
        Seq::empty()
    }) + seq![Gesture::Release(wait)]
}

impl Easel {
    /// Selects the color, validates every translated point, and emits the
    /// stroke.  With no points it fails with `NoCoordinates` before touching
    /// anything; with a point out of bounds it fails with `OutOfBounds`
    /// after the color click but before any stroke gesture.
    pub(crate) fn draw_stroke(&mut self, points: &Vec<Coord>, color: &PaletteColor, close: bool) -> (r:
        Result<(), EaselError>)
        requires
            old(self).wf(),
            translation_fits(old(self).spec_bounds().0, points@),
        ensures
            final(self).wf(),
            old(self).same_config(*final(self)),
            final(self).orientation == old(self).orientation,
            final(self).brush_size == old(self).brush_size,
            final(self).current_tool == old(self).current_tool,
            points@.len() == 0 ==> r == Err::<(), EaselError>(EaselError::NoCoordinates)
                && *final(self) == *old(self),
            points@.len() > 0 ==> final(self).current_color == *color,
            points@.len() > 0 && all_in_bounds(
                old(self).spec_bounds().0,
                old(self).spec_bounds().1,
                points@,
            ) ==> r == Ok::<(), EaselError>(()) && final(self).gestures@ == old(self).gestures@
                + change_color_gs(
                old(self).easel_coords,
                old(self).current_color,
                *color,
                old(self).mouse_wait,
            ) + stroke_gs(points@, old(self).spec_bounds().0, old(self).mouse_wait, close),
            points@.len() > 0 && !all_in_bounds(
                old(self).spec_bounds().0,
                old(self).spec_bounds().1,
                points@,
            ) ==> r == Err::<(), EaselError>(EaselError::OutOfBounds) && final(self).gestures@
                == old(self).gestures@ + change_color_gs(
                old(self).easel_coords,
                old(self).current_color,
                *color,
                old(self).mouse_wait,
            ),
    {
        let (start, end) = self.get_bounds();
        if points.len() == 0 {
            return Err(EaselError::NoCoordinates);
        }
        self.change_color(color);
        let ghost with_click: Seq<Gesture> = self.gestures@;
        let mut i: usize = 0;
        while i < points.len()
            invariant
                i <= points@.len(),
                points@.len() > 0,
                forall|j: int| 0 <= j < i ==> pt_in_bounds(start, end, #[trigger] points@[j]),
                start == old(self).spec_bounds().0,
                end == old(self).spec_bounds().1,
                self.wf(),
                old(self).same_config(*self),
                self.orientation == old(self).orientation,
                self.brush_size == old(self).brush_size,
                self.current_tool == old(self).current_tool,
                self.current_color == *color,
                self.gestures@ == with_click,
                with_click == old(self).gestures@ + change_color_gs(
                    old(self).easel_coords,
                    old(self).current_color,
                    *color,
                    old(self).mouse_wait,
                ),
            decreases points@.len() - i,
        {
            let p = points[i];
            if (start.x as i64) + (p.x as i64) > (end.x as i64) || (start.y as i64) + (p.y as i64)
                > (end.y as i64) {
                assert(!pt_in_bounds(start, end, points@[i as int]));
                return Err(EaselError::OutOfBounds);
            }
            i = i + 1;
        }
        assert(all_in_bounds(start, end, points@));
        let wait = self.mouse_wait;
        let first = points[0];
        let start_point = Coord::new(start.x + first.x, start.y + first.y);
        self.gestures.push(Gesture::MoveTo(start_point, wait));
        self.gestures.push(Gesture::Press(0));
        let ghost opened: Seq<Gesture> = self.gestures@;
        let mut i: usize = 0;
        while i < points.len()
            invariant
                i <= points@.len(),
                self.gestures@ == opened + moves_gs(points@.take(i as int), start, wait),
                all_in_bounds(start, end, points@),
                translation_fits(start, points@),
                self.mouse_wait == wait,
                self.easel_coords == old(self).easel_coords,
                self.orientation == old(self).orientation,
                self.brush_size == old(self).brush_size,
                self.current_color == *color,
                self.current_tool == old(self).current_tool,
            decreases points@.len() - i,
        {
            let p = points[i];
            let point = Coord::new(start.x + p.x, start.y + p.y);
            self.gestures.push(Gesture::MoveTo(point, wait));
            assert(self.gestures@ =~= opened + moves_gs(points@.take(i + 1 as int), start, wait));
            i = i + 1;
        }
        assert(points@.take(points@.len() as int) =~= points@);
        if close {
            self.gestures.push(Gesture::MoveTo(start_point, wait));
        }
        self.gestures.push(Gesture::Release(wait));
        assert(self.gestures@ =~= with_click + stroke_gs(points@, start, wait, close));
        Ok(())
    }
}


impl Easel {
    /// Draws an arbitrary shape as one continuous stroke, optionally closing
    /// the path back to its first point, optionally filling the closed
    /// shape.  Filling implies closing.  Fails with `NoCoordinates` on an
    /// empty point list and with `OutOfBounds` when a translated point
    /// exceeds the canvas, in both cases before any stroke gesture.
    pub fn draw_shape(
        &mut self,
        points: &Vec<Coord>,
        color: &PaletteColor,
        close_shape: bool,
        fill: bool,
    ) -> (r: Result<(), EaselError>)
        requires
            old(self).wf(),
            translation_fits(old(self).spec_bounds().0, points@),
            fill ==> crate::fill::pts_in_range(points@),
        ensures
            final(self).wf(),
            old(self).same_config(*final(self)),
            final(self).orientation == old(self).orientation,
            final(self).current_tool == old(self).current_tool,
            final(self).brush_size == old(self).brush_size,
            points@.len() == 0 ==> r == Err::<(), EaselError>(EaselError::NoCoordinates)
                && *final(self) == *old(self),
            points@.len() > 0 ==> final(self).current_color == *color,
            points@.len() > 0 && !all_in_bounds(
                old(self).spec_bounds().0,
                old(self).spec_bounds().1,
                points@,
            ) ==> r == Err::<(), EaselError>(EaselError::OutOfBounds) && final(self).gestures@
                == old(self).gestures@ + change_color_gs(
                old(self).easel_coords,
                old(self).current_color,
                *color,
                old(self).mouse_wait,
            ),
            points@.len() > 0 && all_in_bounds(
                old(self).spec_bounds().0,
                old(self).spec_bounds().1,
                points@,
            ) && !fill ==> r == Ok::<(), EaselError>(()) && final(self).gestures@ == old(
                self,
            ).gestures@ + change_color_gs(
                old(self).easel_coords,
                old(self).current_color,
                *color,
                old(self).mouse_wait,
            ) + stroke_gs(points@, old(self).spec_bounds().0, old(self).mouse_wait, close_shape),
            points@.len() > 0 && all_in_bounds(
                old(self).spec_bounds().0,
                old(self).spec_bounds().1,
                points@,
            ) ==> r == Ok::<(), EaselError>(()),
            points@.len() > 0 && all_in_bounds(
                old(self).spec_bounds().0,
                old(self).spec_bounds().1,
                points@,
            ) && fill ==> ({
                let run = crate::fill::run_lines(
                    crate::fill::fill_strokes(points@),
                    *color,
                    *color,
                    old(self).easel_coords,
                    old(self).spec_bounds().0,
                    old(self).spec_bounds().1,
                    old(self).mouse_wait,
                );
                &&& r == (if run.2 {
                    Ok::<(), EaselError>(())
                } else {
                    Err::<(), EaselError>(EaselError::OutOfBounds)
                })
                &&& final(self).gestures@ == old(self).gestures@ + change_color_gs(
                    old(self).easel_coords,
                    old(self).current_color,
                    *color,
                    old(self).mouse_wait,
                ) + stroke_gs(points@, old(self).spec_bounds().0, old(self).mouse_wait, true)
                    + crate::easel::change_brush_gs(
                    old(self).easel_coords,
                    old(self).brush_size as int,
                    0,
                    old(self).mouse_wait,
                ) + run.0 + crate::easel::change_brush_gs(
                    old(self).easel_coords,
                    0,
                    old(self).brush_size as int,
                    old(self).mouse_wait,
                )
            }),
    {
        let r = self.draw_stroke(points, color, close_shape || fill);
        match r {
            Err(e) => Err(e),
            Ok(()) => {
                if fill {
                    let ghost e0: Easel = *old(self);
                    let ghost mid: Easel = *self;
                    let fr = self.fill(points, color);
                    proof {
                        let ec = e0.easel_coords;
                        let ul = e0.spec_bounds().0;
                        let lr = e0.spec_bounds().1;
                        let mw = e0.mouse_wait;
                        assert(mid.spec_bounds() == e0.spec_bounds());
                        crate::fill::lemma_fill_of_bounded_polygon_succeeds(
                            points@,
                            *color,
                            *color,
                            ec,
                            ul,
                            lr,
                            mw,
                        );
                        crate::fill::lemma_run_lines_color(
                            crate::fill::fill_strokes(points@),
                            *color,
                            *color,
                            ec,
                            ul,
                            lr,
                            mw,
                        );
                        let run = crate::fill::run_lines(
                            crate::fill::fill_strokes(points@),
                            *color,
                            *color,
                            ec,
                            ul,
                            lr,
                            mw,
                        );
                        assert(self.gestures@ =~= e0.gestures@ + change_color_gs(
                            ec,
                            e0.current_color,
                            *color,
                            mw,
                        ) + stroke_gs(points@, ul, mw, true) + crate::easel::change_brush_gs(
                            ec,
                            e0.brush_size as int,
                            0,
                            mw,
                        ) + run.0 + crate::easel::change_brush_gs(ec, 0, e0.brush_size as int, mw));
                    }
                    fr
                } else {
                    Ok(())
                }
            },
        }
    }

    /// Draws a single line: exactly `draw_shape` over the two endpoints with
    /// neither closing nor filling, emitting the identical gesture sequence.
    pub fn draw_line(&mut self, start_line: Coord, end_line: Coord, color: &PaletteColor) -> (r:
        Result<(), EaselError>)
        requires
            old(self).wf(),
            translation_fits(old(self).spec_bounds().0, seq![start_line, end_line]),
        ensures
            final(self).wf(),
            old(self).same_config(*final(self)),
            final(self).orientation == old(self).orientation,
            final(self).current_tool == old(self).current_tool,
            final(self).brush_size == old(self).brush_size,
            final(self).current_color == *color,
            all_in_bounds(
                old(self).spec_bounds().0,
                old(self).spec_bounds().1,
                seq![start_line, end_line],
            ) ==> r == Ok::<(), EaselError>(()) && final(self).gestures@ == old(self).gestures@
                + change_color_gs(
                old(self).easel_coords,
                old(self).current_color,
                *color,
                old(self).mouse_wait,
            ) + stroke_gs(
                seq![start_line, end_line],
                old(self).spec_bounds().0,
                old(self).mouse_wait,
                false,
            ),
            !all_in_bounds(
                old(self).spec_bounds().0,
                old(self).spec_bounds().1,
                seq![start_line, end_line],
            ) ==> r == Err::<(), EaselError>(EaselError::OutOfBounds) && final(self).gestures@
                == old(self).gestures@ + change_color_gs(
                old(self).easel_coords,
                old(self).current_color,
                *color,
                old(self).mouse_wait,
            ),
    {
        let mut points: Vec<Coord> = Vec::new();
        points.push(start_line);
        points.push(end_line);
        assert(points@ =~= seq![start_line, end_line]);
        self.draw_shape(&points, color, false, false)
    }
}

} // verus!
