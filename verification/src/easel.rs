//! The easel: the drawable surface together with the state the game keeps
//! between operations (orientation, selected color, selected tool, brush
//! width) and the pointer-gesture protocol that changes that state.
//!
//! Every operation appends the pointer gestures it wants performed to the
//! easel's gesture log; the log entry order is the exact order in which the
//! pointer device must perform them.  Each operation's contract pins the
//! appended gestures down to the element, so properties such as "re-selecting
//! the current color clicks nothing" are stated and proved here rather than
//! observed against a live game.

use vstd::prelude::*;

use crate::colors::PaletteColor;
use crate::coords::Coord;

verus! {

/// The number of brush steps available when resizing the brush.
pub const NUM_BRUSH_STEPS: i32 = 16;

/// Brush-size clicks need slower timing than every other gesture; repeat
/// clicks on the brush controls wait this many milliseconds.
pub const BRUSH_WAIT_MS: u64 = 32;

/// Every configured control coordinate, and every drawing-space coordinate a
/// fill may be asked to cover, stays within this magnitude, so that
/// coordinate arithmetic never leaves `i32`.
pub const COORD_LIMIT: i32 = 16777216;

/// One primitive pointer gesture, with the settle delay in milliseconds the
/// driver must observe after performing it.
#[derive(Clone, Copy, Debug, PartialEq, Eq, Structural)]
pub enum Gesture {
    MoveTo(Coord, u64),
    Press(u64),
    Release(u64),
}

/// The two layouts the canvas can be in.
#[derive(Clone, Copy, Debug, PartialEq, Eq, Structural)]
pub enum Orientation {
    Portrait,
    Landscape,
}

/// The drawing tools the game offers.
#[derive(Clone, Copy, Debug, PartialEq, Eq, Structural)]
pub enum Tool {
    Paintbrush,
    Pen,
    Spraycan,
}

/// The ways a drawing operation can fail.
#[derive(Clone, Copy, Debug, PartialEq, Eq, Structural)]
pub enum EaselError {
    OutOfBounds,
    NoCoordinates,
}

impl EaselError {
    /// A short human-readable description of the error.
    pub fn message(&self) -> (s: &'static str)
        ensures
            *self is OutOfBounds ==> s@ == "out of bounds"@,
            *self is NoCoordinates ==> s@ == "invalid coordinates"@,
    {
        match *self {
            EaselError::OutOfBounds => "out of bounds",
            EaselError::NoCoordinates => "invalid coordinates",
        }
    }
}

/// Where the easel's controls sit on screen, as calibrated once by the
/// operator: bounds rectangles per orientation, tool positions, the brush
/// increase / decrease controls, the orientation toggle, and the palette
/// grid origin with its row and column steps.
#[derive(Clone, Copy, Debug, PartialEq, Eq)]
pub struct EaselCoords {
    pub portrait_bounds: (Coord, Coord),
    pub landscape_bounds: (Coord, Coord),
    pub paintbrush: Coord,
    pub spray_can: Coord,
    pub pen: Coord,
    pub decrease_brush: Coord,
    pub increase_brush: Coord,
    pub change_orientation: Coord,
    pub color_start: Coord,
    pub color_row_step: i32,
    pub color_col_step: i32,
}

/// Both components within the coordinate magnitude limit.
pub open spec fn coord_in_range(c: Coord) -> bool {
    -COORD_LIMIT <= c.x <= COORD_LIMIT && -COORD_LIMIT <= c.y <= COORD_LIMIT
}

impl EaselCoords {
    /// A usable calibration: every control coordinate within the coordinate
    /// limit, and each bounds rectangle with its upper-left corner at or
    /// above-left of its lower-right corner.
    pub open spec fn wf(self) -> bool {
        &&& coord_in_range(self.portrait_bounds.0)
        &&& coord_in_range(self.portrait_bounds.1)
        &&& coord_in_range(self.landscape_bounds.0)
        &&& coord_in_range(self.landscape_bounds.1)
        &&& self.portrait_bounds.0.x <= self.portrait_bounds.1.x
        &&& self.portrait_bounds.0.y <= self.portrait_bounds.1.y
        &&& self.landscape_bounds.0.x <= self.landscape_bounds.1.x
        &&& self.landscape_bounds.0.y <= self.landscape_bounds.1.y
        &&& coord_in_range(self.paintbrush)
        &&& coord_in_range(self.spray_can)
        &&& coord_in_range(self.pen)
        &&& coord_in_range(self.decrease_brush)
        &&& coord_in_range(self.increase_brush)
        &&& coord_in_range(self.change_orientation)
        &&& coord_in_range(self.color_start)
        &&& -COORD_LIMIT <= self.color_row_step <= COORD_LIMIT
        &&& -COORD_LIMIT <= self.color_col_step <= COORD_LIMIT
    }

    /// Run-time check for `wf`, for validating a freshly loaded calibration
    /// before any drawing begins.
    pub fn is_well_formed(&self) -> (b: bool)
        ensures
            b == self.wf(),
    {
        let in_range = |c: Coord| -> (r: bool)
            ensures
                r == coord_in_range(c),
            { -COORD_LIMIT <= c.x && c.x <= COORD_LIMIT && -COORD_LIMIT <= c.y && c.y
                <= COORD_LIMIT };
        in_range(self.portrait_bounds.0) && in_range(self.portrait_bounds.1) && in_range(
            self.landscape_bounds.0,
        ) && in_range(self.landscape_bounds.1) && self.portrait_bounds.0.x
            <= self.portrait_bounds.1.x && self.portrait_bounds.0.y <= self.portrait_bounds.1.y
            && self.landscape_bounds.0.x <= self.landscape_bounds.1.x
            && self.landscape_bounds.0.y <= self.landscape_bounds.1.y && in_range(self.paintbrush)
            && in_range(self.spray_can) && in_range(self.pen) && in_range(self.decrease_brush)
            && in_range(self.increase_brush) && in_range(self.change_orientation) && in_range(
            self.color_start,
        ) && -COORD_LIMIT <= self.color_row_step && self.color_row_step <= COORD_LIMIT
            && -COORD_LIMIT <= self.color_col_step && self.color_col_step <= COORD_LIMIT
    }
}

/// The gestures of one click at the current pointer position.
pub open spec fn click_gs(wait: u64) -> Seq<Gesture> {
    seq![Gesture::Press(wait), Gesture::Release(wait)]
}

/// The gestures of a move to `c` followed by one click.
pub open spec fn move_click_gs(c: Coord, wait: u64) -> Seq<Gesture> {
    seq![Gesture::MoveTo(c, 0)] + click_gs(wait)
}

/// `n` clicks in place at the slower brush timing.
pub open spec fn repeat_clicks_gs(n: int) -> Seq<Gesture>
    decreases n,
{
    if n <= 0 {
        Seq::empty()
    } else {
        repeat_clicks_gs(n - 1) + click_gs(BRUSH_WAIT_MS)
    }
}

/// How many press gestures a gesture sequence holds; one click gesture is
/// one press (followed by its release).
pub open spec fn count_presses(gs: Seq<Gesture>) -> int
    decreases gs.len(),
{
    if gs.len() == 0 {
        0
    } else {
        count_presses(gs.drop_last()) + if gs.last() is Press {
            1int
        } else {
            0int
        }
    }
}

/// `n` confined to the brush-step range `[0, NUM_BRUSH_STEPS]`.
pub open spec fn clamp_brush(n: int) -> int {
    if n < 0 {
        0
    } else if n > NUM_BRUSH_STEPS {
        NUM_BRUSH_STEPS as int
    } else {
        n
    }
}

/// Absolute value.
pub open spec fn abs_i(n: int) -> int {
    if n < 0 {
        -n
    } else {
        n
    }
}

/// The opposite orientation.
pub open spec fn toggled(o: Orientation) -> Orientation {
    match o {
        Orientation::Portrait => Orientation::Landscape,
        Orientation::Landscape => Orientation::Portrait,
    }
}

/// Where the given tool's control sits.
pub open spec fn tool_coord(ec: EaselCoords, tool: Tool) -> Coord {
    match tool {
        Tool::Paintbrush => ec.paintbrush,
        Tool::Pen => ec.pen,
        Tool::Spraycan => ec.spray_can,
    }
}

/// Where the given color's swatch sits: the palette grid origin plus the
/// color's (row, column) scaled by the grid steps.
pub open spec fn color_coord(ec: EaselCoords, color: PaletteColor) -> Coord {
    let rc = color.spec_row_col();
    Coord {
        x: (ec.color_start.x + rc.0 * ec.color_row_step) as i32,
        y: (ec.color_start.y + rc.1 * ec.color_col_step) as i32,
    }
}

/// The gestures a color change emits: nothing when the color is already
/// selected, otherwise one click on the color's swatch.
pub open spec fn change_color_gs(
    ec: EaselCoords,
    cur: PaletteColor,
    color: PaletteColor,
    wait: u64,
) -> Seq<Gesture> {
    if color == cur {
        Seq::empty()
    } else {
        move_click_gs(color_coord(ec, color), wait)
    }
}

/// The gestures a brush resize emits: nothing when the clamped target equals
/// the current width, otherwise one click on the increase or decrease
/// control followed by the remaining clicks at the slower brush timing.
pub open spec fn change_brush_gs(ec: EaselCoords, cur: int, n: int, wait: u64) -> Seq<Gesture> {
    let target = clamp_brush(n);
    let delta = abs_i(target - cur);
    if delta == 0 {
        Seq::empty()
    } else {
        let control = if target > cur {
            ec.increase_brush
        } else {
            ec.decrease_brush
        };
        move_click_gs(control, wait) + repeat_clicks_gs(delta - 1)
    }
}

/// The current state of the easel, together with the log of pointer gestures
/// emitted so far.
pub struct Easel {
    /// The pointer gestures emitted so far, oldest first.
    pub gestures: Vec<Gesture>,
    /// The settle delay between ordinary pointer operations, in milliseconds.
    pub mouse_wait: u64,
    /// Where the easel's controls sit on screen.
    pub easel_coords: EaselCoords,
    /// The current canvas orientation.
    pub orientation: Orientation,
    /// The current brush size, always within `[0, NUM_BRUSH_STEPS]`.
    pub brush_size: i32,
    /// The color the game currently has selected.
    pub current_color: PaletteColor,
    /// The tool the game currently has selected.
    pub current_tool: Tool,
}

impl Easel {
    /// A usable easel: a well-formed calibration and a brush size the game
    /// can represent.
    pub open spec fn wf(self) -> bool {
        &&& self.easel_coords.wf()
        &&& 0 <= self.brush_size <= NUM_BRUSH_STEPS
    }

    /// The configuration and state fields `other` shares with `self`;
    /// operations use this to say which fields they leave alone.
    pub open spec fn same_config(self, other: Easel) -> bool {
        &&& self.mouse_wait == other.mouse_wait
        &&& self.easel_coords == other.easel_coords
    }

    /// The bounds of the canvas under the current orientation.
    pub open spec fn spec_bounds(self) -> (Coord, Coord) {
        match self.orientation {
            Orientation::Portrait => self.easel_coords.portrait_bounds,
            Orientation::Landscape => self.easel_coords.landscape_bounds,
        }
    }

    /// A fresh easel over the given calibration.  The game starts with a
    /// black brush of unknown width on the paintbrush tool in portrait
    /// orientation; the constructor clicks the brush first up to its widest
    /// step and back down to zero so the internal width is right whatever
    /// the game had, then selects the paintbrush.  Selecting black emits
    /// nothing since black is already current.
    pub fn new(easel_coords: EaselCoords, mouse_wait: u64) -> (e: Easel)
        requires
            easel_coords.wf(),
        ensures
            e.wf(),
            e.easel_coords == easel_coords,
            e.mouse_wait == mouse_wait,
            e.orientation is Portrait,
            e.brush_size == 0,
            e.current_color is Black,
            e.current_tool is Paintbrush,
            e.gestures@ == change_brush_gs(easel_coords, 0, NUM_BRUSH_STEPS as int, mouse_wait)
                + change_brush_gs(easel_coords, NUM_BRUSH_STEPS as int, 0, mouse_wait)
                + move_click_gs(tool_coord(easel_coords, Tool::Paintbrush), mouse_wait),
    {
        let mut easel = Easel {
            gestures: Vec::new(),
            mouse_wait,
            easel_coords,
            orientation: Orientation::Portrait,
            brush_size: 0,
            current_color: PaletteColor::Black,
            current_tool: Tool::Paintbrush,
        };
        easel.change_brush_size(NUM_BRUSH_STEPS);
        easel.change_brush_size(0);
        easel.change_tool(Tool::Paintbrush);
        easel.change_color(&PaletteColor::Black);
        assert(easel.gestures@ =~= change_brush_gs(easel_coords, 0, NUM_BRUSH_STEPS as int,
        mouse_wait) + change_brush_gs(easel_coords, NUM_BRUSH_STEPS as int, 0, mouse_wait)
            + move_click_gs(tool_coord(easel_coords, Tool::Paintbrush), mouse_wait));
        easel
    }

    /// One click in place with the given settle delay.
    fn click_custom_wait(&mut self, wait: u64)
        ensures
            old(self).same_config(*final(self)),
            final(self).orientation == old(self).orientation,
            final(self).brush_size == old(self).brush_size,
            final(self).current_color == old(self).current_color,
            final(self).current_tool == old(self).current_tool,
            final(self).gestures@ == old(self).gestures@ + click_gs(wait),
    {
        self.gestures.push(Gesture::Press(wait));
        self.gestures.push(Gesture::Release(wait));
        assert(self.gestures@ =~= old(self).gestures@ + click_gs(wait));
    }

    /// One click in place with the ordinary settle delay.
    fn click(&mut self)
        ensures
            old(self).same_config(*final(self)),
            final(self).orientation == old(self).orientation,
            final(self).brush_size == old(self).brush_size,
            final(self).current_color == old(self).current_color,
            final(self).current_tool == old(self).current_tool,
            final(self).gestures@ == old(self).gestures@ + click_gs(old(self).mouse_wait),
    {
        let wait = self.mouse_wait;
        self.click_custom_wait(wait);
    }

    /// Move to a control and click it.
    fn move_and_click(&mut self, coord: &Coord)
        ensures
            old(self).same_config(*final(self)),
            final(self).orientation == old(self).orientation,
            final(self).brush_size == old(self).brush_size,
            final(self).current_color == old(self).current_color,
            final(self).current_tool == old(self).current_tool,
            final(self).gestures@ == old(self).gestures@ + move_click_gs(
                *coord,
                old(self).mouse_wait,
            ),
    {
        self.gestures.push(Gesture::MoveTo(*coord, 0));
        self.click();
        assert(self.gestures@ =~= old(self).gestures@ + move_click_gs(
            *coord,
            old(self).mouse_wait,
        ));
    }

    /// Toggles the orientation of the easel.  The physical toggle is binary,
    /// so the click is always performed.
    pub fn change_orientation(&mut self)
        ensures
            old(self).same_config(*final(self)),
            final(self).orientation == toggled(old(self).orientation),
            final(self).brush_size == old(self).brush_size,
            final(self).current_color == old(self).current_color,
            final(self).current_tool == old(self).current_tool,
            final(self).gestures@ == old(self).gestures@ + move_click_gs(
                old(self).easel_coords.change_orientation,
                old(self).mouse_wait,
            ),
    {
        let orient_coords = self.easel_coords.change_orientation;
        self.move_and_click(&orient_coords);
        self.orientation = match self.orientation {
            Orientation::Portrait => Orientation::Landscape,
            Orientation::Landscape => Orientation::Portrait,
        };
    }

    /// Selects the given tool by clicking its control; the click is
    /// performed even when the tool is already selected.
    pub fn change_tool(&mut self, tool: Tool)
        ensures
            old(self).same_config(*final(self)),
            final(self).orientation == old(self).orientation,
            final(self).brush_size == old(self).brush_size,
            final(self).current_color == old(self).current_color,
            final(self).current_tool == tool,
            final(self).gestures@ == old(self).gestures@ + move_click_gs(
                tool_coord(old(self).easel_coords, tool),
                old(self).mouse_wait,
            ),
    {
        let coords = match tool {
            Tool::Paintbrush => self.easel_coords.paintbrush,
            Tool::Pen => self.easel_coords.pen,
            Tool::Spraycan => self.easel_coords.spray_can,
        };
        self.move_and_click(&coords);
        self.current_tool = tool;
    }

    /// Returns the current bounds of the easel in screen coordinates.
    pub fn get_bounds(&self) -> (b: (Coord, Coord))
        ensures
            b == self.spec_bounds(),
    {
        match self.orientation {
            Orientation::Portrait => self.easel_coords.portrait_bounds,
            Orientation::Landscape => self.easel_coords.landscape_bounds,
        }
    }

    /// Changes from the current color to the desired color.  Does nothing
    /// when the desired color is already selected: re-clicking a selected
    /// swatch can be taken differently by the game, and skipping the click
    /// is what makes repeated selections cheap.
    pub fn change_color(&mut self, color: &PaletteColor)
        requires
            old(self).wf(),
        ensures
            final(self).wf(),
            old(self).same_config(*final(self)),
            final(self).orientation == old(self).orientation,
            final(self).brush_size == old(self).brush_size,
            final(self).current_color == *color,
            final(self).current_tool == old(self).current_tool,
            final(self).gestures@ == old(self).gestures@ + change_color_gs(
                old(self).easel_coords,
                old(self).current_color,
                *color,
                old(self).mouse_wait,
            ),
    {
        if *color != self.current_color {
            let color_pos = color.get_row_col();
            let row_step = self.easel_coords.color_row_step;
            let col_step = self.easel_coords.color_col_step;
            assert(-8 * (COORD_LIMIT as int) <= color_pos.0 * row_step <= 8 * (COORD_LIMIT as int))
                by (nonlinear_arith)
                requires
                    0 <= color_pos.0 <= 7,
                    -COORD_LIMIT <= row_step <= COORD_LIMIT,
            ;
            assert(-8 * (COORD_LIMIT as int) <= color_pos.1 * col_step <= 8 * (COORD_LIMIT as int))
                by (nonlinear_arith)
                requires
                    0 <= color_pos.1 <= 7,
                    -COORD_LIMIT <= col_step <= COORD_LIMIT,
            ;
            let color_coords = Coord::new(
                self.easel_coords.color_start.x + (color_pos.0 * row_step),
                self.easel_coords.color_start.y + (color_pos.1 * col_step),
            );
            self.move_and_click(&color_coords);
            self.current_color = *color;
        } else {
            assert(self.gestures@ =~= old(self).gestures@ + change_color_gs(
                old(self).easel_coords,
                old(self).current_color,
                *color,
                old(self).mouse_wait,
            ));
        }
    }

    /// Changes the brush size in fixed steps by clicking the increase or
    /// decrease control.  The requested size is clamped to
    /// `[0, NUM_BRUSH_STEPS]`; one click per step of difference is emitted,
    /// the first at the ordinary delay and the rest at the slower brush
    /// timing, and none at all when the clamped size is already current.
    pub fn change_brush_size(&mut self, brush_size: i32)
        requires
            old(self).wf(),
        ensures
            final(self).wf(),
            old(self).same_config(*final(self)),
            final(self).orientation == old(self).orientation,
            final(self).brush_size == clamp_brush(brush_size as int),
            final(self).current_color == old(self).current_color,
            final(self).current_tool == old(self).current_tool,
            final(self).gestures@ == old(self).gestures@ + change_brush_gs(
                old(self).easel_coords,
                old(self).brush_size as int,
                brush_size as int,
                old(self).mouse_wait,
            ),
    {
        let target: i32 = if brush_size < 0 {
            0
        } else if brush_size > NUM_BRUSH_STEPS {
            NUM_BRUSH_STEPS
        } else {
            brush_size
        };
        if target == self.brush_size {
            self.brush_size = target;
            assert(self.gestures@ =~= old(self).gestures@ + change_brush_gs(
                old(self).easel_coords,
                old(self).brush_size as int,
                brush_size as int,
                old(self).mouse_wait,
            ));
            return ;
        }
        let brush_coords = if target > self.brush_size {
            self.easel_coords.increase_brush
        } else {
            self.easel_coords.decrease_brush
        };
        let num_clicks: i32 = if target > self.brush_size {
            target - self.brush_size
        } else {
            self.brush_size - target
        };
        self.move_and_click(&brush_coords);
        let ghost base: Seq<Gesture> = self.gestures@;
        let mut i: i32 = 1;
        while i < num_clicks
            invariant
                1 <= i <= num_clicks || (num_clicks < 1 && i == 1),
                self.gestures@ == base + repeat_clicks_gs(i - 1),
                old(self).same_config(*self),
                self.orientation == old(self).orientation,
                self.brush_size == old(self).brush_size,
                self.current_color == old(self).current_color,
                self.current_tool == old(self).current_tool,
            decreases num_clicks - i,
        {
            self.click_custom_wait(BRUSH_WAIT_MS);
            assert(self.gestures@ =~= base + repeat_clicks_gs(i as int));
            i = i + 1;
        }
        self.brush_size = target;
        assert(self.gestures@ =~= old(self).gestures@ + change_brush_gs(
            old(self).easel_coords,
            old(self).brush_size as int,
            brush_size as int,
            old(self).mouse_wait,
        ));
    }
}

/// One click is exactly one press.
pub proof fn lemma_count_click(wait: u64)
    ensures
        count_presses(click_gs(wait)) == 1,
{
    reveal_with_fuel(count_presses, 4);
    let s = click_gs(wait);
    assert(s.drop_last() =~= seq![Gesture::Press(wait)]);
    assert(seq![Gesture::Press(wait)].drop_last() =~= Seq::<Gesture>::empty());
    assert(count_presses(seq![Gesture::Press(wait)]) == 1);
}

/// Press gestures distribute over concatenation.
pub proof fn lemma_count_presses_concat(a: Seq<Gesture>, b: Seq<Gesture>)
    ensures
        count_presses(a + b) == count_presses(a) + count_presses(b),
    decreases b.len(),
{
    if b.len() == 0 {
        assert(a + b =~= a);
    } else {
        assert((a + b).drop_last() =~= a + b.drop_last());
        lemma_count_presses_concat(a, b.drop_last());
    }
}

/// `n` repeat clicks press exactly `n` times.
pub proof fn lemma_count_repeat_clicks(n: int)
    ensures
        count_presses(repeat_clicks_gs(n)) == if n <= 0 {
            0int
        } else {
            n
        },
    decreases n,
{
    if n <= 0 {
    } else {
        lemma_count_repeat_clicks(n - 1);
        lemma_count_click(BRUSH_WAIT_MS);
        lemma_count_presses_concat(repeat_clicks_gs(n - 1), click_gs(BRUSH_WAIT_MS));
    }
}

/// Selecting the same color twice in a row issues exactly one click: the
/// second selection emits no gestures at all, so the presses of both calls
/// together are the presses of the first alone -- one when the color
/// actually changed, none when it was already current.
pub proof fn lemma_second_color_selection_free(
    ec: EaselCoords,
    cur: PaletteColor,
    color: PaletteColor,
    wait: u64,
)
    ensures
        change_color_gs(ec, color, color, wait) == Seq::<Gesture>::empty(),
        cur != color ==> count_presses(
            change_color_gs(ec, cur, color, wait) + change_color_gs(ec, color, color, wait),
        ) == 1,
        cur == color ==> count_presses(
            change_color_gs(ec, cur, color, wait) + change_color_gs(ec, color, color, wait),
        ) == 0,
{
    reveal_with_fuel(count_presses, 4);
    lemma_count_presses_concat(change_color_gs(ec, cur, color, wait), change_color_gs(ec, color,
    color, wait));
    if cur != color {
        lemma_count_presses_concat(seq![Gesture::MoveTo(color_coord(ec, color), 0)], click_gs(
        wait));
        lemma_count_click(wait);
        assert(count_presses(seq![Gesture::MoveTo(color_coord(ec, color), 0)]) == 0) by {
            assert(seq![Gesture::MoveTo(color_coord(ec, color), 0)].drop_last()
                =~= Seq::<Gesture>::empty());
        }
    } else {
        assert(count_presses(Seq::<Gesture>::empty() + Seq::<Gesture>::empty()) == 0);
    }
}

/// A brush resize clamps an out-of-range request to the nearest bound, and
/// clicks the brush controls exactly once per step between the old width and
/// the clamped request -- zero clicks when the width is unchanged.
pub proof fn lemma_brush_resize_clicks(ec: EaselCoords, cur: int, n: int, wait: u64)
    ensures
        0 <= clamp_brush(n) <= NUM_BRUSH_STEPS,
        n < 0 ==> clamp_brush(n) == 0,
        n > NUM_BRUSH_STEPS ==> clamp_brush(n) == NUM_BRUSH_STEPS,
        count_presses(change_brush_gs(ec, cur, n, wait)) == abs_i(clamp_brush(n) - cur),
{
    reveal_with_fuel(count_presses, 4);
    let target = clamp_brush(n);
    let delta = abs_i(target - cur);
    if delta == 0 {
    } else {
        let control = if target > cur {
            ec.increase_brush
        } else {
            ec.decrease_brush
        };
        lemma_count_presses_concat(move_click_gs(control, wait), repeat_clicks_gs(delta - 1));
        lemma_count_presses_concat(seq![Gesture::MoveTo(control, 0)], click_gs(wait));
        lemma_count_click(wait);
        assert(count_presses(seq![Gesture::MoveTo(control, 0)]) == 0) by {
            assert(seq![Gesture::MoveTo(control, 0)].drop_last() =~= Seq::<Gesture>::empty());
        }
        lemma_count_repeat_clicks(delta - 1);
    }
}

} // verus!
