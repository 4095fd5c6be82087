//! Scanline polygon fill.  The polygon's edges are every consecutive point
//! pair plus the closing edge from the first point to the last.  The fill
//! scans from the smallest point y to the largest in fixed steps, collects
//! the edges whose vertical span strictly straddles the scanline, computes
//! each one's x-intersection, and pairs the intersections in edge-traversal
//! order, drawing a horizontal stroke across each inside pair.
//!
//! Intersections are deliberately not sorted by x before pairing: the
//! traversal-order pairing is inherited behavior, valid for edge orderings
//! that already alternate correctly per scanline (convex polygons and
//! carefully ordered star shapes).  The brush is forced to its smallest
//! width for the duration of the fill and restored afterward, whether the
//! fill succeeds or fails.

use vstd::arithmetic::div_mod::lemma_div_is_ordered;
use vstd::arithmetic::div_mod::lemma_div_multiples_vanish;
use vstd::arithmetic::div_mod::lemma_div_pos_is_pos;
use vstd::prelude::*;

use crate::colors::PaletteColor;
use crate::coords::Coord;
use crate::easel::abs_i;
use crate::easel::change_brush_gs;
use crate::easel::change_color_gs;
use crate::easel::coord_in_range;
use crate::easel::Easel;
use crate::easel::EaselCoords;
use crate::easel::EaselError;
use crate::easel::Gesture;
use crate::easel::COORD_LIMIT;
use crate::shapes::pt_in_bounds;
use crate::shapes::stroke_gs;

verus! {

/// How far apart consecutive scanlines sit, in drawing-space units: half the
/// footprint of the smallest brush, which the fill forces for its duration.
pub const FILL_STEP: i32 = 6;

/// Every point within the coordinate magnitude limit.
pub open spec fn pts_in_range(pts: Seq<Coord>) -> bool {
    forall|i: int| 0 <= i < pts.len() ==> coord_in_range(#[trigger] pts[i])
}

/// The smaller of two integers.
pub open spec fn min_i(a: int, b: int) -> int {
    if a < b {
        a
    } else {
        b
    }
}

/// The larger of two integers.
pub open spec fn max_i(a: int, b: int) -> int {
    if a < b {
        b
    } else {
        a
    }
}

/// The smallest y among the points.
pub open spec fn min_y(pts: Seq<Coord>) -> int
    decreases pts.len(),
{
    if pts.len() <= 1 {
        pts[0].y as int
    } else {
        min_i(min_y(pts.drop_last()), pts.last().y as int)
    }
}

/// The largest y among the points.
pub open spec fn max_y(pts: Seq<Coord>) -> int
    decreases pts.len(),
{
    if pts.len() <= 1 {
        pts[0].y as int
    } else {
        max_i(max_y(pts.drop_last()), pts.last().y as int)
    }
}

/// The polygon's edge list: each consecutive point pair, then the closing
/// edge from the first point to the last.
pub open spec fn edges_of(pts: Seq<Coord>) -> Seq<(Coord, Coord)> {
    Seq::new((pts.len() - 1) as nat, |i: int| (pts[i], pts[i + 1])).push(
        (pts[0], pts[pts.len() - 1]),
    )
}

/// Whether an edge's vertical span strictly straddles the scanline `y`.
/// Degenerate horizontal edges straddle nothing.
pub open spec fn edge_active(e: (Coord, Coord), y: int) -> bool {
    min_i(e.0.y as int, e.1.y as int) < y && y < max_i(e.0.y as int, e.1.y as int)
}

/// Division truncated toward zero, as machine division does it.
pub open spec fn trunc_div(a: int, b: int) -> int {
    if (a < 0) == (b < 0) {
        abs_i(a) / abs_i(b)
    } else {
        -(abs_i(a) / abs_i(b))
    }
}

/// The x-intersection of an edge with the scanline `y`: the first
/// endpoint's x directly if the edge is vertical, else the first endpoint's
/// x plus the run between the endpoints scaled by how far down the edge the
/// scanline sits.
pub open spec fn edge_x_at(e: (Coord, Coord), y: int) -> int {
    if e.1.x == e.0.x {
        e.0.x as int
    } else {
        e.0.x + trunc_div((e.1.x - e.0.x) * (y - e.0.y), e.1.y - e.0.y)
    }
}

/// The x-intersections of the edges active at scanline `y`, in
/// edge-traversal order.
pub open spec fn active_xs(edges: Seq<(Coord, Coord)>, y: int) -> Seq<int>
    decreases edges.len(),
{
    if edges.len() == 0 {
        Seq::empty()
    } else {
        active_xs(edges.drop_last(), y) + if edge_active(edges.last(), y) {
            seq![edge_x_at(edges.last(), y)]
        } else {
            Seq::empty()
        }
    }
}

/// The horizontal strokes of one scanline: the intersections paired in
/// order, alternating inside and outside, one stroke per inside pair whose
/// two x-values differ.
pub open spec fn pair_strokes(xs: Seq<int>, y: int) -> Seq<(Coord, Coord)>
    decreases xs.len(),
{
    if xs.len() < 2 {
        Seq::empty()
    } else {
        let rest = pair_strokes(xs.skip(2), y);
        if xs[0] != xs[1] {
            seq![
                (
                    Coord { x: xs[0] as i32, y: y as i32 },
                    Coord { x: xs[1] as i32, y: y as i32 },
                ),
            ] + rest
        } else {
            rest
        }
    }
}

/// The strokes of every scanline from `y` up to (excluding) `end`, stepping
/// by `FILL_STEP`.
pub open spec fn scan_strokes(pts: Seq<Coord>, y: int, end: int) -> Seq<(Coord, Coord)>
    decreases max_i(end - y, 0),
{
    if y >= end {
        Seq::empty()
    } else {
        pair_strokes(active_xs(edges_of(pts), y), y) + scan_strokes(pts, y + FILL_STEP, end)
    }
}

/// Every horizontal stroke the fill of `pts` draws, in drawing order.
pub open spec fn fill_strokes(pts: Seq<Coord>) -> Seq<(Coord, Coord)> {
    scan_strokes(pts, min_y(pts), max_y(pts))
}

/// The outcome of drawing a stroke list, each stroke a line in the fill
/// color, stopping at the first stroke with an endpoint out of bounds: the
/// gestures emitted, the color selected afterwards, and whether every
/// stroke was in bounds.  A failing stroke still emits its color click
/// (color selection precedes bounds validation) but no stroke gestures.
pub open spec fn run_lines(
    strokes: Seq<(Coord, Coord)>,
    cur: PaletteColor,
    color: PaletteColor,
    ec: EaselCoords,
    ul: Coord,
    lr: Coord,
    wait: u64,
) -> (Seq<Gesture>, PaletteColor, bool)
    decreases strokes.len(),
{
    if strokes.len() == 0 {
        (Seq::empty(), cur, true)
    } else {
        let s = strokes[0];
        let cg = change_color_gs(ec, cur, color, wait);
        if !(pt_in_bounds(ul, lr, s.0) && pt_in_bounds(ul, lr, s.1)) {
            (cg, color, false)
        } else {
            let rest = run_lines(strokes.drop_first(), color, color, ec, ul, lr, wait);
            (cg + stroke_gs(seq![s.0, s.1], ul, wait, false) + rest.0, rest.1, rest.2)
        }
    }
}

/// After drawing at least the color selection, the selected color is the
/// fill color; with no strokes it stays as it was.
pub proof fn lemma_run_lines_color(
    strokes: Seq<(Coord, Coord)>,
    cur: PaletteColor,
    color: PaletteColor,
    ec: EaselCoords,
    ul: Coord,
    lr: Coord,
    wait: u64,
)
    requires
        cur == color,
    ensures
        run_lines(strokes, cur, color, ec, ul, lr, wait).1 == color,
    decreases strokes.len(),
{
    if strokes.len() > 0 {
        let s = strokes[0];
        if pt_in_bounds(ul, lr, s.0) && pt_in_bounds(ul, lr, s.1) {
            lemma_run_lines_color(strokes.drop_first(), color, color, ec, ul, lr, wait);
        }
    }
}


/// Drawing a single stroke: the color click and the stroke when it is in
/// bounds, the color click alone and failure when it is not.
pub proof fn lemma_run_single(
    s: (Coord, Coord),
    cur: PaletteColor,
    color: PaletteColor,
    ec: EaselCoords,
    ul: Coord,
    lr: Coord,
    wait: u64,
)
    ensures
        ({
            let run = run_lines(seq![s], cur, color, ec, ul, lr, wait);
            if pt_in_bounds(ul, lr, s.0) && pt_in_bounds(ul, lr, s.1) {
                run == (
                    change_color_gs(ec, cur, color, wait) + stroke_gs(
                        seq![s.0, s.1],
                        ul,
                        wait,
                        false,
                    ),
                    color,
                    true,
                )
            } else {
                run == (change_color_gs(ec, cur, color, wait), color, false)
            }
        }),
{
    let strokes = seq![s];
    assert(strokes.len() == 1);
    assert(strokes[0] == s);
    assert(strokes.drop_first() =~= Seq::<(Coord, Coord)>::empty());
    let cg = change_color_gs(ec, cur, color, wait);
    let sg = stroke_gs(seq![s.0, s.1], ul, wait, false);
    let rest = run_lines(Seq::<(Coord, Coord)>::empty(), color, color, ec, ul, lr, wait);
    assert(rest == (Seq::<Gesture>::empty(), color, true));
    if pt_in_bounds(ul, lr, s.0) && pt_in_bounds(ul, lr, s.1) {
        assert(run_lines(strokes, cur, color, ec, ul, lr, wait) == (cg + sg + rest.0, rest.1,
        rest.2));
        assert(cg + sg + Seq::<Gesture>::empty() =~= cg + sg);
    } else {
        assert(run_lines(strokes, cur, color, ec, ul, lr, wait) == (cg, color, false));
    }
}

/// Division truncated toward zero, carried out in machine arithmetic.
pub(crate) fn div_trunc(a: i64, b: i64) -> (q: i64)
    requires
        b != 0,
        i64::MIN < a,
        i64::MIN < b,
    ensures
        q == trunc_div(a as int, b as int),
        abs_i(q as int) <= abs_i(a as int),
        abs_i(q as int) == abs_i(a as int) / abs_i(b as int),
{
    let na: u64 = if a < 0 {
        (-a) as u64
    } else {
        a as u64
    };
    let nb: u64 = if b < 0 {
        (-b) as u64
    } else {
        b as u64
    };
    let nq: u64 = na / nb;
    proof {
        assert(na as int == abs_i(a as int));
        assert(nb as int == abs_i(b as int));
        lemma_div_pos_is_pos(na as int, nb as int);
        vstd::arithmetic::div_mod::lemma_div_nonincreasing(na as int, nb as int);
    }
    if (a < 0) == (b < 0) {
        nq as i64
    } else {
        -(nq as i64)
    }
}

/// The x-intersection of an active edge lies within the edge's own
/// horizontal span.
pub proof fn lemma_edge_x_in_span(e: (Coord, Coord), y: int)
    requires
        edge_active(e, y),
    ensures
        min_i(e.0.x as int, e.1.x as int) <= edge_x_at(e, y) <= max_i(e.0.x as int, e.1.x as int),
{
    if e.1.x != e.0.x {
        let dx = e.1.x - e.0.x;
        let dy = e.1.y - e.0.y;
        let k = y - e.0.y;
        let a = dx * k;
        let q = trunc_div(a, dy);
        assert(dy != 0);
        assert(if dy > 0 {
            0 < k < dy
        } else {
            dy < k < 0
        });
        assert(abs_i(a) == abs_i(dx) * abs_i(k)) by (nonlinear_arith)
            requires
                a == dx * k,
        ;
        assert(abs_i(dx) * abs_i(k) <= abs_i(dy) * abs_i(dx)) by (nonlinear_arith)
            requires
                abs_i(k) <= abs_i(dy),
                0 <= abs_i(dx),
        ;
        assert(abs_i(a) / abs_i(dy) <= (abs_i(dy) * abs_i(dx)) / abs_i(dy)) by {
            lemma_div_is_ordered(abs_i(a), abs_i(dy) * abs_i(dx), abs_i(dy));
        }
        assert((abs_i(dy) * abs_i(dx)) / abs_i(dy) == abs_i(dx)) by {
            lemma_div_multiples_vanish(abs_i(dx), abs_i(dy));
        }
        lemma_div_pos_is_pos(abs_i(a), abs_i(dy));
        assert(0 <= abs_i(a) / abs_i(dy) <= abs_i(dx));
        assert((dx > 0 && k > 0 ==> a > 0) && (dx > 0 && k < 0 ==> a < 0) && (dx < 0 && k > 0
            ==> a < 0) && (dx < 0 && k < 0 ==> a > 0)) by (nonlinear_arith)
            requires
                a == dx * k,
        ;
        if dx > 0 {
            assert(0 <= q <= dx);
        } else {
            assert(dx <= q <= 0);
        }
    }
}



/// The run of `all` splits into the gestures already emitted and the run of
/// what remains.
pub open spec fn run_decomposed(
    all: (Seq<Gesture>, PaletteColor, bool),
    done: Seq<Gesture>,
    rest: (Seq<Gesture>, PaletteColor, bool),
) -> bool {
    all.0 == done + rest.0 && all.1 == rest.1 && all.2 == rest.2
}

/// Drawing a concatenated stroke list is drawing the first list and, if
/// that stayed in bounds, the second from where the first left off; a first
/// list that went out of bounds ends the whole run.
pub proof fn lemma_run_lines_concat(
    s1: Seq<(Coord, Coord)>,
    s2: Seq<(Coord, Coord)>,
    cur: PaletteColor,
    color: PaletteColor,
    ec: EaselCoords,
    ul: Coord,
    lr: Coord,
    wait: u64,
)
    ensures
        ({
            let a = run_lines(s1, cur, color, ec, ul, lr, wait);
            let t = run_lines(s1 + s2, cur, color, ec, ul, lr, wait);
            if a.2 {
                let b = run_lines(s2, a.1, color, ec, ul, lr, wait);
                t.0 == a.0 + b.0 && t.1 == b.1 && t.2 == b.2
            } else {
                t == a
            }
        }),
    decreases s1.len(),
{
    let a = run_lines(s1, cur, color, ec, ul, lr, wait);
    let t = run_lines(s1 + s2, cur, color, ec, ul, lr, wait);
    if s1.len() == 0 {
        assert(s1 + s2 =~= s2);
        let b = run_lines(s2, cur, color, ec, ul, lr, wait);
        assert(Seq::<Gesture>::empty() + b.0 =~= b.0);
    } else {
        let s = s1[0];
        assert((s1 + s2)[0] == s);
        assert((s1 + s2).len() > 0);
        assert((s1 + s2).drop_first() =~= s1.drop_first() + s2);
        if pt_in_bounds(ul, lr, s.0) && pt_in_bounds(ul, lr, s.1) {
            lemma_run_lines_concat(s1.drop_first(), s2, color, color, ec, ul, lr, wait);
            let cg = change_color_gs(ec, cur, color, wait);
            let sg = stroke_gs(seq![s.0, s.1], ul, wait, false);
            let a1 = run_lines(s1.drop_first(), color, color, ec, ul, lr, wait);
            if a1.2 {
                let b = run_lines(s2, a1.1, color, ec, ul, lr, wait);
                assert(t.0 =~= (cg + sg + a1.0) + b.0);
            }
        }
    }
}

/// The x-intersection of an active edge with scanline `y`, in machine
/// arithmetic.
fn edge_x(e: &(Coord, Coord), y: i32) -> (x: i32)
    requires
        coord_in_range(e.0),
        coord_in_range(e.1),
        edge_active(*e, y as int),
    ensures
        x as int == edge_x_at(*e, y as int),
        min_i(e.0.x as int, e.1.x as int) <= x as int <= max_i(e.0.x as int, e.1.x as int),
{
    proof {
        lemma_edge_x_in_span(*e, y as int);
    }
    if e.1.x == e.0.x {
        e.0.x
    } else {
        let dx: i64 = e.1.x as i64 - e.0.x as i64;
        let dy: i64 = e.1.y as i64 - e.0.y as i64;
        let k: i64 = y as i64 - e.0.y as i64;
        assert(dy != 0);
        assert(-1125899906842624 <= dx * k <= 1125899906842624) by (nonlinear_arith)
            requires
                -33554432 <= dx <= 33554432,
                -33554432 <= k <= 33554432,
        ;
        let num: i64 = dx * k;
        let q: i64 = div_trunc(num, dy);
        assert(e.0.x + q == edge_x_at(*e, y as int));
        (e.0.x as i64 + q) as i32
    }
}

/// The polygon's edge list, as `edges_of` describes it.
fn build_edges(points: &Vec<Coord>) -> (edges: Vec<(Coord, Coord)>)
    requires
        points@.len() >= 1,
        pts_in_range(points@),
    ensures
        edges@ == edges_of(points@),
        forall|j: int|
            0 <= j < edges@.len() ==> coord_in_range((#[trigger] edges@[j]).0) && coord_in_range(
                edges@[j].1,
            ),
{
    let mut edges: Vec<(Coord, Coord)> = Vec::new();
    let mut i: usize = 0;
    while i < points.len() - 1
        invariant
            points@.len() >= 1,
            i <= points@.len() - 1,
            edges@.len() == i,
            forall|j: int| 0 <= j < i ==> #[trigger] edges@[j] == (points@[j], points@[j + 1]),
        decreases points@.len() - i,
    {
        edges.push((points[i], points[i + 1]));
        i = i + 1;
    }
    edges.push((points[0], points[points.len() - 1]));
    assert(edges@ =~= edges_of(points@));
    assert forall|j: int|
        0 <= j < edges@.len() implies coord_in_range((#[trigger] edges@[j]).0) && coord_in_range(
        edges@[j].1,
    ) by {
        if j < edges@.len() - 1 {
            assert(edges@[j] == (points@[j], points@[j + 1]));
            assert(coord_in_range(points@[j]) && coord_in_range(points@[j + 1]));
        } else {
            assert(edges@[j] == (points@[0], points@[points@.len() - 1]));
            assert(coord_in_range(points@[0]) && coord_in_range(points@[points@.len() - 1]));
        }
    }
    edges
}

/// The smallest and largest y among the points, as `min_y` and `max_y`.
fn vertical_extent(points: &Vec<Coord>) -> (r: (i32, i32))
    requires
        points@.len() >= 1,
        pts_in_range(points@),
    ensures
        r.0 as int == min_y(points@),
        r.1 as int == max_y(points@),
        -COORD_LIMIT <= r.0 <= r.1 <= COORD_LIMIT,
{
    let mut start_y: i32 = points[0].y;
    let mut end_y: i32 = points[0].y;
    proof {
        assert(coord_in_range(points@[0]));
    }
    let mut i: usize = 1;
    while i < points.len()
        invariant
            1 <= i <= points@.len(),
            pts_in_range(points@),
            start_y as int == min_y(points@.take(i as int)),
            end_y as int == max_y(points@.take(i as int)),
            -COORD_LIMIT <= start_y <= end_y <= COORD_LIMIT,
        decreases points@.len() - i,
    {
        proof {
            assert(points@.take(i + 1).drop_last() =~= points@.take(i as int));
            assert(points@.take(i + 1).last() == points@[i as int]);
            assert(coord_in_range(points@[i as int]));
        }
        if points[i].y < start_y {
            start_y = points[i].y;
        }
        if points[i].y > end_y {
            end_y = points[i].y;
        }
        i = i + 1;
    }
    proof {
        assert(points@.take(points@.len() as int) =~= points@);
    }
    (start_y, end_y)
}

/// The x-intersections of the edges active at scanline `y`, in
/// edge-traversal order, as `active_xs`.
fn scanline_xs(edges: &Vec<(Coord, Coord)>, y: i32) -> (xs: Vec<i32>)
    requires
        forall|j: int|
            0 <= j < edges@.len() ==> coord_in_range((#[trigger] edges@[j]).0) && coord_in_range(
                edges@[j].1,
            ),
        -COORD_LIMIT <= y <= COORD_LIMIT,
    ensures
        xs@.len() == active_xs(edges@, y as int).len(),
        forall|t: int| 0 <= t < xs@.len() ==> #[trigger] xs@[t] as int == active_xs(edges@, y as int)[t],
        forall|t: int| 0 <= t < xs@.len() ==> -COORD_LIMIT <= #[trigger] xs@[t] <= COORD_LIMIT,
{
    let mut xs: Vec<i32> = Vec::new();
    let mut j: usize = 0;
    while j < edges.len()
        invariant
            j <= edges@.len(),
            forall|t: int|
                0 <= t < edges@.len() ==> coord_in_range((#[trigger] edges@[t]).0)
                    && coord_in_range(edges@[t].1),
            -COORD_LIMIT <= y <= COORD_LIMIT,
            xs@.len() == active_xs(edges@.take(j as int), y as int).len(),
            forall|t: int|
                0 <= t < xs@.len() ==> #[trigger] xs@[t] as int == active_xs(
                    edges@.take(j as int),
                    y as int,
                )[t],
            forall|t: int| 0 <= t < xs@.len() ==> -COORD_LIMIT <= #[trigger] xs@[t] <= COORD_LIMIT,
        decreases edges@.len() - j,
    {
        let e = edges[j];
        let lo = if e.0.y < e.1.y {
            e.0.y
        } else {
            e.1.y
        };
        let hi = if e.0.y < e.1.y {
            e.1.y
        } else {
            e.0.y
        };
        proof {
            assert(edges@.take(j + 1).drop_last() =~= edges@.take(j as int));
            assert(edges@.take(j + 1).last() == edges@[j as int]);
        }
        let ghost prev: Seq<int> = active_xs(edges@.take(j as int), y as int);
        let ghost next: Seq<int> = active_xs(edges@.take(j + 1), y as int);
        if hi > y && lo < y {
            assert(edge_active(edges@[j as int], y as int));
            let x = edge_x(&e, y);
            xs.push(x);
            proof {
                assert(next == prev + seq![edge_x_at(edges@[j as int], y as int)]);
                assert(next.len() == prev.len() + 1);
                assert(next[prev.len() as int] == edge_x_at(edges@[j as int], y as int));
            }
        } else {
            proof {
                assert(!edge_active(edges@[j as int], y as int));
                assert(next =~= prev + Seq::empty());
                assert(next =~= prev);
            }
        }
        j = j + 1;
    }
    proof {
        assert(edges@.take(edges@.len() as int) =~= edges@);
    }
    xs
}


/// The inside-pair strokes of one scanline, as `pair_strokes`, built as
/// plain data.
#[verifier::loop_isolation(false)]
fn pair_vec(xs: &Vec<i32>, xs_m: Ghost<Seq<int>>, iy: i32) -> (out: Vec<(Coord, Coord)>)
    requires
        xs@.len() == xs_m@.len(),
        forall|t: int| 0 <= t < xs@.len() ==> #[trigger] xs@[t] as int == xs_m@[t],
        forall|t: int| 0 <= t < xs@.len() ==> -COORD_LIMIT <= #[trigger] xs@[t] <= COORD_LIMIT,
        -COORD_LIMIT <= iy <= COORD_LIMIT,
    ensures
        out@ == pair_strokes(xs_m@, iy as int),
        forall|t: int|
            0 <= t < out@.len() ==> stroke_in_range(#[trigger] out@[t], 3 * COORD_LIMIT as int),
{
    let mut out: Vec<(Coord, Coord)> = Vec::new();
    proof {
        assert(xs_m@.skip(0) =~= xs_m@);
        assert(Seq::<(Coord, Coord)>::empty() + pair_strokes(xs_m@, iy as int) =~= pair_strokes(
            xs_m@,
            iy as int,
        ));
    }
    let mut k: usize = 0;
    while xs.len() - k > 1
        invariant
            k <= xs@.len(),
            pair_strokes(xs_m@, iy as int) == out@ + pair_strokes(xs_m@.skip(k as int), iy as int),
            forall|t: int|
                0 <= t < out@.len() ==> stroke_in_range(#[trigger] out@[t], 3 * COORD_LIMIT as int),
        decreases xs@.len() - k,
    {
        let x1 = xs[k];
        let x2 = xs[k + 1];
        proof {
            assert(xs_m@.skip(k as int)[0] == xs_m@[k as int]);
            assert(xs_m@.skip(k as int)[1] == xs_m@[k + 1]);
            assert(xs_m@.skip(k as int).skip(2) =~= xs_m@.skip(k + 2));
        }
        if x1 != x2 {
            let ghost out_b: Seq<(Coord, Coord)> = out@;
            let ghost stroke: (Coord, Coord) = (Coord { x: x1, y: iy }, Coord { x: x2, y: iy });
            out.push((Coord::new(x1, iy), Coord::new(x2, iy)));
            proof {
                assert(pair_strokes(xs_m@.skip(k as int), iy as int) == seq![stroke]
                    + pair_strokes(xs_m@.skip(k + 2), iy as int));
                assert(out@ =~= out_b + seq![stroke]);
                assert(out_b + (seq![stroke] + pair_strokes(xs_m@.skip(k + 2), iy as int)) =~= out@
                    + pair_strokes(xs_m@.skip(k + 2), iy as int));
            }
        } else {
            proof {
                assert(pair_strokes(xs_m@.skip(k as int), iy as int) == pair_strokes(
                    xs_m@.skip(k + 2),
                    iy as int,
                ));
            }
        }
        k = k + 2;
    }
    proof {
        assert(xs_m@.skip(k as int).len() < 2);
        assert(pair_strokes(xs_m@.skip(k as int), iy as int) == Seq::<(Coord, Coord)>::empty());
        assert(out@ + Seq::<(Coord, Coord)>::empty() =~= out@);
    }
    out
}

impl Easel {
    /// Scanline-fills the polygon given by `points` in the given color.  The
    /// brush is forced to its smallest width first and restored afterward,
    /// whether the fill succeeds or fails; in between, every stroke that
    /// `fill_strokes` lists is drawn as a horizontal line, stopping with
    /// `OutOfBounds` at the first stroke that leaves the canvas.
    #[verifier::loop_isolation(false)]
    #[verifier::rlimit(100)]
    pub fn fill(&mut self, points: &Vec<Coord>, color: &PaletteColor) -> (r: Result<
        (),
        EaselError,
    >)
        requires
            old(self).wf(),
            points@.len() >= 1,
            pts_in_range(points@),
        ensures
            final(self).wf(),
            old(self).same_config(*final(self)),
            final(self).orientation == old(self).orientation,
            final(self).current_tool == old(self).current_tool,
            final(self).brush_size == old(self).brush_size,
            crate::shapes::all_in_bounds(
                old(self).spec_bounds().0,
                old(self).spec_bounds().1,
                points@,
            ) ==> r == Ok::<(), EaselError>(()),
            ({
                let run = run_lines(
                    fill_strokes(points@),
                    old(self).current_color,
                    *color,
                    old(self).easel_coords,
                    old(self).spec_bounds().0,
                    old(self).spec_bounds().1,
                    old(self).mouse_wait,
                );
                &&& r == (if run.2 {
                    Ok::<(), EaselError>(())
                } else {
                    Err::<(), EaselError>(EaselError::OutOfBounds)
                })
                &&& final(self).current_color == run.1
                &&& final(self).gestures@ == old(self).gestures@ + change_brush_gs(
                    old(self).easel_coords,
                    old(self).brush_size as int,
                    0,
                    old(self).mouse_wait,
                ) + run.0 + change_brush_gs(
                    old(self).easel_coords,
                    0,
                    old(self).brush_size as int,
                    old(self).mouse_wait,
                )
            }),
    {
        let ghost e0: Easel = *old(self);
        let ghost ul: Coord = e0.spec_bounds().0;
        let ghost lr: Coord = e0.spec_bounds().1;
        let ghost ec: EaselCoords = e0.easel_coords;
        let ghost mw: u64 = e0.mouse_wait;
        let edges: Vec<(Coord, Coord)> = build_edges(points);
        let extent = vertical_extent(points);
        let start_y: i32 = extent.0;
        let end_y: i32 = extent.1;

        let old_brush: i32 = self.brush_size;
        self.change_brush_size(0);
        let ghost base: Seq<Gesture> = self.gestures@;
        let ghost all_strokes: Seq<(Coord, Coord)> = fill_strokes(points@);
        let ghost run_all: (Seq<Gesture>, PaletteColor, bool) = run_lines(
            all_strokes,
            e0.current_color,
            *color,
            ec,
            ul,
            lr,
            mw,
        );
        let ghost mut gs_done: Seq<Gesture> = Seq::empty();
        proof {
            assert(Seq::empty() + run_all.0 =~= run_all.0);
        }

        let mut iy: i32 = start_y;
        while iy < end_y
            invariant
                self.wf(),
                e0.same_config(*self),
                self.orientation == e0.orientation,
                self.current_tool == e0.current_tool,
                self.brush_size == 0,
                start_y <= iy,
                self.gestures@ == base + gs_done,
                run_decomposed(
                    run_all,
                    gs_done,
                    run_lines(
                        scan_strokes(points@, iy as int, end_y as int),
                        self.current_color,
                        *color,
                        ec,
                        ul,
                        lr,
                        mw,
                    ),
                ),
            decreases max_i(end_y as int - iy, 0),
        {
            let xs: Vec<i32> = scanline_xs(&edges, iy);
            let ghost xs_m: Seq<int> = active_xs(edges_of(points@), iy as int);
            proof {
                assert(scan_strokes(points@, iy as int, end_y as int) == pair_strokes(
                    xs_m,
                    iy as int,
                ) + scan_strokes(points@, iy + FILL_STEP, end_y as int));
            }
            let row: Vec<(Coord, Coord)> = pair_vec(&xs, Ghost(xs_m), iy);
            let ghost cur_b: PaletteColor = self.current_color;
            let ghost done_b: Seq<Gesture> = gs_done;
            let res = self.draw_lines(&row, color);
            proof {
                lemma_run_lines_concat(
                    pair_strokes(xs_m, iy as int),
                    scan_strokes(points@, iy + FILL_STEP, end_y as int),
                    cur_b,
                    *color,
                    ec,
                    ul,
                    lr,
                    mw,
                );
                let a = run_lines(pair_strokes(xs_m, iy as int), cur_b, *color, ec, ul, lr, mw);
                if a.2 {
                    gs_done = done_b + a.0;
                    assert(self.gestures@ =~= base + gs_done);
                    let b = run_lines(
                        scan_strokes(points@, iy + FILL_STEP, end_y as int),
                        self.current_color,
                        *color,
                        ec,
                        ul,
                        lr,
                        mw,
                    );
                    assert(done_b + (a.0 + b.0) =~= gs_done + b.0);
                } else {
                    assert(run_all.0 == done_b + a.0 && run_all.1 == a.1 && !run_all.2);
                    assert(self.gestures@ =~= base + run_all.0);
                }
            }
            if let Err(_) = res {
                self.change_brush_size(old_brush);
                proof {
                    assert(self.gestures@ =~= e0.gestures@ + change_brush_gs(
                        ec,
                        e0.brush_size as int,
                        0,
                        mw,
                    ) + run_all.0 + change_brush_gs(ec, 0, e0.brush_size as int, mw));
                    if crate::shapes::all_in_bounds(ul, lr, points@) {
                        lemma_fill_of_bounded_polygon_succeeds(
                            points@,
                            e0.current_color,
                            *color,
                            ec,
                            ul,
                            lr,
                            mw,
                        );
                    }
                }
                return Err(EaselError::OutOfBounds);
            }
            iy = iy + FILL_STEP;
        }
        proof {
            assert(scan_strokes(points@, iy as int, end_y as int) == Seq::<(Coord, Coord)>::empty());
            assert(gs_done + Seq::<Gesture>::empty() =~= gs_done);
            assert(run_all.0 == gs_done && run_all.1 == self.current_color && run_all.2);
        }
        self.change_brush_size(old_brush);
        proof {
            assert(self.gestures@ =~= e0.gestures@ + change_brush_gs(ec, e0.brush_size as int, 0, mw)
                + run_all.0 + change_brush_gs(ec, 0, e0.brush_size as int, mw));
        }
        Ok(())
    }
}


/// Each endpoint coordinate of the stroke within the given magnitude.
pub open spec fn stroke_in_range(s: (Coord, Coord), m: int) -> bool {
    -m <= s.0.x <= m && -m <= s.0.y <= m && -m <= s.1.x <= m && -m <= s.1.y <= m
}

impl Easel {
    /// Draws a stroke list as individual lines in the given color, exactly
    /// as `run_lines` describes, stopping at the first stroke with an
    /// endpoint out of bounds.
    #[verifier::loop_isolation(false)]
    #[verifier::rlimit(100)]
    pub(crate) fn draw_lines(&mut self, strokes: &Vec<(Coord, Coord)>, color: &PaletteColor) -> (r:
        Result<(), EaselError>)
        requires
            old(self).wf(),
            forall|t: int|
                0 <= t < strokes@.len() ==> stroke_in_range(
                    #[trigger] strokes@[t],
                    3 * COORD_LIMIT as int,
                ),
        ensures
            final(self).wf(),
            old(self).same_config(*final(self)),
            final(self).orientation == old(self).orientation,
            final(self).current_tool == old(self).current_tool,
            final(self).brush_size == old(self).brush_size,
            ({
                let run = run_lines(
                    strokes@,
                    old(self).current_color,
                    *color,
                    old(self).easel_coords,
                    old(self).spec_bounds().0,
                    old(self).spec_bounds().1,
                    old(self).mouse_wait,
                );
                &&& r == (if run.2 {
                    Ok::<(), EaselError>(())
                } else {
                    Err::<(), EaselError>(EaselError::OutOfBounds)
                })
                &&& final(self).current_color == run.1
                &&& final(self).gestures@ == old(self).gestures@ + run.0
            }),
    {
        let ghost e0: Easel = *old(self);
        let ghost ul: Coord = e0.spec_bounds().0;
        let ghost lr: Coord = e0.spec_bounds().1;
        let ghost ec: EaselCoords = e0.easel_coords;
        let ghost mw: u64 = e0.mouse_wait;
        let ghost run_all: (Seq<Gesture>, PaletteColor, bool) = run_lines(
            strokes@,
            e0.current_color,
            *color,
            ec,
            ul,
            lr,
            mw,
        );
        let ghost mut gs_done: Seq<Gesture> = Seq::empty();
        proof {
            assert(coord_in_range(ul) && coord_in_range(lr));
            assert(strokes@.skip(0) =~= strokes@);
            assert(Seq::empty() + run_all.0 =~= run_all.0);
        }
        let mut i: usize = 0;
        while i < strokes.len()
            invariant
                i <= strokes@.len(),
                self.wf(),
                e0.same_config(*self),
                self.orientation == e0.orientation,
                self.current_tool == e0.current_tool,
                self.brush_size == e0.brush_size,
                self.gestures@ == e0.gestures@ + gs_done,
                run_decomposed(
                    run_all,
                    gs_done,
                    run_lines(
                        strokes@.skip(i as int),
                        self.current_color,
                        *color,
                        ec,
                        ul,
                        lr,
                        mw,
                    ),
                ),
            decreases strokes@.len() - i,
        {
            let s = strokes[i];
            let ghost remaining: Seq<(Coord, Coord)> = strokes@.skip(i as int);
            let ghost after: Seq<(Coord, Coord)> = strokes@.skip(i + 1);
            proof {
                assert(remaining[0] == strokes@[i as int]);
                assert(remaining.drop_first() =~= after);
            }
            let ghost cur_b: PaletteColor = self.current_color;
            let ghost done_b: Seq<Gesture> = gs_done;
            let mut seg: Vec<Coord> = Vec::new();
            seg.push(s.0);
            seg.push(s.1);
            proof {
                assert(seg@ =~= seq![s.0, s.1]);
                assert(stroke_in_range(strokes@[i as int], 3 * COORD_LIMIT as int));
                assert forall|t: int| 0 <= t < seg@.len() implies i32::MIN <= ul.x
                    + (#[trigger] seg@[t]).x && i32::MIN <= ul.y + seg@[t].y by {}
            }
            let res = self.draw_stroke(&seg, color, false);
            proof {
                let cg = change_color_gs(ec, cur_b, *color, mw);
                let in_b = pt_in_bounds(ul, lr, s.0) && pt_in_bounds(ul, lr, s.1);
                assert(seg@[0] == s.0 && seg@[1] == s.1);
                assert(crate::shapes::all_in_bounds(ul, lr, seg@) == in_b) by {
                    if in_b {
                        assert forall|t: int| 0 <= t < seg@.len() implies pt_in_bounds(
                            ul,
                            lr,
                            #[trigger] seg@[t],
                        ) by {}
                    }
                }
                let rest_b = run_lines(remaining, cur_b, *color, ec, ul, lr, mw);
                if in_b {
                    let rest_a = run_lines(after, *color, *color, ec, ul, lr, mw);
                    let sg = stroke_gs(seq![s.0, s.1], ul, mw, false);
                    assert(stroke_gs(seg@, ul, mw, false) == sg);
                    assert(rest_b == (cg + sg + rest_a.0, rest_a.1, rest_a.2));
                    assert(self.gestures@ == (e0.gestures@ + done_b) + cg + sg);
                    gs_done = done_b + cg + sg;
                    assert(self.gestures@ =~= e0.gestures@ + gs_done);
                    assert(done_b + rest_b.0 =~= gs_done + rest_a.0);
                    assert(run_decomposed(run_all, gs_done, rest_a));
                } else {
                    assert(rest_b == (cg, *color, false));
                    assert(run_all.0 == done_b + cg && run_all.1 == *color && !run_all.2);
                    assert(self.gestures@ =~= e0.gestures@ + run_all.0);
                }
            }
            if let Err(_) = res {
                return Err(EaselError::OutOfBounds);
            }
            i = i + 1;
        }
        proof {
            assert(strokes@.skip(i as int).len() == 0);
            assert(gs_done + Seq::<Gesture>::empty() =~= gs_done);
            assert(run_all.0 == gs_done && run_all.1 == self.current_color && run_all.2);
        }
        Ok(())
    }
}



/// The largest x and the largest y of the extent are attained by points of
/// the polygon.
pub proof fn lemma_extent_achieved(pts: Seq<Coord>)
    requires
        pts.len() >= 1,
    ensures
        exists|j: int| 0 <= j < pts.len() && (#[trigger] pts[j]).x == max_x(pts),
        exists|j: int| 0 <= j < pts.len() && (#[trigger] pts[j]).y == max_y(pts),
    decreases pts.len(),
{
    if pts.len() <= 1 {
        assert(pts[0].x == max_x(pts) && pts[0].y == max_y(pts));
    } else {
        let dl = pts.drop_last();
        lemma_extent_achieved(dl);
        assert(pts.last() == pts[pts.len() - 1]);
        let jx = choose|j: int| 0 <= j < dl.len() && (#[trigger] dl[j]).x == max_x(dl);
        let jy = choose|j: int| 0 <= j < dl.len() && (#[trigger] dl[j]).y == max_y(dl);
        assert(dl[jx] == pts[jx] && dl[jy] == pts[jy]);
        if max_x(dl) >= pts.last().x {
            assert((pts[jx]).x == max_x(pts));
        } else {
            assert((pts[pts.len() - 1]).x == max_x(pts));
        }
        if max_y(dl) >= pts.last().y {
            assert((pts[jy]).y == max_y(pts));
        } else {
            assert((pts[pts.len() - 1]).y == max_y(pts));
        }
    }
}

/// Drawing a stroke list whose endpoints all stay within bounds succeeds.
pub proof fn lemma_run_lines_all_ok(
    strokes: Seq<(Coord, Coord)>,
    cur: PaletteColor,
    color: PaletteColor,
    ec: EaselCoords,
    ul: Coord,
    lr: Coord,
    wait: u64,
)
    requires
        forall|i: int|
            0 <= i < strokes.len() ==> pt_in_bounds(ul, lr, (#[trigger] strokes[i]).0)
                && pt_in_bounds(ul, lr, strokes[i].1),
    ensures
        run_lines(strokes, cur, color, ec, ul, lr, wait).2,
    decreases strokes.len(),
{
    if strokes.len() > 0 {
        let tail = strokes.drop_first();
        assert(forall|i: int| 0 <= i < tail.len() ==> #[trigger] tail[i] == strokes[i + 1]);
        lemma_run_lines_all_ok(tail, color, color, ec, ul, lr, wait);
    }
}

/// A fill of a polygon whose points all translate to within bounds draws
/// every stroke within bounds, and therefore succeeds: the strokes stay in
/// the polygon's own extent, whose corners the points themselves reach.
pub proof fn lemma_fill_of_bounded_polygon_succeeds(
    pts: Seq<Coord>,
    cur: PaletteColor,
    color: PaletteColor,
    ec: EaselCoords,
    ul: Coord,
    lr: Coord,
    wait: u64,
)
    requires
        pts.len() >= 1,
        pts_in_range(pts),
        crate::shapes::all_in_bounds(ul, lr, pts),
    ensures
        run_lines(fill_strokes(pts), cur, color, ec, ul, lr, wait).2,
{
    lemma_extent_bounds(pts);
    lemma_extent_achieved(pts);
    lemma_fill_strokes_in_extent(pts);
    let jx = choose|j: int| 0 <= j < pts.len() && (#[trigger] pts[j]).x == max_x(pts);
    let jy = choose|j: int| 0 <= j < pts.len() && (#[trigger] pts[j]).y == max_y(pts);
    assert(pt_in_bounds(ul, lr, pts[jx]) && pt_in_bounds(ul, lr, pts[jy]));
    assert(ul.x + max_x(pts) <= lr.x && ul.y + max_y(pts) <= lr.y);
    assert forall|i: int|
        0 <= i < fill_strokes(pts).len() implies pt_in_bounds(
        ul,
        lr,
        (#[trigger] fill_strokes(pts)[i]).0,
    ) && pt_in_bounds(ul, lr, fill_strokes(pts)[i].1) by {}
    lemma_run_lines_all_ok(fill_strokes(pts), cur, color, ec, ul, lr, wait);
}

/// The smallest x among the points.
pub open spec fn min_x(pts: Seq<Coord>) -> int
    decreases pts.len(),
{
    if pts.len() <= 1 {
        pts[0].x as int
    } else {
        min_i(min_x(pts.drop_last()), pts.last().x as int)
    }
}

/// The largest x among the points.
pub open spec fn max_x(pts: Seq<Coord>) -> int
    decreases pts.len(),
{
    if pts.len() <= 1 {
        pts[0].x as int
    } else {
        max_i(max_x(pts.drop_last()), pts.last().x as int)
    }
}

/// Every point lies within the extent given by `min_x`, `max_x`, `min_y`
/// and `max_y`, and for in-range points the extent itself is in range.
pub proof fn lemma_extent_bounds(pts: Seq<Coord>)
    requires
        pts.len() >= 1,
        pts_in_range(pts),
    ensures
        forall|j: int|
            0 <= j < pts.len() ==> min_x(pts) <= (#[trigger] pts[j]).x <= max_x(pts) && min_y(pts)
                <= pts[j].y <= max_y(pts),
        -COORD_LIMIT <= min_x(pts) <= max_x(pts) <= COORD_LIMIT,
        -COORD_LIMIT <= min_y(pts) <= max_y(pts) <= COORD_LIMIT,
    decreases pts.len(),
{
    if pts.len() <= 1 {
        assert(coord_in_range(pts[0]));
    } else {
        let dl = pts.drop_last();
        assert(pts_in_range(dl)) by {
            assert(forall|t: int| 0 <= t < dl.len() ==> #[trigger] dl[t] == pts[t]);
        }
        lemma_extent_bounds(dl);
        assert(coord_in_range(pts[pts.len() - 1]));
        assert(pts.last() == pts[pts.len() - 1]);
        assert forall|j: int|
            0 <= j < pts.len() implies min_x(pts) <= (#[trigger] pts[j]).x <= max_x(pts) && min_y(
            pts,
        ) <= pts[j].y <= max_y(pts) by {
            if j < pts.len() - 1 {
                assert(dl[j] == pts[j]);
            }
        }
    }
}

/// Every endpoint of every polygon edge is one of the polygon's points, so
/// the edges stay within the points' extent.
pub proof fn lemma_edges_in_extent(pts: Seq<Coord>)
    requires
        pts.len() >= 1,
        pts_in_range(pts),
    ensures
        forall|j: int|
            0 <= j < edges_of(pts).len() ==> {
                let e = #[trigger] edges_of(pts)[j];
                &&& min_x(pts) <= e.0.x <= max_x(pts)
                &&& min_x(pts) <= e.1.x <= max_x(pts)
            },
{
    lemma_extent_bounds(pts);
    assert forall|j: int| 0 <= j < edges_of(pts).len() implies {
        let e = #[trigger] edges_of(pts)[j];
        &&& min_x(pts) <= e.0.x <= max_x(pts)
        &&& min_x(pts) <= e.1.x <= max_x(pts)
    } by {
        let e = edges_of(pts)[j];
        if j < edges_of(pts).len() - 1 {
            assert(e == (pts[j], pts[j + 1]));
        } else {
            assert(e == (pts[0], pts[pts.len() - 1]));
        }
    }
}

/// The intersections of active edges stay within the given x-extent of the
/// edges' own endpoints.
pub proof fn lemma_active_xs_in_extent(edges: Seq<(Coord, Coord)>, y: int, lo: int, hi: int)
    requires
        forall|j: int|
            0 <= j < edges.len() ==> {
                let e = #[trigger] edges[j];
                &&& lo <= e.0.x <= hi
                &&& lo <= e.1.x <= hi
            },
    ensures
        forall|t: int|
            0 <= t < active_xs(edges, y).len() ==> lo <= #[trigger] active_xs(edges, y)[t] <= hi,
    decreases edges.len(),
{
    if edges.len() > 0 {
        let dl = edges.drop_last();
        assert(forall|t: int| 0 <= t < dl.len() ==> #[trigger] dl[t] == edges[t]);
        lemma_active_xs_in_extent(dl, y, lo, hi);
        assert(edges.last() == edges[edges.len() - 1]);
        let prev = active_xs(dl, y);
        if edge_active(edges.last(), y) {
            lemma_edge_x_in_span(edges.last(), y);
            assert(active_xs(edges, y) == prev + seq![edge_x_at(edges.last(), y)]);
            assert forall|t: int| 0 <= t < active_xs(edges, y).len() implies lo <= #[trigger]
            active_xs(edges, y)[t] <= hi by {
                if t < prev.len() {
                    assert(active_xs(edges, y)[t] == prev[t]);
                } else {
                    assert(active_xs(edges, y)[t] == edge_x_at(edges.last(), y));
                }
            }
        } else {
            assert(active_xs(edges, y) =~= prev);
        }
    }
}

/// The strokes paired from in-extent intersections are horizontal, on the
/// given scanline, with endpoints within the extent.
pub proof fn lemma_pair_strokes_in_extent(xs: Seq<int>, y: int, lo: int, hi: int)
    requires
        forall|t: int| 0 <= t < xs.len() ==> lo <= #[trigger] xs[t] <= hi,
        -COORD_LIMIT <= lo <= hi <= COORD_LIMIT,
        -COORD_LIMIT <= y <= COORD_LIMIT,
    ensures
        forall|i: int|
            0 <= i < pair_strokes(xs, y).len() ==> {
                let s = #[trigger] pair_strokes(xs, y)[i];
                &&& s.0.y as int == y
                &&& s.1.y as int == y
                &&& lo <= s.0.x <= hi
                &&& lo <= s.1.x <= hi
            },
    decreases xs.len(),
{
    if xs.len() >= 2 {
        let tail = xs.skip(2);
        assert(forall|t: int| 0 <= t < tail.len() ==> #[trigger] tail[t] == xs[t + 2]);
        lemma_pair_strokes_in_extent(tail, y, lo, hi);
        let rest = pair_strokes(tail, y);
        if xs[0] != xs[1] {
            let st = (Coord { x: xs[0] as i32, y: y as i32 }, Coord { x: xs[1] as i32, y: y as i32 });
            assert(pair_strokes(xs, y) == seq![st] + rest);
            assert forall|i: int| 0 <= i < pair_strokes(xs, y).len() implies {
                let s = #[trigger] pair_strokes(xs, y)[i];
                &&& s.0.y as int == y
                &&& s.1.y as int == y
                &&& lo <= s.0.x <= hi
                &&& lo <= s.1.x <= hi
            } by {
                if i == 0 {
                    assert(pair_strokes(xs, y)[i] == st);
                } else {
                    assert(pair_strokes(xs, y)[i] == rest[i - 1]);
                }
            }
        } else {
            assert(pair_strokes(xs, y) == rest);
        }
    }
}

/// Every stroke of a scan from `y` to `end` is horizontal, on a sampled
/// scanline in `[y, end)`, with endpoints within the points' x-extent.
pub proof fn lemma_scan_strokes_in_extent(pts: Seq<Coord>, y: int, end: int)
    requires
        pts.len() >= 1,
        pts_in_range(pts),
        -COORD_LIMIT <= y,
        end <= COORD_LIMIT,
    ensures
        forall|i: int|
            0 <= i < scan_strokes(pts, y, end).len() ==> {
                let s = #[trigger] scan_strokes(pts, y, end)[i];
                &&& s.0.y == s.1.y
                &&& y <= s.0.y < end
                &&& min_x(pts) <= s.0.x <= max_x(pts)
                &&& min_x(pts) <= s.1.x <= max_x(pts)
            },
    decreases max_i(end - y, 0),
{
    if y < end {
        lemma_extent_bounds(pts);
        lemma_edges_in_extent(pts);
        lemma_active_xs_in_extent(edges_of(pts), y, min_x(pts), max_x(pts));
        lemma_pair_strokes_in_extent(active_xs(edges_of(pts), y), y, min_x(pts), max_x(pts));
        lemma_scan_strokes_in_extent(pts, y + FILL_STEP, end);
        let head = pair_strokes(active_xs(edges_of(pts), y), y);
        let tail = scan_strokes(pts, y + FILL_STEP, end);
        assert(scan_strokes(pts, y, end) == head + tail);
        assert forall|i: int| 0 <= i < scan_strokes(pts, y, end).len() implies {
            let s = #[trigger] scan_strokes(pts, y, end)[i];
            &&& s.0.y == s.1.y
            &&& y <= s.0.y < end
            &&& min_x(pts) <= s.0.x <= max_x(pts)
            &&& min_x(pts) <= s.1.x <= max_x(pts)
        } by {
            if i < head.len() {
                assert(scan_strokes(pts, y, end)[i] == head[i]);
            } else {
                assert(scan_strokes(pts, y, end)[i] == tail[i - head.len()]);
            }
        }
    }
}

/// Every stroke a fill draws is horizontal, lies on a sampled scanline no
/// lower than the polygon's smallest y and strictly above its largest, and
/// keeps both endpoints within the polygon's own x-extent.
pub proof fn lemma_fill_strokes_in_extent(pts: Seq<Coord>)
    requires
        pts.len() >= 1,
        pts_in_range(pts),
    ensures
        forall|i: int|
            0 <= i < fill_strokes(pts).len() ==> {
                let s = #[trigger] fill_strokes(pts)[i];
                &&& s.0.y == s.1.y
                &&& min_y(pts) <= s.0.y < max_y(pts)
                &&& min_x(pts) <= s.0.x <= max_x(pts)
                &&& min_x(pts) <= s.1.x <= max_x(pts)
            },
{
    lemma_extent_bounds(pts);
    lemma_scan_strokes_in_extent(pts, min_y(pts), max_y(pts));
}

} // verus!
