//! What holds of every rasterized grid.
use vstd::prelude::*;

use crate::grid::{
    before, edges_at, lemma_row_major_is, lists, row_major, DividerEdges, EdgeMap, Spot,
};
use crate::layout::{Area, TerminalId};
use crate::rasterize::{
    along, clipped_end, glyph_of, in_span, join_over, joined, joined_grid, laid_all, laid_span,
    lemma_join_keeps_cells, lemma_span_step, line_cells, line_spot, on_screen, touches_focus,
};
use crate::tiling::SegmentView;

verus! {

/// One of the lines has `spot` among its cells in the viewport.
pub open spec fn grabbable(segments: Seq<SegmentView>, viewport: (u16, u16), spot: Spot) -> bool {
    exists|i: int|
        0 <= i < segments.len() && (#[trigger] line_cells(segments[i], viewport)).contains(spot)
}

pub(crate) proof fn lemma_line_cells(seg: SegmentView, viewport: (u16, u16), spot: Spot)
    ensures
        line_cells(seg, viewport).contains(spot) <==> on_screen(seg, viewport) && in_span(
            seg,
            spot,
            seg.a0,
            clipped_end(seg, viewport) + 1,
        ),
{
    let cells = line_cells(seg, viewport);
    if on_screen(seg, viewport) && in_span(seg, spot, seg.a0, clipped_end(seg, viewport) + 1) {
        let i = along(seg, spot) - seg.a0;
        assert(cells[i] == spot);
    }
    if cells.contains(spot) {
        let i = choose|i: int| 0 <= i < cells.len() && cells[i] == spot;
        assert(spot == line_spot(seg, seg.a0 + i));
    }
}

pub(crate) proof fn lemma_laid_cells(
    segments: Seq<SegmentView>,
    focus: Option<TerminalId>,
    rects: Seq<(TerminalId, Area)>,
    viewport: (u16, u16),
    spot: Spot,
)
    ensures
        laid_all(segments, focus, rects, viewport).contains_key(spot) <==> grabbable(
            segments,
            viewport,
            spot,
        ),
    decreases segments.len(),
{
    if segments.len() > 0 {
        let rest = segments.drop_last();
        let seg = segments.last();
        lemma_laid_cells(rest, focus, rects, viewport, spot);
        lemma_line_cells(seg, viewport, spot);
        if grabbable(rest, viewport, spot) {
            let i = choose|i: int|
                0 <= i < rest.len() && (#[trigger] line_cells(rest[i], viewport)).contains(spot);
            assert(line_cells(segments[i], viewport).contains(spot));
        }
        if line_cells(seg, viewport).contains(spot) {
            assert(line_cells(segments[segments.len() - 1], viewport).contains(spot));
        }
        if grabbable(segments, viewport, spot) {
            let i = choose|i: int|
                0 <= i < segments.len() && (#[trigger] line_cells(segments[i], viewport)).contains(
                    spot,
                );
            if i < rest.len() {
                assert(line_cells(rest[i], viewport).contains(spot));
            }
        }
    }
}

/// A listing with one more cell.
proof fn lemma_listing_insert(order: Seq<Spot>, spots: Set<Spot>, spot: Spot) -> (more: Seq<Spot>)
    requires
        lists(order, spots),
    ensures
        lists(more, spots.insert(spot)),
    decreases order.len(),
{
    if spots.contains(spot) {
        assert(spots.insert(spot) =~= spots);
        order
    } else if order.len() == 0 || before(order.last(), spot) {
        let more = order.push(spot);
        let set = spots.insert(spot);
        assert forall|i: int, j: int| 0 <= i < j < more.len() implies before(
            #[trigger] more[i],
            #[trigger] more[j],
        ) by {
            if j == order.len() && i < order.len() - 1 {
                assert(before(order[i], order[order.len() - 1]));
            } else if j < order.len() {
                assert(before(order[i], order[j]));
            }
        }
        assert forall|i: int| 0 <= i < more.len() implies set.contains(#[trigger] more[i]) by {
            if i < order.len() {
                assert(spots.contains(order[i]));
            }
        }
        assert forall|s: Spot| set.contains(s) implies more.contains(s) by {
            if s == spot {
                assert(more[order.len() as int] == s);
            } else {
                assert(order.contains(s));
                let i = choose|i: int| 0 <= i < order.len() && order[i] == s;
                assert(more[i] == s);
            }
        }
        more
    } else {
        let last = order.last();
        let head = order.drop_last();
        let rest = spots.remove(last);
        assert(spots.contains(order[order.len() - 1]));
        assert forall|i: int| 0 <= i < head.len() implies rest.contains(#[trigger] head[i]) by {
            assert(before(order[i], order[order.len() - 1]));
            assert(spots.contains(order[i]));
        }
        assert forall|i: int, j: int| 0 <= i < j < head.len() implies before(
            #[trigger] head[i],
            #[trigger] head[j],
        ) by {
            assert(before(order[i], order[j]));
        }
        assert forall|s: Spot| rest.contains(s) implies head.contains(s) by {
            assert(order.contains(s));
            let i = choose|i: int| 0 <= i < order.len() && order[i] == s;
            assert(head[i] == s);
        }
        let init = lemma_listing_insert(head, rest, spot);
        let more = init.push(last);
        let set = spots.insert(spot);
        assert(set =~= rest.insert(spot).insert(last));
        assert forall|i: int| 0 <= i < init.len() implies before(#[trigger] init[i], last) by {
            assert(rest.insert(spot).contains(init[i]));
            if init[i] != spot {
                assert(order.contains(init[i]));
                let k = choose|k: int| 0 <= k < order.len() && order[k] == init[i];
                assert(before(order[k], order[order.len() - 1]));
            }
        }
        assert forall|i: int, j: int| 0 <= i < j < more.len() implies before(
            #[trigger] more[i],
            #[trigger] more[j],
        ) by {
            if j < init.len() {
                assert(before(init[i], init[j]));
            } else {
                assert(before(init[i], last));
            }
        }
        assert forall|i: int| 0 <= i < more.len() implies set.contains(#[trigger] more[i]) by {
            if i < init.len() {
                assert(rest.insert(spot).contains(init[i]));
            }
        }
        assert forall|s: Spot| set.contains(s) implies more.contains(s) by {
            if s == last {
                assert(more[init.len() as int] == s);
            } else {
                assert(init.contains(s));
                let i = choose|i: int| 0 <= i < init.len() && init[i] == s;
                assert(more[i] == s);
            }
        }
        more
    }
}

proof fn lemma_span_listing(
    grid: EdgeMap,
    order: Seq<Spot>,
    seg: SegmentView,
    heavy: bool,
    lo: int,
    hi: int,
) -> (more: Seq<Spot>)
    requires
        lists(order, grid.dom()),
    ensures
        lists(more, laid_span(grid, seg, heavy, lo, hi).dom()),
    decreases hi - lo,
{
    if hi <= lo {
        assert(laid_span(grid, seg, heavy, lo, hi).dom() =~= grid.dom());
        order
    } else {
        let init = lemma_span_listing(grid, order, seg, heavy, lo, hi - 1);
        lemma_span_step(grid, seg, heavy, lo, hi - 1);
        let was = laid_span(grid, seg, heavy, lo, hi - 1).dom();
        let more = lemma_listing_insert(init, was, line_spot(seg, hi - 1));
        assert(laid_span(grid, seg, heavy, lo, hi).dom() =~= was.insert(line_spot(seg, hi - 1)));
        more
    }
}

/// The cells of laid-down lines have a row-major listing.
proof fn lemma_laid_listing(
    segments: Seq<SegmentView>,
    focus: Option<TerminalId>,
    rects: Seq<(TerminalId, Area)>,
    viewport: (u16, u16),
) -> (order: Seq<Spot>)
    ensures
        lists(order, laid_all(segments, focus, rects, viewport).dom()),
    decreases segments.len(),
{
    if segments.len() == 0 {
        Seq::empty()
    } else {
        let seg = segments.last();
        let order = lemma_laid_listing(segments.drop_last(), focus, rects, viewport);
        let grid = laid_all(segments.drop_last(), focus, rects, viewport);
        if on_screen(seg, viewport) {
            lemma_span_listing(
                grid,
                order,
                seg,
                touches_focus(seg, focus, rects),
                seg.a0,
                clipped_end(seg, viewport) + 1,
            )
        } else {
            order
        }
    }
}

pub(crate) proof fn lemma_row_major_lists(
    segments: Seq<SegmentView>,
    focus: Option<TerminalId>,
    rects: Seq<(TerminalId, Area)>,
    viewport: (u16, u16),
)
    ensures
        ({
            let grid = laid_all(segments, focus, rects, viewport);
            lists(row_major(grid), grid.dom())
        }),
{
    let grid = laid_all(segments, focus, rects, viewport);
    let order = lemma_laid_listing(segments, focus, rects, viewport);
    lemma_row_major_is(grid, order);
}

/// The painted cells are the grab cells: a cell is a divider cell exactly when
/// the grab target of one of the lines holds it.
pub proof fn law_painted_cells_are_grab_cells(
    segments: Seq<SegmentView>,
    focus: Option<TerminalId>,
    rects: Seq<(TerminalId, Area)>,
    viewport: (u16, u16),
    spot: Spot,
)
    ensures
        joined_grid(segments, focus, rects, viewport).contains_key(spot) <==> grabbable(
            segments,
            viewport,
            spot,
        ),
{
    let grid = laid_all(segments, focus, rects, viewport);
    lemma_row_major_lists(segments, focus, rects, viewport);
    lemma_join_keeps_cells(grid, row_major(grid));
    lemma_laid_cells(segments, focus, rects, viewport, spot);
}

/// A cell on a line in the viewport is on the line.
pub proof fn lemma_grab_cell_is_covered(seg: SegmentView, viewport: (u16, u16), spot: Spot)
    requires
        line_cells(seg, viewport).contains(spot),
    ensures
        seg.covers(spot.0, spot.1),
{
    lemma_line_cells(seg, viewport, spot);
}

/// The edge is absent or light.
pub open spec fn not_heavy(e: Option<bool>) -> bool {
    e != Some(true)
}

/// No edge of the cell is heavy.
pub open spec fn no_heavy_edge(edges: DividerEdges) -> bool {
    &&& not_heavy(edges.north)
    &&& not_heavy(edges.east)
    &&& not_heavy(edges.south)
    &&& not_heavy(edges.west)
}

/// No cell of the grid has a heavy edge.
pub open spec fn all_light(grid: EdgeMap) -> bool {
    forall|s: Spot| #[trigger] grid.contains_key(s) ==> no_heavy_edge(grid[s])
}

/// The one-stroke-weight glyphs: straight lines, corners, tees and the cross,
/// and the blank of a cell without edges.
pub open spec fn is_light_glyph(ch: char) -> bool {
    ||| ch == ' '
    ||| ch == '\u{2500}'
    ||| ch == '\u{2502}'
    ||| ch == '\u{250C}'
    ||| ch == '\u{2510}'
    ||| ch == '\u{2514}'
    ||| ch == '\u{2518}'
    ||| ch == '\u{251C}'
    ||| ch == '\u{2524}'
    ||| ch == '\u{252C}'
    ||| ch == '\u{2534}'
    ||| ch == '\u{253C}'
}

proof fn lemma_laid_all_light(
    segments: Seq<SegmentView>,
    rects: Seq<(TerminalId, Area)>,
    viewport: (u16, u16),
)
    ensures
        all_light(laid_all(segments, None, rects, viewport)),
    decreases segments.len(),
{
    if segments.len() > 0 {
        lemma_laid_all_light(segments.drop_last(), rects, viewport);
        let grid = laid_all(segments.drop_last(), None, rects, viewport);
        let now = laid_all(segments, None, rects, viewport);
        assert forall|s: Spot| #[trigger] now.contains_key(s) implies no_heavy_edge(now[s]) by {
            assert(no_heavy_edge(edges_at(grid, s)));
        }
    }
}

proof fn lemma_join_all_light(grid: EdgeMap, order: Seq<Spot>)
    requires
        all_light(grid),
    ensures
        all_light(join_over(grid, order)),
    decreases order.len(),
{
    if order.len() > 0 {
        let head = order.drop_last();
        lemma_join_all_light(grid, head);
        let was = join_over(grid, head);
        let spot = order.last();
        assert(no_heavy_edge(edges_at(was, (spot.0, spot.1 - 1))));
        assert(no_heavy_edge(edges_at(was, (spot.0, spot.1 + 1))));
        assert(no_heavy_edge(edges_at(was, (spot.0 - 1, spot.1))));
        assert(no_heavy_edge(edges_at(was, (spot.0 + 1, spot.1))));
        if was.contains_key(spot) {
            assert(no_heavy_edge(joined(was, spot)));
        }
    }
}

/// One stroke weight: with no focused pane every glyph of the grid is light.
pub proof fn law_without_focus_the_grid_is_light(
    segments: Seq<SegmentView>,
    rects: Seq<(TerminalId, Area)>,
    viewport: (u16, u16),
    spot: Spot,
)
    requires
        joined_grid(segments, None, rects, viewport).contains_key(spot),
    ensures
        is_light_glyph(glyph_of(joined_grid(segments, None, rects, viewport)[spot])),
{
    let grid = laid_all(segments, None, rects, viewport);
    lemma_row_major_lists(segments, None, rects, viewport);
    lemma_laid_all_light(segments, rects, viewport);
    lemma_join_all_light(grid, row_major(grid));
}

/// A cell never loses an edge by joining.
pub open spec fn has_edges_of(now: DividerEdges, was: DividerEdges) -> bool {
    &&& was.north is Some ==> now.north == was.north
    &&& was.east is Some ==> now.east == was.east
    &&& was.south is Some ==> now.south == was.south
    &&& was.west is Some ==> now.west == was.west
}

proof fn lemma_join_keeps_edges(grid: EdgeMap, order: Seq<Spot>, spot: Spot)
    requires
        grid.contains_key(spot),
    ensures
        join_over(grid, order).contains_key(spot),
        has_edges_of(join_over(grid, order)[spot], grid[spot]),
    decreases order.len(),
{
    if order.len() > 0 {
        lemma_join_keeps_edges(grid, order.drop_last(), spot);
    }
}

/// Lines join where they meet, in whatever order the cells are visited: a
/// visited cell keeps the edges it has and ends up with an edge toward each
/// neighbouring divider cell that has an edge along that direction.
pub proof fn law_lines_join_where_they_meet(grid: EdgeMap, order: Seq<Spot>, k: int)
    requires
        order.no_duplicates(),
        forall|i: int| 0 <= i < order.len() ==> grid.contains_key(#[trigger] order[i]),
        0 <= k < order.len(),
    ensures
        ({
            let spot = order[k];
            let end = join_over(grid, order)[spot];
            let n = edges_at(grid, (spot.0, spot.1 - 1));
            let s = edges_at(grid, (spot.0, spot.1 + 1));
            let e = edges_at(grid, (spot.0 + 1, spot.1));
            let w = edges_at(grid, (spot.0 - 1, spot.1));
            &&& has_edges_of(end, grid[spot])
            &&& n.north is Some || n.south is Some ==> end.north is Some
            &&& s.north is Some || s.south is Some ==> end.south is Some
            &&& e.east is Some || e.west is Some ==> end.east is Some
            &&& w.east is Some || w.west is Some ==> end.west is Some
        }),
    decreases order.len(),
{
    let head = order.drop_last();
    assert forall|i: int| 0 <= i < head.len() implies grid.contains_key(#[trigger] head[i]) by {
        assert(head[i] == order[i]);
    }
    if k < head.len() {
        assert(head.no_duplicates()) by {
            assert forall|i: int, j: int|
                0 <= i < head.len() && 0 <= j < head.len() && i != j implies head[i] != head[j] by {
                assert(order[i] != order[j]);
            }
        }
        law_lines_join_where_they_meet(grid, head, k);
        assert(order[k] != order[order.len() - 1]);
    } else {
        let spot = order[k];
        assert(grid.contains_key(spot));
        lemma_join_keeps_edges(grid, head, spot);
        lemma_join_keeps_cells(grid, head);
        let north: Spot = (spot.0, spot.1 - 1);
        let south: Spot = (spot.0, spot.1 + 1);
        let east: Spot = (spot.0 + 1, spot.1);
        let west: Spot = (spot.0 - 1, spot.1);
        if grid.contains_key(north) {
            lemma_join_keeps_edges(grid, head, north);
        }
        if grid.contains_key(south) {
            lemma_join_keeps_edges(grid, head, south);
        }
        if grid.contains_key(east) {
            lemma_join_keeps_edges(grid, head, east);
        }
        if grid.contains_key(west) {
            lemma_join_keeps_edges(grid, head, west);
        }
    }
}

} // verus!
