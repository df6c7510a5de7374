//! A divider cell has an edge where a line leads, and nowhere else.
use vstd::prelude::*;

use crate::grid::{before, edges_at, row_major, DividerEdges, EdgeMap, Spot};
use crate::layout::{rect_of, Area, SplitDir, TerminalId};
use crate::rasterize::{
    borders_line, join_over, joined, joined_grid, laid_all, lemma_join_keeps_cells, line_cells,
    touches_focus,
};
use crate::rasterize_laws::{
    grabbable, law_lines_join_where_they_meet, law_painted_cells_are_grab_cells, lemma_laid_cells,
    lemma_line_cells, lemma_row_major_lists,
};
use crate::tiling::SegmentView;

verus! {

/// The line starts and lies at coordinates from zero on.
pub open spec fn starts_on_screen(seg: SegmentView) -> bool {
    0 <= seg.a0 && 0 <= seg.cross
}

/// The cells of a line are those it covers, as far as the viewport shows them,
/// each once and in order along it.
pub proof fn law_line_cells_are_the_covered_cells(
    seg: SegmentView,
    viewport: (u16, u16),
    spot: Spot,
)
    requires
        starts_on_screen(seg),
    ensures
        line_cells(seg, viewport).contains(spot) <==> seg.covers(spot.0, spot.1) && spot.0
            < viewport.0 && spot.1 < viewport.1,
        forall|i: int, j: int|
            0 <= i < j < line_cells(seg, viewport).len() ==> before(
                #[trigger] line_cells(seg, viewport)[i],
                #[trigger] line_cells(seg, viewport)[j],
            ),
{
    lemma_line_cells(seg, viewport, spot);
}

/// A line of this kind covers both cells, and is heavy or not.
pub open spec fn line_joins(
    segments: Seq<SegmentView>,
    focus: Option<TerminalId>,
    rects: Seq<(TerminalId, Area)>,
    split: SplitDir,
    a: Spot,
    b: Spot,
    edge: Option<bool>,
) -> bool {
    exists|i: int|
        {
            &&& 0 <= i < segments.len()
            &&& (#[trigger] segments[i]).split == split
            &&& segments[i].covers(a.0, a.1)
            &&& segments[i].covers(b.0, b.1)
            &&& edge == Some(touches_focus(segments[i], focus, rects))
        }
}

/// A line of this kind covers both cells.
pub open spec fn line_leads(
    segments: Seq<SegmentView>,
    split: SplitDir,
    a: Spot,
    b: Spot,
) -> bool {
    exists|i: int|
        {
            &&& 0 <= i < segments.len()
            &&& (#[trigger] segments[i]).split == split
            &&& segments[i].covers(a.0, a.1)
            &&& segments[i].covers(b.0, b.1)
        }
}

spec fn edge_follows(
    segments: Seq<SegmentView>,
    focus: Option<TerminalId>,
    rects: Seq<(TerminalId, Area)>,
    split: SplitDir,
    a: Spot,
    b: Spot,
    edge: Option<bool>,
) -> bool {
    if line_leads(segments, split, a, b) {
        line_joins(segments, focus, rects, split, a, b, edge)
    } else {
        edge is None
    }
}

proof fn lemma_edge_step(
    segments: Seq<SegmentView>,
    focus: Option<TerminalId>,
    rects: Seq<(TerminalId, Area)>,
    split: SplitDir,
    a: Spot,
    b: Spot,
    was: Option<bool>,
    now: Option<bool>,
)
    requires
        segments.len() > 0,
        edge_follows(segments.drop_last(), focus, rects, split, a, b, was),
        ({
            let seg = segments.last();
            if seg.split == split && seg.covers(a.0, a.1) && seg.covers(b.0, b.1) {
                now == Some(touches_focus(seg, focus, rects))
            } else {
                now == was
            }
        }),
    ensures
        edge_follows(segments, focus, rects, split, a, b, now),
{
    let rest = segments.drop_last();
    let seg = segments[segments.len() - 1];
    if line_leads(rest, split, a, b) {
        let i = choose|i: int|
            {
                &&& 0 <= i < rest.len()
                &&& (#[trigger] rest[i]).split == split
                &&& rest[i].covers(a.0, a.1)
                &&& rest[i].covers(b.0, b.1)
                &&& was == Some(touches_focus(rest[i], focus, rects))
            };
        assert(segments[i] == rest[i]);
    }
    if line_leads(segments, split, a, b) {
        let i = choose|i: int|
            {
                &&& 0 <= i < segments.len()
                &&& (#[trigger] segments[i]).split == split
                &&& segments[i].covers(a.0, a.1)
                &&& segments[i].covers(b.0, b.1)
            };
        if i < rest.len() {
            assert(rest[i] == segments[i]);
        }
    }
}

spec fn follows_lines(
    segments: Seq<SegmentView>,
    focus: Option<TerminalId>,
    rects: Seq<(TerminalId, Area)>,
    spot: Spot,
    edges: DividerEdges,
) -> bool {
    let (x, y) = spot;
    &&& edge_follows(segments, focus, rects, SplitDir::Horizontal, spot, (x, y - 1), edges.north)
    &&& edge_follows(segments, focus, rects, SplitDir::Horizontal, spot, (x, y + 1), edges.south)
    &&& edge_follows(segments, focus, rects, SplitDir::Vertical, spot, (x + 1, y), edges.east)
    &&& edge_follows(segments, focus, rects, SplitDir::Vertical, spot, (x - 1, y), edges.west)
}

proof fn lemma_laid_follows(
    segments: Seq<SegmentView>,
    focus: Option<TerminalId>,
    rects: Seq<(TerminalId, Area)>,
    viewport: (u16, u16),
    spot: Spot,
)
    requires
        forall|i: int| 0 <= i < segments.len() ==> starts_on_screen(#[trigger] segments[i]),
        0 <= spot.0 < viewport.0,
        0 <= spot.1 < viewport.1,
    ensures
        follows_lines(
            segments,
            focus,
            rects,
            spot,
            edges_at(laid_all(segments, focus, rects, viewport), spot),
        ),
    decreases segments.len(),
{
    let (x, y) = spot;
    if segments.len() > 0 {
        let rest = segments.drop_last();
        let seg = segments[segments.len() - 1];
        assert forall|i: int| 0 <= i < rest.len() implies starts_on_screen(#[trigger] rest[i]) by {
            assert(rest[i] == segments[i]);
        }
        lemma_laid_follows(rest, focus, rects, viewport, spot);
        let was = edges_at(laid_all(rest, focus, rects, viewport), spot);
        let now = edges_at(laid_all(segments, focus, rects, viewport), spot);
        let h = SplitDir::Horizontal;
        let v = SplitDir::Vertical;
        assert(starts_on_screen(seg));
        lemma_edge_step(segments, focus, rects, h, spot, (x, y - 1), was.north, now.north);
        lemma_edge_step(segments, focus, rects, h, spot, (x, y + 1), was.south, now.south);
        lemma_edge_step(segments, focus, rects, v, spot, (x + 1, y), was.east, now.east);
        lemma_edge_step(segments, focus, rects, v, spot, (x - 1, y), was.west, now.west);
    }
}

/// Before lines are joined, a cell has an edge up or down exactly where a
/// vertical line covers it and the cell there, and left or right exactly where a
/// horizontal line does; the edge has the weight of such a line.
pub proof fn law_edges_follow_their_lines(
    segments: Seq<SegmentView>,
    focus: Option<TerminalId>,
    rects: Seq<(TerminalId, Area)>,
    viewport: (u16, u16),
    spot: Spot,
)
    requires
        forall|i: int| 0 <= i < segments.len() ==> starts_on_screen(#[trigger] segments[i]),
        0 <= spot.0 < viewport.0,
        0 <= spot.1 < viewport.1,
    ensures
        ({
            let (x, y) = spot;
            let h = SplitDir::Horizontal;
            let v = SplitDir::Vertical;
            let edges = edges_at(laid_all(segments, focus, rects, viewport), spot);
            &&& edges.north is Some <==> line_leads(segments, h, spot, (x, y - 1))
            &&& edges.south is Some <==> line_leads(segments, h, spot, (x, y + 1))
            &&& edges.east is Some <==> line_leads(segments, v, spot, (x + 1, y))
            &&& edges.west is Some <==> line_leads(segments, v, spot, (x - 1, y))
            &&& edges.north is Some ==> line_joins(
                segments,
                focus,
                rects,
                h,
                spot,
                (x, y - 1),
                edges.north,
            )
            &&& edges.south is Some ==> line_joins(
                segments,
                focus,
                rects,
                h,
                spot,
                (x, y + 1),
                edges.south,
            )
            &&& edges.east is Some ==> line_joins(
                segments,
                focus,
                rects,
                v,
                spot,
                (x + 1, y),
                edges.east,
            )
            &&& edges.west is Some ==> line_joins(
                segments,
                focus,
                rects,
                v,
                spot,
                (x - 1, y),
                edges.west,
            )
        }),
{
    lemma_laid_follows(segments, focus, rects, viewport, spot);
}

proof fn lemma_join_leads_to_cells(grid: EdgeMap, order: Seq<Spot>, spot: Spot)
    requires
        grid.contains_key(spot),
    ensures
        ({
            let (x, y) = spot;
            let was = grid[spot];
            let now = join_over(grid, order)[spot];
            &&& now.north is Some ==> was.north is Some || grid.contains_key((x, y - 1))
            &&& now.south is Some ==> was.south is Some || grid.contains_key((x, y + 1))
            &&& now.east is Some ==> was.east is Some || grid.contains_key((x + 1, y))
            &&& now.west is Some ==> was.west is Some || grid.contains_key((x - 1, y))
        }),
    decreases order.len(),
{
    if order.len() > 0 {
        lemma_join_leads_to_cells(grid, order.drop_last(), spot);
        lemma_join_keeps_cells(grid, order.drop_last());
    }
}

/// Some line covers the cell.
pub open spec fn on_a_line(segments: Seq<SegmentView>, spot: Spot) -> bool {
    exists|i: int| 0 <= i < segments.len() && (#[trigger] segments[i]).covers(spot.0, spot.1)
}

proof fn lemma_leading_line_covers(
    segments: Seq<SegmentView>,
    split: SplitDir,
    a: Spot,
    b: Spot,
)
    requires
        line_leads(segments, split, a, b),
    ensures
        on_a_line(segments, b),
{
    let i = choose|i: int|
        {
            &&& 0 <= i < segments.len()
            &&& (#[trigger] segments[i]).split == split
            &&& segments[i].covers(a.0, a.1)
            &&& segments[i].covers(b.0, b.1)
        };
    assert(segments[i].covers(b.0, b.1));
}

/// The divider cells are exactly the cells in the viewport that some line covers.
pub proof fn law_divider_cells_are_the_covered_cells(
    segments: Seq<SegmentView>,
    focus: Option<TerminalId>,
    rects: Seq<(TerminalId, Area)>,
    viewport: (u16, u16),
    spot: Spot,
)
    requires
        forall|i: int| 0 <= i < segments.len() ==> starts_on_screen(#[trigger] segments[i]),
    ensures
        joined_grid(segments, focus, rects, viewport).contains_key(spot) <==> on_a_line(
            segments,
            spot,
        ) && spot.0 < viewport.0 && spot.1 < viewport.1,
{
    law_painted_cells_are_grab_cells(segments, focus, rects, viewport, spot);
    if grabbable(segments, viewport, spot) {
        let i = choose|i: int|
            0 <= i < segments.len() && (#[trigger] line_cells(segments[i], viewport)).contains(
                spot,
            );
        law_line_cells_are_the_covered_cells(segments[i], viewport, spot);
    }
    if on_a_line(segments, spot) && spot.0 < viewport.0 && spot.1 < viewport.1 {
        let i = choose|i: int|
            0 <= i < segments.len() && (#[trigger] segments[i]).covers(spot.0, spot.1);
        law_line_cells_are_the_covered_cells(segments[i], viewport, spot);
        assert(line_cells(segments[i], viewport).contains(spot));
    }
}

/// No edge of a finished grid leads into the open: it leads to a cell that some
/// line covers. So no glyph has a stem into a pane.
pub proof fn law_no_edge_leads_into_the_open(
    segments: Seq<SegmentView>,
    focus: Option<TerminalId>,
    rects: Seq<(TerminalId, Area)>,
    viewport: (u16, u16),
    spot: Spot,
)
    requires
        forall|i: int| 0 <= i < segments.len() ==> starts_on_screen(#[trigger] segments[i]),
        joined_grid(segments, focus, rects, viewport).contains_key(spot),
    ensures
        ({
            let (x, y) = spot;
            let edges = joined_grid(segments, focus, rects, viewport)[spot];
            &&& edges.north is Some ==> on_a_line(segments, (x, y - 1))
            &&& edges.south is Some ==> on_a_line(segments, (x, y + 1))
            &&& edges.east is Some ==> on_a_line(segments, (x + 1, y))
            &&& edges.west is Some ==> on_a_line(segments, (x - 1, y))
        }),
{
    let (x, y) = spot;
    let grid = laid_all(segments, focus, rects, viewport);
    let order = row_major(grid);
    law_divider_cells_are_the_covered_cells(segments, focus, rects, viewport, spot);
    law_painted_cells_are_grab_cells(segments, focus, rects, viewport, spot);
    lemma_laid_cells(segments, focus, rects, viewport, spot);
    let k = choose|i: int|
        0 <= i < segments.len() && (#[trigger] segments[i]).covers(spot.0, spot.1);
    assert(starts_on_screen(segments[k]));
    lemma_laid_follows(segments, focus, rects, viewport, spot);
    lemma_join_leads_to_cells(grid, order, spot);
    let h = SplitDir::Horizontal;
    let v = SplitDir::Vertical;
    lemma_neighbour(segments, focus, rects, viewport, h, spot, (x, y - 1));
    lemma_neighbour(segments, focus, rects, viewport, h, spot, (x, y + 1));
    lemma_neighbour(segments, focus, rects, viewport, v, spot, (x + 1, y));
    lemma_neighbour(segments, focus, rects, viewport, v, spot, (x - 1, y));
}

proof fn lemma_neighbour(
    segments: Seq<SegmentView>,
    focus: Option<TerminalId>,
    rects: Seq<(TerminalId, Area)>,
    viewport: (u16, u16),
    split: SplitDir,
    a: Spot,
    b: Spot,
)
    requires
        forall|i: int| 0 <= i < segments.len() ==> starts_on_screen(#[trigger] segments[i]),
    ensures
        line_leads(segments, split, a, b) || laid_all(
            segments,
            focus,
            rects,
            viewport,
        ).contains_key(b) ==> on_a_line(segments, b),
{
    if line_leads(segments, split, a, b) {
        lemma_leading_line_covers(segments, split, a, b);
    }
    law_divider_cells_are_the_covered_cells(segments, focus, rects, viewport, b);
    law_painted_cells_are_grab_cells(segments, focus, rects, viewport, b);
    lemma_laid_cells(segments, focus, rects, viewport, b);
}

/// Lines join where they meet: a divider cell ends up with an edge toward each
/// neighbouring divider cell through which a line runs in that direction, and
/// keeps the edges of its own lines with their weights.
pub proof fn law_a_cell_joins_the_lines_beside_it(
    segments: Seq<SegmentView>,
    focus: Option<TerminalId>,
    rects: Seq<(TerminalId, Area)>,
    viewport: (u16, u16),
    spot: Spot,
)
    requires
        forall|i: int| 0 <= i < segments.len() ==> starts_on_screen(#[trigger] segments[i]),
        on_a_line(segments, spot),
        0 <= spot.0 < viewport.0,
        0 <= spot.1 < viewport.1,
    ensures
        ({
            let (x, y) = spot;
            let h = SplitDir::Horizontal;
            let v = SplitDir::Vertical;
            let edges = joined_grid(segments, focus, rects, viewport)[spot];
            let own = edges_at(laid_all(segments, focus, rects, viewport), spot);
            &&& line_leads(segments, h, spot, (x, y - 1)) ==> edges.north == own.north
                && edges.north is Some
            &&& line_leads(segments, h, spot, (x, y + 1)) ==> edges.south == own.south
                && edges.south is Some
            &&& line_leads(segments, v, spot, (x + 1, y)) ==> edges.east == own.east
                && edges.east is Some
            &&& line_leads(segments, v, spot, (x - 1, y)) ==> edges.west == own.west
                && edges.west is Some
            &&& y > 0 && (line_leads(segments, h, (x, y - 1), (x, y - 2)) || line_leads(
                segments,
                h,
                (x, y - 1),
                (x, y),
            )) ==> edges.north is Some
            &&& y + 1 < viewport.1 && (line_leads(segments, h, (x, y + 1), (x, y + 2)) || line_leads(
                segments,
                h,
                (x, y + 1),
                (x, y),
            )) ==> edges.south is Some
            &&& x + 1 < viewport.0 && (line_leads(segments, v, (x + 1, y), (x + 2, y)) || line_leads(
                segments,
                v,
                (x + 1, y),
                (x, y),
            )) ==> edges.east is Some
            &&& x > 0 && (line_leads(segments, v, (x - 1, y), (x - 2, y)) || line_leads(
                segments,
                v,
                (x - 1, y),
                (x, y),
            )) ==> edges.west is Some
        }),
{
    let (x, y) = spot;
    let grid = laid_all(segments, focus, rects, viewport);
    let order = row_major(grid);
    law_divider_cells_are_the_covered_cells(segments, focus, rects, viewport, spot);
    law_painted_cells_are_grab_cells(segments, focus, rects, viewport, spot);
    lemma_laid_cells(segments, focus, rects, viewport, spot);
    lemma_row_major_lists(segments, focus, rects, viewport);
    assert(grid.dom().contains(spot));
    assert(order.contains(spot));
    let k = choose|k: int| 0 <= k < order.len() && order[k] == spot;
    assert forall|i: int| 0 <= i < order.len() implies grid.contains_key(#[trigger] order[i]) by {
        assert(grid.dom().contains(order[i]));
    }
    assert(order.no_duplicates()) by {
        assert forall|i: int, j: int|
            0 <= i < order.len() && 0 <= j < order.len() && i != j implies order[i] != order[j] by {
            if i < j {
                assert(before(order[i], order[j]));
            } else {
                assert(before(order[j], order[i]));
            }
        }
    }
    law_lines_join_where_they_meet(grid, order, k);
    lemma_laid_follows(segments, focus, rects, viewport, spot);
    if y > 0 {
        lemma_laid_follows(segments, focus, rects, viewport, (x, y - 1));
    }
    if y + 1 < viewport.1 {
        lemma_laid_follows(segments, focus, rects, viewport, (x, y + 1));
    }
    if x > 0 {
        lemma_laid_follows(segments, focus, rects, viewport, (x - 1, y));
    }
    if x + 1 < viewport.0 {
        lemma_laid_follows(segments, focus, rects, viewport, (x + 1, y));
    }
}

/// A rectangle with cells borders a line exactly when one of its cells is beside
/// a cell of the line, across the line, and the rectangle does not reach over it
/// there.
pub proof fn law_a_bordering_rectangle_touches_the_line(r: Area, seg: SegmentView)
    requires
        r.w >= 1,
        r.h >= 1,
    ensures
        seg.split == SplitDir::Horizontal ==> (borders_line(r, seg) <==> exists|y: int|
            #[trigger] seg.covers(seg.cross, y) && !r.contains(seg.cross, y) && (r.contains(
                seg.cross + 1,
                y,
            ) || r.contains(seg.cross - 1, y))),
        seg.split == SplitDir::Vertical ==> (borders_line(r, seg) <==> exists|x: int|
            #[trigger] seg.covers(x, seg.cross) && !r.contains(x, seg.cross) && (r.contains(
                x,
                seg.cross + 1,
            ) || r.contains(x, seg.cross - 1))),
{
    if borders_line(r, seg) {
        match seg.split {
            SplitDir::Horizontal => {
                let y = if r.y >= seg.a0 {
                    r.y
                } else {
                    seg.a0
                };
                assert(seg.covers(seg.cross, y));
            },
            SplitDir::Vertical => {
                let x = if r.x >= seg.a0 {
                    r.x
                } else {
                    seg.a0
                };
                assert(seg.covers(x, seg.cross));
            },
        }
    }
}

/// A line is heavy exactly when a pane is focused, the pane is on one of the
/// line's sides, and its rectangle borders the line.
pub proof fn law_a_line_is_heavy_along_the_focused_pane(
    seg: SegmentView,
    focus: Option<TerminalId>,
    rects: Seq<(TerminalId, Area)>,
)
    ensures
        touches_focus(seg, focus, rects) <==> focus is Some && (seg.low.contains(focus->0)
            || seg.high.contains(focus->0)) && rect_of(rects, focus->0) is Some
            && borders_line(rect_of(rects, focus->0)->0, seg),
{
}

/// A cell without an edge of its own toward a neighbour takes the one that the
/// neighbour points back with or, lacking that, the one it points on with; an
/// edge of its own it keeps.
pub proof fn law_a_joined_edge_has_its_neighbours_weight(grid: EdgeMap, spot: Spot)
    ensures
        ({
            let (x, y) = spot;
            let own = grid[spot];
            let now = joined(grid, spot);
            let n = edges_at(grid, (x, y - 1));
            let s = edges_at(grid, (x, y + 1));
            let e = edges_at(grid, (x + 1, y));
            let w = edges_at(grid, (x - 1, y));
            &&& own.north is Some ==> now.north == own.north
            &&& own.north is None && n.south is Some ==> now.north == n.south
            &&& own.north is None && n.south is None ==> now.north == n.north
            &&& own.south is Some ==> now.south == own.south
            &&& own.south is None && s.north is Some ==> now.south == s.north
            &&& own.south is None && s.north is None ==> now.south == s.south
            &&& own.east is Some ==> now.east == own.east
            &&& own.east is None && e.west is Some ==> now.east == e.west
            &&& own.east is None && e.west is None ==> now.east == e.east
            &&& own.west is Some ==> now.west == own.west
            &&& own.west is None && w.east is Some ==> now.west == w.east
            &&& own.west is None && w.east is None ==> now.west == w.west
        }),
{
}

} // verus!
