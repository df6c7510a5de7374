//! A layout tree made concrete for one viewport: where each pane sits, which
//! cells are dividers, and which split each divider cell grabs.
use vstd::prelude::*;

use crate::layout::{put_rects, Area, LayoutNode, LayoutState, PaneRects, Rect, TerminalId};
use crate::rasterize::{
    divider_hits, joined_grid, line_cells, rasterize, resolves, DividerCell, DividerHit, HitView,
};
use crate::tiling::{
    segment_views, tile_leaves, tile_segments, tiles_within_u16, walk_layout, DividerSegment,
    SegmentView,
};
use crate::tiling_laws::{law_panes_stay_in_bounds, lemma_found_pane_was_placed};

verus! {

/// The layout of one frame.
#[derive(Debug, PartialEq, Eq)]
pub struct PaneLayout {
    /// The outer viewport, columns and rows.
    pub viewport: (u16, u16),
    /// Each pane's rectangle.
    pub rects: PaneRects,
    /// The divider cells with their glyphs, row by row.
    pub dividers: Vec<DividerCell>,
    /// The grab target of each split.
    pub divider_hits: Vec<DividerHit>,
}

/// The panes of a layout tiled into `area`.
pub open spec fn placed_panes(tree: Option<LayoutNode>, area: Area) -> Seq<(TerminalId, Area)> {
    match tree {
        None => Seq::empty(),
        Some(node) => put_rects(Seq::empty(), tile_leaves(node, area, true)),
    }
}

/// The divider lines of a layout tiled into `area`.
pub open spec fn divider_lines(tree: Option<LayoutNode>, area: Area) -> Seq<SegmentView> {
    match tree {
        None => Seq::empty(),
        Some(node) => tile_segments(node, area, Seq::empty(), true),
    }
}

/// Every coordinate of the tiling is a `u16`: always so where the area's far
/// edges are.
pub open spec fn tileable(tree: Option<LayoutNode>, area: Area) -> bool {
    area.fits() || match tree {
        None => true,
        Some(node) => tiles_within_u16(node, area, true),
    }
}

/// Every pane's right edge is a `u16` coordinate.
pub open spec fn panes_fit(panes: Seq<(TerminalId, Area)>) -> bool {
    forall|i: int|
        0 <= i < panes.len() ==> (#[trigger] panes[i]).1.x + panes[i].1.w <= u16::MAX
}

proof fn lemma_panes_fit(tree: Option<LayoutNode>, area: Area)
    requires
        area.fits(),
    ensures
        panes_fit(placed_panes(tree, area)),
{
    if let Some(node) = tree {
        let leaves = tile_leaves(node, area, true);
        let panes = placed_panes(tree, area);
        assert forall|i: int| 0 <= i < panes.len() implies (#[trigger] panes[i]).1.x + panes[i].1.w
            <= u16::MAX by {
            lemma_found_pane_was_placed(leaves, i);
            let j = choose|j: int| 0 <= j < leaves.len() && leaves[j] == panes[i];
            law_panes_stay_in_bounds(node, area, true, j);
        }
    }
}

/// `layout` is `tree` tiled into `area` and seen through `viewport`. Its
/// dividers are drawn in one stroke weight: emphasis is the painter's.
pub open spec fn is_layout_of(
    layout: PaneLayout,
    tree: Option<LayoutNode>,
    area: Area,
    viewport: (u16, u16),
) -> bool {
    let lines = divider_lines(tree, area);
    &&& layout.viewport == viewport
    &&& layout.rects.wf()
    &&& layout.rects@ == placed_panes(tree, area)
    &&& resolves(layout.dividers@, joined_grid(lines, None, layout.rects@, viewport))
    &&& layout.divider_hits@.len() == lines.len()
    &&& forall|i: int|
        0 <= i < lines.len() ==> (#[trigger] layout.divider_hits@[i])@ == (HitView {
            path: lines[i].path,
            axis: lines[i].split,
            cells: line_cells(lines[i], viewport),
        })
}

/// Tile a layout into the pane area `content` of a viewport.
pub fn compute_layout_in(state: &LayoutState, content: Rect, viewport: (u16, u16)) -> (layout:
    PaneLayout)
    requires
        tileable(state.tree, content@),
    ensures
        is_layout_of(layout, state.tree, content@, viewport),
        content@.fits() ==> panes_fit(layout.rects@),
{
    proof {
        if content@.fits() {
            lemma_panes_fit(state.tree, content@);
        }
    }
    let mut segments: Vec<DividerSegment> = Vec::new();
    let mut rects = PaneRects::new();
    proof {
        assert(segment_views(segments@) =~= Seq::<SegmentView>::empty());
    }
    match &state.tree {
        Some(node) => {
            walk_layout(node, content, &mut segments, &mut rects);
        },
        None => {},
    }
    proof {
        assert(segment_views(segments@) =~= divider_lines(state.tree, content@));
    }
    let dividers = rasterize(&segments, None, &rects, viewport);
    let hits = divider_hits(&segments, viewport);
    proof {
        assert forall|i: int|
            0 <= i < divider_lines(state.tree, content@).len() implies #[trigger] hits@[i]@ == (
        HitView {
            path: divider_lines(state.tree, content@)[i].path,
            axis: divider_lines(state.tree, content@)[i].split,
            cells: line_cells(divider_lines(state.tree, content@)[i], viewport),
        }) by {
            assert(segment_views(segments@)[i] == segments@[i]@);
        }
    }
    PaneLayout { viewport, rects, dividers, divider_hits: hits }
}

/// Tile a layout into the whole viewport.
pub fn compute_layout(state: &LayoutState, viewport: (u16, u16)) -> (layout: PaneLayout)
    ensures
        is_layout_of(
            layout,
            state.tree,
            Area { x: 0, y: 0, w: viewport.0 as int, h: viewport.1 as int },
            viewport,
        ),
        panes_fit(layout.rects@),
{
    let content = Rect { x: 0, y: 0, w: viewport.0, h: viewport.1 };
    compute_layout_in(state, content, viewport)
}

} // verus!
