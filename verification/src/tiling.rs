//! Tiling a layout tree into a rectangle.
//!
//! A split spends one cell of its axis on a divider and shares the rest
//! between its two subtrees by its ratio. Sizes are frozen at each subtree's
//! minimum where the rectangle has room for both minimums, and are purely
//! proportional where it has not.
use vstd::prelude::*;

use crate::layout::{
    put_rect, put_rects, Area, LayoutNode, NodePath, NodeStep, PaneRects, Rect, SplitDir,
    TerminalId,
};
use crate::ratio::{share, split_dim, Ratio};

verus! {

/// The fewest columns a pane is frozen at.
pub const MIN_LEAF_COLS: u16 = 2;

/// The fewest rows a pane is frozen at.
pub const MIN_LEAF_ROWS: u16 = 1;

/// One divider: a vertical line (of a `Horizontal` split) or a horizontal line
/// (of a `Vertical` split), in outer-viewport cells.
#[derive(Debug, PartialEq, Eq)]
pub struct DividerSegment {
    /// The direction of the split, not of the line.
    pub split: SplitDir,
    /// First cell along the line.
    pub a0: u16,
    /// Last cell along the line.
    pub a1: u16,
    /// The line's column (of a vertical line) or row.
    pub cross: u16,
    /// Panes on the low side.
    pub low_leaves: Vec<TerminalId>,
    /// Panes on the high side.
    pub high_leaves: Vec<TerminalId>,
    /// The split this line divides.
    pub node_path: NodePath,
}

/// The mathematical content of a [`DividerSegment`].
#[verifier::ext_equal]
pub struct SegmentView {
    pub split: SplitDir,
    pub a0: int,
    pub a1: int,
    pub cross: int,
    pub low: Seq<TerminalId>,
    pub high: Seq<TerminalId>,
    pub path: Seq<NodeStep>,
}

impl View for DividerSegment {
    type V = SegmentView;

    open spec fn view(&self) -> SegmentView {
        SegmentView {
            split: self.split,
            a0: self.a0 as int,
            a1: self.a1 as int,
            cross: self.cross as int,
            low: self.low_leaves@,
            high: self.high_leaves@,
            path: self.node_path@,
        }
    }
}

/// The views of a list of segments.
pub open spec fn segment_views(segments: Seq<DividerSegment>) -> Seq<SegmentView> {
    Seq::new(segments.len(), |i: int| segments[i]@)
}

impl SegmentView {
    /// The cell at column `x`, row `y` is on the line.
    pub open spec fn covers(self, x: int, y: int) -> bool {
        match self.split {
            SplitDir::Horizontal => x == self.cross && self.a0 <= y <= self.a1,
            SplitDir::Vertical => y == self.cross && self.a0 <= x <= self.a1,
        }
    }
}

pub open spec fn max_of(a: int, b: int) -> int {
    if a >= b {
        a
    } else {
        b
    }
}

pub open spec fn min_of(a: int, b: int) -> int {
    if a <= b {
        a
    } else {
        b
    }
}

/// The fewest columns in which every pane of `node` keeps
/// [`MIN_LEAF_COLS`]: a horizontal split adds up its sides and its divider, a
/// vertical one takes the wider side.
pub open spec fn min_cols(node: LayoutNode) -> int
    decreases node,
{
    match node {
        LayoutNode::Leaf(_) => MIN_LEAF_COLS as int,
        LayoutNode::Split { dir, ratio, left, right } => match dir {
            SplitDir::Horizontal => min_cols(*left) + min_cols(*right) + 1,
            SplitDir::Vertical => max_of(min_cols(*left), min_cols(*right)),
        },
    }
}

/// The fewest rows in which every pane of `node` keeps [`MIN_LEAF_ROWS`].
pub open spec fn min_rows(node: LayoutNode) -> int
    decreases node,
{
    match node {
        LayoutNode::Leaf(_) => MIN_LEAF_ROWS as int,
        LayoutNode::Split { dir, ratio, left, right } => match dir {
            SplitDir::Horizontal => max_of(min_rows(*left), min_rows(*right)),
            SplitDir::Vertical => min_rows(*left) + min_rows(*right) + 1,
        },
    }
}

/// The low side's cells out of `content`: the ratio's share, held so that the
/// low side keeps `min_low` and the high side `min_high` whenever both fit.
pub open spec fn frozen_cut(content: int, ratio: Ratio, min_low: int, min_high: int) -> int {
    let asked = share(content as nat, ratio) as int;
    if min_low + min_high <= content {
        min_of(max_of(asked, min_low), content - min_high)
    } else {
        asked
    }
}

/// The cells of a split axis of `dim` cells that are left for its two sides.
pub open spec fn content_of(dim: int) -> int {
    if dim >= 1 {
        dim - 1
    } else {
        0
    }
}

/// The size of `area` along the axis that `dir` splits.
pub open spec fn axis_len(dir: SplitDir, area: Area) -> int {
    match dir {
        SplitDir::Horizontal => area.w,
        SplitDir::Vertical => area.h,
    }
}

/// The size of `area` across the axis that `dir` splits: the divider's length.
pub open spec fn cross_len(dir: SplitDir, area: Area) -> int {
    match dir {
        SplitDir::Horizontal => area.h,
        SplitDir::Vertical => area.w,
    }
}

/// The low side's cells of a split tiled into `area`.
pub open spec fn low_cells(
    dir: SplitDir,
    ratio: Ratio,
    left: LayoutNode,
    right: LayoutNode,
    area: Area,
    freeze: bool,
) -> int {
    let content = content_of(axis_len(dir, area));
    if freeze {
        match dir {
            SplitDir::Horizontal => frozen_cut(content, ratio, min_cols(left), min_cols(right)),
            SplitDir::Vertical => frozen_cut(content, ratio, min_rows(left), min_rows(right)),
        }
    } else {
        share(content as nat, ratio) as int
    }
}

/// The rectangle of the low side when it gets `cut` cells of the axis.
pub open spec fn low_area(dir: SplitDir, cut: int, area: Area) -> Area {
    match dir {
        SplitDir::Horizontal => Area { x: area.x, y: area.y, w: cut, h: area.h },
        SplitDir::Vertical => Area { x: area.x, y: area.y, w: area.w, h: cut },
    }
}

/// The rectangle of the high side: what is left past the divider cell. With no
/// cell for a divider it starts where the low side does.
pub open spec fn high_area(dir: SplitDir, cut: int, area: Area) -> Area {
    let size = content_of(axis_len(dir, area)) - cut;
    match dir {
        SplitDir::Horizontal => Area {
            x: if area.w >= 1 {
                area.x + cut + 1
            } else {
                area.x
            },
            y: area.y,
            w: size,
            h: area.h,
        },
        SplitDir::Vertical => Area {
            x: area.x,
            y: if area.h >= 1 {
                area.y + cut + 1
            } else {
                area.y
            },
            w: area.w,
            h: size,
        },
    }
}

/// The divider of a split tiled into `area`: one line across it when the axis has
/// a cell for it and the area has a length to lay it along. An area without cells
/// is invisible and has no divider.
pub open spec fn own_segment(
    dir: SplitDir,
    cut: int,
    left: LayoutNode,
    right: LayoutNode,
    area: Area,
    path: Seq<NodeStep>,
) -> Seq<SegmentView> {
    if axis_len(dir, area) < 1 || cross_len(dir, area) < 1 {
        Seq::empty()
    } else {
        let start = match dir {
            SplitDir::Horizontal => area.y,
            SplitDir::Vertical => area.x,
        };
        let cross = match dir {
            SplitDir::Horizontal => area.x + cut,
            SplitDir::Vertical => area.y + cut,
        };
        seq![
            SegmentView {
                split: dir,
                a0: start,
                a1: start + cross_len(dir, area) - 1,
                cross,
                low: left.leaves(),
                high: right.leaves(),
                path,
            },
        ]
    }
}

/// The dividers of `node` tiled into `area`, a split before its subtrees.
pub open spec fn tile_segments(
    node: LayoutNode,
    area: Area,
    path: Seq<NodeStep>,
    freeze: bool,
) -> Seq<SegmentView>
    decreases node,
{
    match node {
        LayoutNode::Leaf(_) => Seq::empty(),
        LayoutNode::Split { dir, ratio, left, right } => {
            let cut = low_cells(dir, ratio, *left, *right, area, freeze);
            own_segment(dir, cut, *left, *right, area, path) + tile_segments(
                *left,
                low_area(dir, cut, area),
                path.push(NodeStep::Left),
                freeze,
            ) + tile_segments(
                *right,
                high_area(dir, cut, area),
                path.push(NodeStep::Right),
                freeze,
            )
        },
    }
}

/// The rectangle of every pane of `node` tiled into `area`, low side first.
pub open spec fn tile_leaves(node: LayoutNode, area: Area, freeze: bool) -> Seq<(TerminalId, Area)>
    decreases node,
{
    match node {
        LayoutNode::Leaf(p) => seq![(p, area)],
        LayoutNode::Split { dir, ratio, left, right } => {
            let cut = low_cells(dir, ratio, *left, *right, area, freeze);
            tile_leaves(*left, low_area(dir, cut, area), freeze) + tile_leaves(
                *right,
                high_area(dir, cut, area),
                freeze,
            )
        },
    }
}

/// Every coordinate that tiling `node` into `area` computes is a `u16`.
pub open spec fn tiles_within_u16(node: LayoutNode, area: Area, freeze: bool) -> bool
    decreases node,
{
    match node {
        LayoutNode::Leaf(_) => true,
        LayoutNode::Split { dir, ratio, left, right } => {
            let cut = low_cells(dir, ratio, *left, *right, area, freeze);
            let low = low_area(dir, cut, area);
            let high = high_area(dir, cut, area);
            &&& area.x + content_of(area.w) <= u16::MAX
            &&& area.y + content_of(area.h) <= u16::MAX
            &&& high.x <= u16::MAX
            &&& high.y <= u16::MAX
            &&& tiles_within_u16(*left, low, freeze)
            &&& tiles_within_u16(*right, high, freeze)
        },
    }
}

/// A rectangle whose far edges are `u16` coordinates holds every tree.
pub proof fn lemma_fitting_area_tiles(node: LayoutNode, area: Area, freeze: bool)
    requires
        area.fits(),
    ensures
        tiles_within_u16(node, area, freeze),
    decreases node,
{
    match node {
        LayoutNode::Leaf(_) => {},
        LayoutNode::Split { dir, ratio, left, right } => {
            let cut = low_cells(dir, ratio, *left, *right, area, freeze);
            lemma_cut_bounds(dir, ratio, *left, *right, area, freeze);
            lemma_fitting_area_tiles(*left, low_area(dir, cut, area), freeze);
            lemma_fitting_area_tiles(*right, high_area(dir, cut, area), freeze);
        },
    }
}

pub proof fn lemma_min_positive(node: LayoutNode)
    ensures
        min_cols(node) >= MIN_LEAF_COLS,
        min_rows(node) >= MIN_LEAF_ROWS,
    decreases node,
{
    match node {
        LayoutNode::Leaf(_) => {},
        LayoutNode::Split { dir, ratio, left, right } => {
            lemma_min_positive(*left);
            lemma_min_positive(*right);
        },
    }
}

proof fn lemma_share_bound(total: nat, ratio: Ratio)
    ensures
        share(total, ratio) <= total,
{
}

/// A cut never leaves its axis.
pub proof fn lemma_cut_bounds(
    dir: SplitDir,
    ratio: Ratio,
    left: LayoutNode,
    right: LayoutNode,
    area: Area,
    freeze: bool,
)
    requires
        0 <= area.w,
        0 <= area.h,
    ensures
        0 <= low_cells(dir, ratio, left, right, area, freeze) <= content_of(axis_len(dir, area)),
{
    lemma_share_bound(content_of(axis_len(dir, area)) as nat, ratio);
    lemma_min_positive(left);
    lemma_min_positive(right);
}

/// The fewest columns and rows in which every pane keeps its floor, held to
/// the largest `u16`.
pub fn min_dims(node: &LayoutNode) -> (dims: (u16, u16))
    ensures
        dims.0 == min_of(min_cols(*node), u16::MAX as int),
        dims.1 == min_of(min_rows(*node), u16::MAX as int),
    decreases *node,
{
    match node {
        LayoutNode::Leaf(_) => (MIN_LEAF_COLS, MIN_LEAF_ROWS),
        LayoutNode::Split { dir, ratio: _, left, right } => {
            proof {
                lemma_min_positive(**left);
                lemma_min_positive(**right);
            }
            let (lw, lh) = min_dims(left);
            let (rw, rh) = min_dims(right);
            match dir {
                SplitDir::Horizontal => (
                    lw.saturating_add(rw).saturating_add(1),
                    if lh >= rh {
                        lh
                    } else {
                        rh
                    },
                ),
                SplitDir::Vertical => (
                    if lw >= rw {
                        lw
                    } else {
                        rw
                    },
                    lh.saturating_add(rh).saturating_add(1),
                ),
            }
        },
    }
}

/// The low side's share of `content`, kept between the two sides' minimums
/// when `content` covers both and purely proportional when it does not.
pub fn freeze_split_dim(content: u16, ratio: Ratio, min_low: u16, min_high: u16) -> (cells: u16)
    ensures
        cells == frozen_cut(content as int, ratio, min_low as int, min_high as int),
        cells <= content,
{
    let low = split_dim(content, ratio);
    match min_low.checked_add(min_high) {
        Some(needed) if content >= needed => {
            let top: u16 = content - min_high;
            if low < min_low {
                min_low
            } else if low > top {
                top
            } else {
                low
            }
        },
        _ => low,
    }
}

/// Append the panes of `node`, low side first.
fn collect_leaves_into(node: &LayoutNode, out: &mut Vec<TerminalId>)
    ensures
        final(out)@ == old(out)@ + node.leaves(),
    decreases *node,
{
    match node {
        LayoutNode::Leaf(p) => {
            out.push(*p);
            proof {
                assert(out@ =~= old(out)@ + node.leaves());
            }
        },
        LayoutNode::Split { dir: _, ratio: _, left, right } => {
            collect_leaves_into(left, out);
            collect_leaves_into(right, out);
            proof {
                assert(out@ =~= old(out)@ + node.leaves());
            }
        },
    }
}

/// The panes of `node`, low side first.
pub fn collect_leaves(node: &LayoutNode) -> (out: Vec<TerminalId>)
    ensures
        out@ == node.leaves(),
{
    let mut out: Vec<TerminalId> = Vec::new();
    collect_leaves_into(node, &mut out);
    proof {
        assert(out@ =~= node.leaves());
    }
    out
}

/// The low side's cells of a split tiled into `bounds`.
fn low_cells_of(
    dir: SplitDir,
    ratio: Ratio,
    left: &LayoutNode,
    right: &LayoutNode,
    bounds: Rect,
    freeze: bool,
) -> (cut: u16)
    ensures
        cut == low_cells(dir, ratio, *left, *right, bounds@, freeze),
        cut <= content_of(axis_len(dir, bounds@)),
{
    proof {
        lemma_cut_bounds(dir, ratio, *left, *right, bounds@, freeze);
        lemma_min_positive(*left);
        lemma_min_positive(*right);
    }
    let len: u16 = match dir {
        SplitDir::Horizontal => bounds.w,
        SplitDir::Vertical => bounds.h,
    };
    let content: u16 = len.saturating_sub(1);
    if freeze {
        let low = min_dims(left);
        let high = min_dims(right);
        match dir {
            SplitDir::Horizontal => freeze_split_dim(content, ratio, low.0, high.0),
            SplitDir::Vertical => freeze_split_dim(content, ratio, low.1, high.1),
        }
    } else {
        split_dim(content, ratio)
    }
}

proof fn lemma_put_rects_concat(
    entries: Seq<(TerminalId, Area)>,
    a: Seq<(TerminalId, Area)>,
    b: Seq<(TerminalId, Area)>,
)
    ensures
        put_rects(entries, a + b) == put_rects(put_rects(entries, a), b),
    decreases a.len(),
{
    if a.len() == 0 {
        assert(a + b =~= b);
    } else {
        assert((a + b).drop_first() =~= a.drop_first() + b);
        lemma_put_rects_concat(put_rect(entries, a[0].0, a[0].1), a.drop_first(), b);
    }
}

/// Tile `node` into `bounds`, appending its dividers and placing its panes.
/// `path` names `node`; `freeze` keeps subtrees at their minimums.
fn walk_layout_at(
    node: &LayoutNode,
    bounds: Rect,
    path: &mut NodePath,
    segments: &mut Vec<DividerSegment>,
    rects: &mut PaneRects,
    freeze: bool,
)
    requires
        tiles_within_u16(*node, bounds@, freeze),
    ensures
        segment_views(final(segments)@) == segment_views(old(segments)@) + tile_segments(
            *node,
            bounds@,
            old(path)@,
            freeze,
        ),
        final(rects)@ == put_rects(old(rects)@, tile_leaves(*node, bounds@, freeze)),
        old(rects).wf() ==> final(rects).wf(),
        final(path)@ == old(path)@,
    decreases *node,
{
    match node {
        LayoutNode::Leaf(p) => {
            rects.insert(*p, bounds);
            proof {
                let leaves = tile_leaves(*node, bounds@, freeze);
                assert(leaves.drop_first() =~= Seq::<(TerminalId, Area)>::empty());
                reveal_with_fuel(put_rects, 2);
                assert(segment_views(segments@) =~= segment_views(old(segments)@)
                    + tile_segments(*node, bounds@, old(path)@, freeze));
            }
        },
        LayoutNode::Split { dir, ratio, left, right } => {
            let cut = low_cells_of(*dir, *ratio, left, right, bounds, freeze);
            let ghost before = segment_views(segments@);
            let ghost own = own_segment(*dir, cut as int, **left, **right, bounds@, path@);
            // A cell of the axis is set apart for the divider where there is one;
            // the line itself needs cells on both axes.
            let has_cell = match dir {
                SplitDir::Horizontal => bounds.w >= 1,
                SplitDir::Vertical => bounds.h >= 1,
            };
            let has_divider = bounds.w >= 1 && bounds.h >= 1;
            let (low, high, start, end, cross) = match dir {
                SplitDir::Horizontal => (
                    Rect { x: bounds.x, y: bounds.y, w: cut, h: bounds.h },
                    Rect {
                        x: if has_cell {
                            bounds.x + cut + 1
                        } else {
                            bounds.x
                        },
                        y: bounds.y,
                        w: bounds.w.saturating_sub(1) - cut,
                        h: bounds.h,
                    },
                    bounds.y,
                    bounds.y + bounds.h.saturating_sub(1),
                    bounds.x + cut,
                ),
                SplitDir::Vertical => (
                    Rect { x: bounds.x, y: bounds.y, w: bounds.w, h: cut },
                    Rect {
                        x: bounds.x,
                        y: if has_cell {
                            bounds.y + cut + 1
                        } else {
                            bounds.y
                        },
                        w: bounds.w,
                        h: bounds.h.saturating_sub(1) - cut,
                    },
                    bounds.x,
                    bounds.x + bounds.w.saturating_sub(1),
                    bounds.y + cut,
                ),
            };
            if has_divider {
                let segment = DividerSegment {
                    split: *dir,
                    a0: start,
                    a1: end,
                    cross,
                    low_leaves: collect_leaves(left),
                    high_leaves: collect_leaves(right),
                    node_path: path.duplicate(),
                };
                segments.push(segment);
            }
            proof {
                assert(low@ == low_area(*dir, cut as int, bounds@));
                assert(high@ == high_area(*dir, cut as int, bounds@));
                assert(segment_views(segments@) =~= before + own);
            }
            path.push(NodeStep::Left);
            walk_layout_at(left, low, path, segments, rects, freeze);
            path.pop();
            proof {
                assert(path@ =~= old(path)@);
            }
            path.push(NodeStep::Right);
            walk_layout_at(right, high, path, segments, rects, freeze);
            path.pop();
            proof {
                assert(path@ =~= old(path)@);
                lemma_put_rects_concat(
                    old(rects)@,
                    tile_leaves(**left, low@, freeze),
                    tile_leaves(**right, high@, freeze),
                );
                assert(segment_views(segments@) =~= before + tile_segments(
                    *node,
                    bounds@,
                    old(path)@,
                    freeze,
                ));
            }
        },
    }
}

/// Tile `node` into `bounds` with subtrees frozen at their minimums: append
/// its dividers to `segments` and place its panes in `rects`.
pub fn walk_layout(
    node: &LayoutNode,
    bounds: Rect,
    segments: &mut Vec<DividerSegment>,
    rects: &mut PaneRects,
)
    requires
        bounds@.fits() || tiles_within_u16(*node, bounds@, true),
    ensures
        segment_views(final(segments)@) == segment_views(old(segments)@) + tile_segments(
            *node,
            bounds@,
            Seq::empty(),
            true,
        ),
        final(rects)@ == put_rects(old(rects)@, tile_leaves(*node, bounds@, true)),
        old(rects).wf() ==> final(rects).wf(),
{
    proof {
        if bounds@.fits() {
            lemma_fitting_area_tiles(*node, bounds@, true);
        }
    }
    let mut path = NodePath::root();
    walk_layout_at(node, bounds, &mut path, segments, rects, true);
}

/// [`walk_layout`] without the minimums: what the ratios alone ask for.
pub fn walk_layout_proportional(
    node: &LayoutNode,
    bounds: Rect,
    segments: &mut Vec<DividerSegment>,
    rects: &mut PaneRects,
)
    requires
        bounds@.fits() || tiles_within_u16(*node, bounds@, false),
    ensures
        segment_views(final(segments)@) == segment_views(old(segments)@) + tile_segments(
            *node,
            bounds@,
            Seq::empty(),
            false,
        ),
        final(rects)@ == put_rects(old(rects)@, tile_leaves(*node, bounds@, false)),
        old(rects).wf() ==> final(rects).wf(),
{
    proof {
        if bounds@.fits() {
            lemma_fitting_area_tiles(*node, bounds@, false);
        }
    }
    let mut path = NodePath::root();
    walk_layout_at(node, bounds, &mut path, segments, rects, false);
}

} // verus!
