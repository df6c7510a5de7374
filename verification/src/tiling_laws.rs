//! What holds of every tiling: it covers its rectangle exactly once, places
//! every pane, keeps the minimums where they fit, and rules off every pane
//! from the one above it.
use vstd::prelude::*;

use crate::layout::{
    lemma_put_rect_get, lemma_slot_of, put_rect, put_rects, rect_of, Area,
    LayoutNode, NodeStep, SplitDir, TerminalId,
};
use crate::ratio::{share, Ratio};
use crate::tiling::{
    high_area, lemma_cut_bounds, lemma_min_positive, low_area, low_cells,
    min_cols, min_rows, own_segment, tile_leaves, tile_segments, SegmentView, MIN_LEAF_COLS,
    MIN_LEAF_ROWS,
};

verus! {

/// How many of the rectangles contain the cell.
pub open spec fn leaf_cover(leaves: Seq<(TerminalId, Area)>, x: int, y: int) -> nat
    decreases leaves.len(),
{
    if leaves.len() == 0 {
        0
    } else {
        (if leaves[0].1.contains(x, y) {
            1nat
        } else {
            0nat
        }) + leaf_cover(leaves.drop_first(), x, y)
    }
}

/// How many of the lines cover the cell.
pub open spec fn segment_cover(segments: Seq<SegmentView>, x: int, y: int) -> nat
    decreases segments.len(),
{
    if segments.len() == 0 {
        0
    } else {
        (if segments[0].covers(x, y) {
            1nat
        } else {
            0nat
        }) + segment_cover(segments.drop_first(), x, y)
    }
}

proof fn lemma_leaf_cover_concat(
    a: Seq<(TerminalId, Area)>,
    b: Seq<(TerminalId, Area)>,
    x: int,
    y: int,
)
    ensures
        leaf_cover(a + b, x, y) == leaf_cover(a, x, y) + leaf_cover(b, x, y),
    decreases a.len(),
{
    if a.len() == 0 {
        assert(a + b =~= b);
    } else {
        assert((a + b).drop_first() =~= a.drop_first() + b);
        lemma_leaf_cover_concat(a.drop_first(), b, x, y);
    }
}

proof fn lemma_segment_cover_concat(a: Seq<SegmentView>, b: Seq<SegmentView>, x: int, y: int)
    ensures
        segment_cover(a + b, x, y) == segment_cover(a, x, y) + segment_cover(b, x, y),
    decreases a.len(),
{
    if a.len() == 0 {
        assert(a + b =~= b);
    } else {
        assert((a + b).drop_first() =~= a.drop_first() + b);
        lemma_segment_cover_concat(a.drop_first(), b, x, y);
    }
}

/// Exact tiling, whatever the bounds: every cell of the rectangle is in exactly
/// one pane or on exactly one divider, and no cell outside it is in a pane or on
/// a divider.
pub proof fn law_exact_tiling(
    node: LayoutNode,
    area: Area,
    path: Seq<NodeStep>,
    freeze: bool,
    x: int,
    y: int,
)
    requires
        0 <= area.w,
        0 <= area.h,
    ensures
        leaf_cover(tile_leaves(node, area, freeze), x, y) + segment_cover(
            tile_segments(node, area, path, freeze),
            x,
            y,
        ) == (if area.contains(x, y) {
            1nat
        } else {
            0nat
        }),
    decreases node,
{
    match node {
        LayoutNode::Leaf(p) => {
            let leaves = tile_leaves(node, area, freeze);
            assert(leaves.drop_first() =~= Seq::<(TerminalId, Area)>::empty());
            reveal_with_fuel(leaf_cover, 2);
        },
        LayoutNode::Split { dir, ratio, left, right } => {
            let cut = low_cells(dir, ratio, *left, *right, area, freeze);
            let low = low_area(dir, cut, area);
            let high = high_area(dir, cut, area);
            lemma_cut_bounds(dir, ratio, *left, *right, area, freeze);
            law_exact_tiling(*left, low, path.push(NodeStep::Left), freeze, x, y);
            law_exact_tiling(*right, high, path.push(NodeStep::Right), freeze, x, y);
            let own = own_segment(dir, cut, *left, *right, area, path);
            let ls = tile_segments(*left, low, path.push(NodeStep::Left), freeze);
            let rs = tile_segments(*right, high, path.push(NodeStep::Right), freeze);
            lemma_segment_cover_concat(own + ls, rs, x, y);
            lemma_segment_cover_concat(own, ls, x, y);
            lemma_leaf_cover_concat(
                tile_leaves(*left, low, freeze),
                tile_leaves(*right, high, freeze),
                x,
                y,
            );
            if own.len() > 0 {
                assert(own.drop_first() =~= Seq::<SegmentView>::empty());
            }
            reveal_with_fuel(segment_cover, 2);
        },
    }
}

/// Every pane is placed: the placements are the tree's panes, in order.
pub proof fn law_every_pane_is_tiled(node: LayoutNode, area: Area, freeze: bool)
    ensures
        tile_leaves(node, area, freeze).len() == node.leaves().len(),
        forall|i: int|
            0 <= i < node.leaves().len() ==> (#[trigger] tile_leaves(node, area, freeze)[i]).0
                == node.leaves()[i],
    decreases node,
{
    match node {
        LayoutNode::Leaf(p) => {},
        LayoutNode::Split { dir, ratio, left, right } => {
            let cut = low_cells(dir, ratio, *left, *right, area, freeze);
            law_every_pane_is_tiled(*left, low_area(dir, cut, area), freeze);
            law_every_pane_is_tiled(*right, high_area(dir, cut, area), freeze);
        },
    }
}

/// A lookup finds every pane just placed: the last placement of its id.
proof fn lemma_placed_pane_is_found(
    entries: Seq<(TerminalId, Area)>,
    more: Seq<(TerminalId, Area)>,
    k: int,
)
    requires
        0 <= k < more.len(),
    ensures
        rect_of(put_rects(entries, more), more[k].0) is Some,
        (forall|j: int| k < j < more.len() ==> (#[trigger] more[j]).0 != more[k].0) ==> rect_of(
            put_rects(entries, more),
            more[k].0,
        ) == Some(more[k].1),
    decreases more.len(),
{
    let first = put_rect(entries, more[0].0, more[0].1);
    let rest = more.drop_first();
    if k > 0 {
        assert(rest[k - 1] == more[k]);
        lemma_placed_pane_is_found(first, rest, k - 1);
        if forall|j: int| k < j < more.len() ==> (#[trigger] more[j]).0 != more[k].0 {
            assert forall|j: int| k - 1 < j < rest.len() implies (#[trigger] rest[j]).0 != rest[k
                - 1].0 by {
                assert(rest[j] == more[j + 1]);
            }
        }
    } else {
        lemma_put_rect_get(entries, more[0].0, more[0].1, more[0].0);
        lemma_lookup_survives(first, rest, more[0].0);
        if forall|j: int| k < j < more.len() ==> (#[trigger] more[j]).0 != more[k].0 {
            assert forall|j: int| 0 <= j < rest.len() implies (#[trigger] rest[j]).0 != more[0].0 by {
                assert(rest[j] == more[j + 1]);
            }
        }
    }
}

proof fn lemma_lookup_survives(
    entries: Seq<(TerminalId, Area)>,
    more: Seq<(TerminalId, Area)>,
    id: TerminalId,
)
    requires
        rect_of(entries, id) is Some,
    ensures
        rect_of(put_rects(entries, more), id) is Some,
        (forall|j: int| 0 <= j < more.len() ==> (#[trigger] more[j]).0 != id) ==> rect_of(
            put_rects(entries, more),
            id,
        ) == rect_of(entries, id),
    decreases more.len(),
{
    if more.len() > 0 {
        let first = put_rect(entries, more[0].0, more[0].1);
        lemma_put_rect_get(entries, more[0].0, more[0].1, id);
        lemma_lookup_survives(first, more.drop_first(), id);
        if forall|j: int| 0 <= j < more.len() ==> (#[trigger] more[j]).0 != id {
            assert(more[0].0 != id);
            assert forall|j: int| 0 <= j < more.drop_first().len() implies (
            #[trigger] more.drop_first()[j]).0 != id by {
                assert(more.drop_first()[j] == more[j + 1]);
            }
        }
    }
}

/// Every pane of the tree receives a rectangle, however small the bounds; a
/// pane that occurs once in the tree receives the one the tiling gives it.
pub proof fn law_every_pane_receives_a_rect(
    entries: Seq<(TerminalId, Area)>,
    node: LayoutNode,
    area: Area,
    freeze: bool,
    k: int,
)
    requires
        0 <= k < node.leaves().len(),
    ensures
        rect_of(put_rects(entries, tile_leaves(node, area, freeze)), node.leaves()[k]) is Some,
        (forall|j: int|
            0 <= j < node.leaves().len() && j != k ==> #[trigger] node.leaves()[j]
                != node.leaves()[k]) ==> rect_of(
            put_rects(entries, tile_leaves(node, area, freeze)),
            node.leaves()[k],
        ) == Some(tile_leaves(node, area, freeze)[k].1),
{
    law_every_pane_is_tiled(node, area, freeze);
    let more = tile_leaves(node, area, freeze);
    assert(more[k].0 == node.leaves()[k]);
    lemma_placed_pane_is_found(entries, more, k);
    if forall|j: int|
        0 <= j < node.leaves().len() && j != k ==> #[trigger] node.leaves()[j]
            != node.leaves()[k] {
        assert forall|j: int| k < j < more.len() implies (#[trigger] more[j]).0 != more[k].0 by {
            assert(more[j].0 == node.leaves()[j]);
        }
    }
}

/// A lookup among freshly placed panes gives one of the placements.
pub proof fn lemma_found_pane_was_placed(more: Seq<(TerminalId, Area)>, i: int)
    requires
        0 <= i < put_rects(Seq::empty(), more).len(),
    ensures
        more.contains(put_rects(Seq::empty(), more)[i]),
{
    lemma_entries_come_from(Seq::empty(), more, i);
}

proof fn lemma_entries_come_from(
    entries: Seq<(TerminalId, Area)>,
    more: Seq<(TerminalId, Area)>,
    i: int,
)
    requires
        0 <= i < put_rects(entries, more).len(),
    ensures
        more.contains(put_rects(entries, more)[i]) || entries.contains(
            put_rects(entries, more)[i],
        ),
    decreases more.len(),
{
    let e = put_rects(entries, more)[i];
    if more.len() > 0 {
        let first = put_rect(entries, more[0].0, more[0].1);
        let rest = more.drop_first();
        lemma_entries_come_from(first, rest, i);
        lemma_slot_of(entries, more[0].0);
        if rest.contains(e) {
            let j = choose|j: int| 0 <= j < rest.len() && rest[j] == e;
            assert(more[j + 1] == e);
        } else {
            let j = choose|j: int| 0 <= j < first.len() && first[j] == e;
            if first[j] == (more[0].0, more[0].1) {
                assert(more[0] == e);
            } else {
                assert(entries[j] == e);
            }
        }
    } else {
        assert(entries[i] == e);
    }
}

/// Every pane lies within the bounds it was tiled into.
pub proof fn law_panes_stay_in_bounds(node: LayoutNode, area: Area, freeze: bool, i: int)
    requires
        0 <= area.w,
        0 <= area.h,
        0 <= i < tile_leaves(node, area, freeze).len(),
    ensures
        ({
            let pane = tile_leaves(node, area, freeze)[i].1;
            &&& area.x <= pane.x
            &&& area.y <= pane.y
            &&& 0 <= pane.w
            &&& 0 <= pane.h
            &&& pane.x + pane.w <= area.x + area.w
            &&& pane.y + pane.h <= area.y + area.h
        }),
    decreases node,
{
    match node {
        LayoutNode::Leaf(p) => {},
        LayoutNode::Split { dir, ratio, left, right } => {
            let cut = low_cells(dir, ratio, *left, *right, area, freeze);
            let low = low_area(dir, cut, area);
            let high = high_area(dir, cut, area);
            lemma_cut_bounds(dir, ratio, *left, *right, area, freeze);
            let n = tile_leaves(*left, low, freeze).len();
            if i < n {
                law_panes_stay_in_bounds(*left, low, freeze, i);
            } else {
                law_panes_stay_in_bounds(*right, high, freeze, i - n);
            }
        },
    }
}

/// Minimums hold: bounds that cover a tree's aggregate minimum give every pane
/// its floor.
pub proof fn law_minimums_hold(node: LayoutNode, area: Area)
    requires
        area.w >= min_cols(node),
        area.h >= min_rows(node),
    ensures
        all_at_floor(tile_leaves(node, area, true)),
    decreases node,
{
    match node {
        LayoutNode::Leaf(p) => {
            lemma_min_positive(node);
            assert(tile_leaves(node, area, true) =~= seq![(p, area)]);
        },
        LayoutNode::Split { dir, ratio, left, right } => {
            lemma_min_positive(node);
            lemma_min_positive(*left);
            lemma_min_positive(*right);
            let cut = low_cells(dir, ratio, *left, *right, area, true);
            let low = low_area(dir, cut, area);
            let high = high_area(dir, cut, area);
            law_minimums_hold(*left, low);
            law_minimums_hold(*right, high);
            let ll = tile_leaves(*left, low, true);
            let rl = tile_leaves(*right, high, true);
            assert(tile_leaves(node, area, true) == ll + rl);
            assert forall|i: int| 0 <= i < tile_leaves(node, area, true).len() implies {
                &&& (#[trigger] tile_leaves(node, area, true)[i]).1.w >= MIN_LEAF_COLS
                &&& tile_leaves(node, area, true)[i].1.h >= MIN_LEAF_ROWS
            } by {
                if i < ll.len() {
                    assert((ll + rl)[i] == ll[i]);
                } else {
                    assert((ll + rl)[i] == rl[i - ll.len()]);
                }
            }
        },
    }
}

/// The row above a pane is never another pane's: it is either the row above
/// the whole tiling or a divider running over the pane's full width.
pub proof fn law_a_rule_runs_above_each_pane(
    node: LayoutNode,
    area: Area,
    path: Seq<NodeStep>,
    freeze: bool,
    i: int,
    x: int,
)
    requires
        0 <= area.w,
        0 <= area.h,
        0 <= i < tile_leaves(node, area, freeze).len(),
        tile_leaves(node, area, freeze)[i].1.x <= x < tile_leaves(node, area, freeze)[i].1.x
            + tile_leaves(node, area, freeze)[i].1.w,
    ensures
        ({
            let pane = tile_leaves(node, area, freeze)[i].1;
            pane.y == area.y || segment_cover(
                tile_segments(node, area, path, freeze),
                x,
                pane.y - 1,
            ) > 0
        }),
    decreases node,
{
    match node {
        LayoutNode::Leaf(p) => {},
        LayoutNode::Split { dir, ratio, left, right } => {
            let cut = low_cells(dir, ratio, *left, *right, area, freeze);
            let low = low_area(dir, cut, area);
            let high = high_area(dir, cut, area);
            lemma_cut_bounds(dir, ratio, *left, *right, area, freeze);
            let own = own_segment(dir, cut, *left, *right, area, path);
            let ls = tile_segments(*left, low, path.push(NodeStep::Left), freeze);
            let rs = tile_segments(*right, high, path.push(NodeStep::Right), freeze);
            let pane = tile_leaves(node, area, freeze)[i].1;
            lemma_segment_cover_concat(own + ls, rs, x, pane.y - 1);
            lemma_segment_cover_concat(own, ls, x, pane.y - 1);
            law_panes_stay_in_bounds(node, area, freeze, i);
            let n = tile_leaves(*left, low, freeze).len();
            if i < n {
                law_a_rule_runs_above_each_pane(
                    *left,
                    low,
                    path.push(NodeStep::Left),
                    freeze,
                    i,
                    x,
                );
            } else {
                law_a_rule_runs_above_each_pane(
                    *right,
                    high,
                    path.push(NodeStep::Right),
                    freeze,
                    i - n,
                    x,
                );
                if pane.y == high.y && pane.y != area.y {
                    assert(own[0].covers(x, pane.y - 1));
                    reveal_with_fuel(segment_cover, 2);
                }
            }
        },
    }
}

proof fn lemma_two_leaves_cover(leaves: Seq<(TerminalId, Area)>, i: int, j: int, x: int, y: int)
    requires
        0 <= i < j < leaves.len(),
        leaves[i].1.contains(x, y),
        leaves[j].1.contains(x, y),
    ensures
        leaf_cover(leaves, x, y) >= 2,
    decreases leaves.len(),
{
    let rest = leaves.drop_first();
    assert(rest[j - 1] == leaves[j]);
    if i > 0 {
        assert(rest[i - 1] == leaves[i]);
        lemma_two_leaves_cover(rest, i - 1, j - 1, x, y);
    } else {
        lemma_leaf_covers(rest, j - 1, x, y);
    }
}

/// A pane that contains a cell counts among those that cover it.
pub proof fn lemma_leaf_covers(leaves: Seq<(TerminalId, Area)>, i: int, x: int, y: int)
    requires
        0 <= i < leaves.len(),
        leaves[i].1.contains(x, y),
    ensures
        leaf_cover(leaves, x, y) > 0,
    decreases leaves.len(),
{
    if i > 0 {
        assert(leaves.drop_first()[i - 1] == leaves[i]);
        lemma_leaf_covers(leaves.drop_first(), i - 1, x, y);
    }
}

/// Titles do not collide: two panes that are at least a row high and share a
/// column start in different rows, so no cell of the rules above them is claimed
/// by both titles, in whatever order they are drawn.
pub proof fn law_titles_of_visible_panes_never_collide(
    node: LayoutNode,
    area: Area,
    freeze: bool,
    i: int,
    j: int,
    x: int,
)
    requires
        0 <= area.w,
        0 <= area.h,
        0 <= i < j < tile_leaves(node, area, freeze).len(),
        tile_leaves(node, area, freeze)[i].1.h >= 1,
        tile_leaves(node, area, freeze)[j].1.h >= 1,
        tile_leaves(node, area, freeze)[i].1.x <= x < tile_leaves(node, area, freeze)[i].1.x
            + tile_leaves(node, area, freeze)[i].1.w,
        tile_leaves(node, area, freeze)[j].1.x <= x < tile_leaves(node, area, freeze)[j].1.x
            + tile_leaves(node, area, freeze)[j].1.w,
    ensures
        tile_leaves(node, area, freeze)[i].1.y != tile_leaves(node, area, freeze)[j].1.y,
{
    let leaves = tile_leaves(node, area, freeze);
    if leaves[i].1.y == leaves[j].1.y {
        lemma_two_leaves_cover(leaves, i, j, x, leaves[i].1.y);
        law_exact_tiling(node, area, Seq::empty(), freeze, x, leaves[i].1.y);
    }
}

/// Every pane has its floor.
pub open spec fn all_at_floor(leaves: Seq<(TerminalId, Area)>) -> bool {
    forall|i: int|
        0 <= i < leaves.len() ==> {
            &&& (#[trigger] leaves[i]).1.w >= MIN_LEAF_COLS
            &&& leaves[i].1.h >= MIN_LEAF_ROWS
        }
}

proof fn lemma_at_floor_split(a: Seq<(TerminalId, Area)>, b: Seq<(TerminalId, Area)>)
    requires
        all_at_floor(a + b),
    ensures
        all_at_floor(a),
        all_at_floor(b),
{
    assert forall|i: int| 0 <= i < a.len() implies {
        &&& (#[trigger] a[i]).1.w >= MIN_LEAF_COLS
        &&& a[i].1.h >= MIN_LEAF_ROWS
    } by {
        assert((a + b)[i] == a[i]);
    }
    assert forall|i: int| 0 <= i < b.len() implies {
        &&& (#[trigger] b[i]).1.w >= MIN_LEAF_COLS
        &&& b[i].1.h >= MIN_LEAF_ROWS
    } by {
        assert((a + b)[a.len() + i] == b[i]);
    }
}

/// The aggregate minimum is the smallest that will do, frozen or not: bounds
/// below it in either direction leave some pane short of its floor.
pub proof fn law_below_the_minimum_some_pane_is_short(node: LayoutNode, area: Area, freeze: bool)
    requires
        0 <= area.w,
        0 <= area.h,
        area.w < min_cols(node) || area.h < min_rows(node),
    ensures
        !all_at_floor(tile_leaves(node, area, freeze)),
{
    if all_at_floor(tile_leaves(node, area, freeze)) {
        lemma_floors_need_the_minimum(node, area, freeze);
    }
}

proof fn lemma_floors_need_the_minimum(node: LayoutNode, area: Area, freeze: bool)
    requires
        0 <= area.w,
        0 <= area.h,
        all_at_floor(tile_leaves(node, area, freeze)),
    ensures
        area.w >= min_cols(node),
        area.h >= min_rows(node),
    decreases node,
{
    match node {
        LayoutNode::Leaf(p) => {
            let leaves = tile_leaves(node, area, freeze);
            assert(leaves[0] == (p, area));
        },
        LayoutNode::Split { dir, ratio, left, right } => {
            let cut = low_cells(dir, ratio, *left, *right, area, freeze);
            let low = low_area(dir, cut, area);
            let high = high_area(dir, cut, area);
            lemma_cut_bounds(dir, ratio, *left, *right, area, freeze);
            lemma_at_floor_split(
                tile_leaves(*left, low, freeze),
                tile_leaves(*right, high, freeze),
            );
            lemma_floors_need_the_minimum(*left, low, freeze);
            lemma_floors_need_the_minimum(*right, high, freeze);
            lemma_min_positive(*left);
            lemma_min_positive(*right);
        },
    }
}

/// Freezing only ever redistributes: where the ratios alone give every pane its
/// floor, the frozen tiling is the proportional one.
pub proof fn law_freezing_changes_nothing_above_the_floors(
    node: LayoutNode,
    area: Area,
    path: Seq<NodeStep>,
)
    requires
        0 <= area.w,
        0 <= area.h,
        all_at_floor(tile_leaves(node, area, false)),
    ensures
        tile_leaves(node, area, true) == tile_leaves(node, area, false),
        tile_segments(node, area, path, true) == tile_segments(node, area, path, false),
    decreases node,
{
    match node {
        LayoutNode::Leaf(p) => {},
        LayoutNode::Split { dir, ratio, left, right } => {
            let cut = low_cells(dir, ratio, *left, *right, area, false);
            let low = low_area(dir, cut, area);
            let high = high_area(dir, cut, area);
            lemma_cut_bounds(dir, ratio, *left, *right, area, false);
            lemma_at_floor_split(
                tile_leaves(*left, low, false),
                tile_leaves(*right, high, false),
            );
            lemma_floors_need_the_minimum(*left, low, false);
            lemma_floors_need_the_minimum(*right, high, false);
            lemma_min_positive(*left);
            lemma_min_positive(*right);
            assert(low_cells(dir, ratio, *left, *right, area, true) == cut);
            law_freezing_changes_nothing_above_the_floors(
                *left,
                low,
                path.push(NodeStep::Left),
            );
            law_freezing_changes_nothing_above_the_floors(
                *right,
                high,
                path.push(NodeStep::Right),
            );
        },
    }
}

/// Stacked panes share the rows: of the rows left after the divider the top
/// gets the share that the ratio asks for, held where sizes freeze so that both
/// sides keep their fewest rows if both can; the divider is the row below it,
/// and the bottom gets the rest. Without a row there is nothing to share.
pub proof fn law_stacked_sides_share_the_rows(
    ratio: Ratio,
    left: Box<LayoutNode>,
    right: Box<LayoutNode>,
    area: Area,
    path: Seq<NodeStep>,
    freeze: bool,
)
    requires
        0 <= area.w,
        0 <= area.h,
    ensures
        ({
            let node = LayoutNode::Split { dir: SplitDir::Vertical, ratio, left, right };
            let rows = if area.h >= 1 {
                area.h - 1
            } else {
                0
            };
            let asked = share(rows as nat, ratio) as int;
            let both_fit = min_rows(*left) + min_rows(*right) <= rows;
            let top = if freeze && both_fit && asked < min_rows(*left) {
                min_rows(*left)
            } else if freeze && both_fit && rows - asked < min_rows(*right) {
                rows - min_rows(*right)
            } else {
                asked
            };
            let above = Area { x: area.x, y: area.y, w: area.w, h: top };
            let below = Area {
                x: area.x,
                y: area.y + top + (area.h - rows),
                w: area.w,
                h: rows - top,
            };
            &&& tile_leaves(node, area, freeze) == tile_leaves(*left, above, freeze) + tile_leaves(
                *right,
                below,
                freeze,
            )
            &&& tile_segments(node, area, path, freeze) == (if area.h >= 1 && area.w >= 1 {
                seq![
                    SegmentView {
                        split: SplitDir::Vertical,
                        a0: area.x,
                        a1: area.x + area.w - 1,
                        cross: area.y + top,
                        low: left.leaves(),
                        high: right.leaves(),
                        path,
                    },
                ]
            } else {
                Seq::empty()
            }) + tile_segments(*left, above, path.push(NodeStep::Left), freeze) + tile_segments(
                *right,
                below,
                path.push(NodeStep::Right),
                freeze,
            )
        }),
{
    lemma_cut_bounds(SplitDir::Vertical, ratio, *left, *right, area, freeze);
}

/// Panes side by side share the columns, as stacked ones share the rows.
pub proof fn law_sides_beside_each_other_share_the_columns(
    ratio: Ratio,
    left: Box<LayoutNode>,
    right: Box<LayoutNode>,
    area: Area,
    path: Seq<NodeStep>,
    freeze: bool,
)
    requires
        0 <= area.w,
        0 <= area.h,
    ensures
        ({
            let node = LayoutNode::Split { dir: SplitDir::Horizontal, ratio, left, right };
            let cols = if area.w >= 1 {
                area.w - 1
            } else {
                0
            };
            let asked = share(cols as nat, ratio) as int;
            let both_fit = min_cols(*left) + min_cols(*right) <= cols;
            let near = if freeze && both_fit && asked < min_cols(*left) {
                min_cols(*left)
            } else if freeze && both_fit && cols - asked < min_cols(*right) {
                cols - min_cols(*right)
            } else {
                asked
            };
            let before = Area { x: area.x, y: area.y, w: near, h: area.h };
            let after = Area {
                x: area.x + near + (area.w - cols),
                y: area.y,
                w: cols - near,
                h: area.h,
            };
            &&& tile_leaves(node, area, freeze) == tile_leaves(*left, before, freeze) + tile_leaves(
                *right,
                after,
                freeze,
            )
            &&& tile_segments(node, area, path, freeze) == (if area.h >= 1 && area.w >= 1 {
                seq![
                    SegmentView {
                        split: SplitDir::Horizontal,
                        a0: area.y,
                        a1: area.y + area.h - 1,
                        cross: area.x + near,
                        low: left.leaves(),
                        high: right.leaves(),
                        path,
                    },
                ]
            } else {
                Seq::empty()
            }) + tile_segments(*left, before, path.push(NodeStep::Left), freeze) + tile_segments(
                *right,
                after,
                path.push(NodeStep::Right),
                freeze,
            )
        }),
{
    lemma_cut_bounds(SplitDir::Horizontal, ratio, *left, *right, area, freeze);
}

/// A lone pane takes the whole rectangle and has no divider.
pub proof fn law_a_lone_pane_takes_everything(
    pane: TerminalId,
    area: Area,
    path: Seq<NodeStep>,
    freeze: bool,
)
    ensures
        tile_leaves(LayoutNode::Leaf(pane), area, freeze) == seq![(pane, area)],
        tile_segments(LayoutNode::Leaf(pane), area, path, freeze) == Seq::<SegmentView>::empty(),
        LayoutNode::Leaf(pane).leaves() == seq![pane],
        min_cols(LayoutNode::Leaf(pane)) == 2,
        min_rows(LayoutNode::Leaf(pane)) == 1,
{
}

/// The fewest cells of a split: along its axis those of both sides and one for
/// the divider, across it those of the side that needs more.
pub proof fn law_minimums_add_up(ratio: Ratio, left: Box<LayoutNode>, right: Box<LayoutNode>)
    ensures
        ({
            let beside = LayoutNode::Split { dir: SplitDir::Horizontal, ratio, left, right };
            let stacked = LayoutNode::Split { dir: SplitDir::Vertical, ratio, left, right };
            &&& min_cols(beside) == min_cols(*left) + 1 + min_cols(*right)
            &&& min_rows(stacked) == min_rows(*left) + 1 + min_rows(*right)
            &&& min_rows(beside) >= min_rows(*left) && min_rows(beside) >= min_rows(*right)
            &&& min_rows(beside) == min_rows(*left) || min_rows(beside) == min_rows(*right)
            &&& min_cols(stacked) >= min_cols(*left) && min_cols(stacked) >= min_cols(*right)
            &&& min_cols(stacked) == min_cols(*left) || min_cols(stacked) == min_cols(*right)
            &&& beside.leaves() == left.leaves() + right.leaves()
            &&& stacked.leaves() == left.leaves() + right.leaves()
        }),
{
}

/// Two panes of a tiling that share a column start in different rows, unless
/// both are without rows.
pub proof fn law_a_visible_pane_starts_in_a_row_of_its_own(
    node: LayoutNode,
    area: Area,
    freeze: bool,
    i: int,
    j: int,
    x: int,
)
    requires
        0 <= area.w,
        0 <= area.h,
        0 <= i < tile_leaves(node, area, freeze).len(),
        0 <= j < tile_leaves(node, area, freeze).len(),
        i != j,
        tile_leaves(node, area, freeze)[i].1.h >= 1,
        tile_leaves(node, area, freeze)[i].1.x <= x < tile_leaves(node, area, freeze)[i].1.x
            + tile_leaves(node, area, freeze)[i].1.w,
        tile_leaves(node, area, freeze)[j].1.x <= x < tile_leaves(node, area, freeze)[j].1.x
            + tile_leaves(node, area, freeze)[j].1.w,
    ensures
        tile_leaves(node, area, freeze)[i].1.y != tile_leaves(node, area, freeze)[j].1.y,
    decreases node,
{
    match node {
        LayoutNode::Leaf(p) => {},
        LayoutNode::Split { dir, ratio, left, right } => {
            let cut = low_cells(dir, ratio, *left, *right, area, freeze);
            let low = low_area(dir, cut, area);
            let high = high_area(dir, cut, area);
            lemma_cut_bounds(dir, ratio, *left, *right, area, freeze);
            let ll = tile_leaves(*left, low, freeze);
            let rl = tile_leaves(*right, high, freeze);
            let n = ll.len() as int;
            assert(tile_leaves(node, area, freeze) == ll + rl);
            if i < n && j < n {
                law_a_visible_pane_starts_in_a_row_of_its_own(*left, low, freeze, i, j, x);
            } else if i >= n && j >= n {
                law_a_visible_pane_starts_in_a_row_of_its_own(
                    *right,
                    high,
                    freeze,
                    i - n,
                    j - n,
                    x,
                );
            } else if i < n {
                law_panes_stay_in_bounds(*left, low, freeze, i);
                law_panes_stay_in_bounds(*right, high, freeze, j - n);
            } else {
                law_panes_stay_in_bounds(*left, low, freeze, j);
                law_panes_stay_in_bounds(*right, high, freeze, i - n);
            }
        },
    }
}

/// Every divider starts within the bounds it was tiled into.
pub proof fn lemma_segments_start_in_bounds(
    node: LayoutNode,
    area: Area,
    path: Seq<NodeStep>,
    freeze: bool,
)
    requires
        0 <= area.x,
        0 <= area.y,
        0 <= area.w,
        0 <= area.h,
    ensures
        forall|i: int|
            0 <= i < tile_segments(node, area, path, freeze).len() ==> {
                &&& 0 <= (#[trigger] tile_segments(node, area, path, freeze)[i]).a0
                &&& 0 <= tile_segments(node, area, path, freeze)[i].cross
            },
    decreases node,
{
    match node {
        LayoutNode::Leaf(p) => {},
        LayoutNode::Split { dir, ratio, left, right } => {
            let cut = low_cells(dir, ratio, *left, *right, area, freeze);
            let low = low_area(dir, cut, area);
            let high = high_area(dir, cut, area);
            lemma_cut_bounds(dir, ratio, *left, *right, area, freeze);
            lemma_segments_start_in_bounds(*left, low, path.push(NodeStep::Left), freeze);
            lemma_segments_start_in_bounds(*right, high, path.push(NodeStep::Right), freeze);
            let own = own_segment(dir, cut, *left, *right, area, path);
            let ls = tile_segments(*left, low, path.push(NodeStep::Left), freeze);
            let rs = tile_segments(*right, high, path.push(NodeStep::Right), freeze);
            let all = tile_segments(node, area, path, freeze);
            assert(all == own + ls + rs);
            assert forall|i: int| 0 <= i < all.len() implies 0 <= (#[trigger] all[i]).a0 && 0
                <= all[i].cross by {
                if i >= own.len() + ls.len() {
                    assert(all[i] == rs[i - own.len() - ls.len()]);
                } else if i >= own.len() {
                    assert(all[i] == ls[i - own.len()]);
                } else {
                    assert(all[i] == own[i]);
                }
            }
        },
    }
}

} // verus!
