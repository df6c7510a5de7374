use phux_core_logic::layout::{
    LayoutNode, NodePath, NodeStep, PaneRects, Rect, SplitDir, TerminalId,
};
use phux_core_logic::layout::LayoutState;
use phux_core_logic::multi_pane::{compute_layout, compute_layout_in};
use phux_core_logic::rasterize::{
    divider_hits, pick_box_char, rasterize, rasterize_in_order, segment_heavy,
};
use phux_core_logic::ratio::{split_dim, Ratio};
use phux_core_logic::tiling::{
    collect_leaves, freeze_split_dim, min_dims, walk_layout, walk_layout_proportional,
    DividerSegment,
};

fn t(id: u32) -> TerminalId {
    TerminalId::local(id)
}

fn leaf(id: u32) -> LayoutNode {
    LayoutNode::Leaf(t(id))
}

fn ratio(r: f32) -> Ratio {
    Ratio::from_bits(r.to_bits())
}

fn split(dir: SplitDir, r: f32, left: LayoutNode, right: LayoutNode) -> LayoutNode {
    LayoutNode::Split { dir, ratio: ratio(r), left: Box::new(left), right: Box::new(right) }
}

/// The share as single-precision arithmetic gives it.
fn float_share(total: u16, r: f32) -> u16 {
    let raw = (f32::from(total) * r).round();
    if raw < 0.0 {
        0
    } else if raw > f32::from(total) {
        total
    } else {
        raw as u16
    }
}

#[test]
fn split_dim_agrees_with_single_precision() {
    let ratios = [
        0.0, -0.0, 0.5, 0.25, 0.75, 1.0, 1.5, -1.0, 0.333_333_34, 0.1, 0.9, 0.999_999_9,
        1.0e-30, 1.0e-45, 1.0e38, f32::MAX, f32::MIN_POSITIVE, f32::INFINITY, f32::NEG_INFINITY,
        f32::NAN, 0.000_007_63, 0.500_000_06, 0.499_999_97, 3.0e4,
    ];
    let totals = [0u16, 1, 2, 3, 7, 79, 80, 255, 256, 1000, 32767, 32768, 65534, 65535];
    for r in ratios {
        for total in totals {
            assert_eq!(split_dim(total, ratio(r)), float_share(total, r), "{total} * {r}");
        }
    }
    let mut bits: u32 = 1;
    for _ in 0..20_000 {
        bits = bits.wrapping_mul(1_664_525).wrapping_add(1_013_904_223);
        let r = f32::from_bits(bits);
        let total = (bits >> 7) as u16;
        assert_eq!(split_dim(total, ratio(r)), float_share(total, r), "{total} * {r}");
        let small = f32::from_bits(0x3e00_0000 | (bits & 0x01ff_ffff));
        assert_eq!(split_dim(total, ratio(small)), float_share(total, small));
    }
}

#[test]
fn a_freeze_holds_both_minimums_where_they_fit() {
    assert_eq!(freeze_split_dim(79, ratio(0.5), 2, 2), 40);
    assert_eq!(freeze_split_dim(10, ratio(0.0), 3, 4), 3);
    assert_eq!(freeze_split_dim(10, ratio(1.0), 3, 4), 6);
    assert_eq!(freeze_split_dim(6, ratio(1.0), 3, 4), 6);
    assert_eq!(freeze_split_dim(10, ratio(0.0), u16::MAX, 4), 0);
}

#[test]
fn minimums_add_up_along_the_split_axis() {
    let tree = split(
        SplitDir::Horizontal,
        0.5,
        leaf(1),
        split(SplitDir::Vertical, 0.5, leaf(2), leaf(3)),
    );
    assert_eq!(min_dims(&leaf(1)), (2, 1));
    assert_eq!(min_dims(&tree), (5, 3));
    assert_eq!(collect_leaves(&tree), vec![t(1), t(2), t(3)]);
}

#[test]
fn a_tiling_covers_every_cell_once() {
    let tree = || {
        split(
            SplitDir::Horizontal,
            0.3,
            split(SplitDir::Vertical, 0.6, leaf(1), leaf(2)),
            split(SplitDir::Horizontal, 0.5, leaf(3), split(SplitDir::Vertical, 0.1, leaf(4), leaf(5))),
        )
    };
    for (w, h) in [(40u16, 12u16), (9, 3), (17, 5)] {
        let bounds = Rect { x: 3, y: 2, w, h };
        let mut segments: Vec<DividerSegment> = Vec::new();
        let mut rects = PaneRects::new();
        walk_layout(&tree(), bounds, &mut segments, &mut rects);
        assert_eq!(rects.len(), 5);
        let hits = divider_hits(&segments, (100, 100));
        for y in 0..h + 4 {
            for x in 0..w + 6 {
                let panes = (0..rects.len())
                    .filter(|i| {
                        let r = rects.entry(*i).1;
                        x >= r.x && x < r.x + r.w && y >= r.y && y < r.y + r.h
                    })
                    .count();
                let lines = hits.iter().filter(|hit| hit.cells.contains(&(x, y))).count();
                let inside = x >= 3 && x < 3 + w && y >= 2 && y < 2 + h;
                assert_eq!(panes + lines, usize::from(inside), "({x}, {y}) of {w}x{h}");
            }
        }
    }
}

#[test]
fn a_starved_tiling_still_places_every_pane() {
    let tree = split(SplitDir::Horizontal, 0.5, leaf(1), leaf(2));
    let mut segments: Vec<DividerSegment> = Vec::new();
    let mut rects = PaneRects::new();
    walk_layout(&tree, Rect { x: 4, y: 0, w: 0, h: 3 }, &mut segments, &mut rects);
    assert!(segments.is_empty());
    assert_eq!(rects.get(t(1)), Some(Rect { x: 4, y: 0, w: 0, h: 3 }));
    assert_eq!(rects.get(t(2)), Some(Rect { x: 4, y: 0, w: 0, h: 3 }));
}

#[test]
fn freezing_and_proportional_tilings_differ_only_below_the_minimum() {
    let tree = split(SplitDir::Horizontal, 0.0, leaf(1), leaf(2));
    let bounds = Rect { x: 0, y: 0, w: 20, h: 4 };
    let mut segments: Vec<DividerSegment> = Vec::new();
    let mut frozen = PaneRects::new();
    walk_layout(&tree, bounds, &mut segments, &mut frozen);
    assert_eq!(frozen.get(t(1)), Some(Rect { x: 0, y: 0, w: 2, h: 4 }));
    assert_eq!(frozen.get(t(2)), Some(Rect { x: 3, y: 0, w: 17, h: 4 }));
    let mut asked = PaneRects::new();
    walk_layout_proportional(&tree, bounds, &mut segments, &mut asked);
    assert_eq!(asked.get(t(1)), Some(Rect { x: 0, y: 0, w: 0, h: 4 }));
    assert_eq!(asked.get(t(2)), Some(Rect { x: 1, y: 0, w: 19, h: 4 }));
}

#[test]
fn a_line_without_length_is_no_line() {
    let tree = split(SplitDir::Horizontal, 0.5, leaf(1), leaf(2));
    let mut segments: Vec<DividerSegment> = Vec::new();
    let mut rects = PaneRects::new();
    walk_layout(&tree, Rect { x: 0, y: 0, w: 9, h: 0 }, &mut segments, &mut rects);
    assert!(segments.is_empty());
    assert_eq!(rects.get(t(1)), Some(Rect { x: 0, y: 0, w: 4, h: 0 }));
    assert_eq!(rects.get(t(2)), Some(Rect { x: 5, y: 0, w: 4, h: 0 }));
}

#[test]
fn a_flat_nested_split_draws_the_outer_line_alone() {
    let inner = split(SplitDir::Horizontal, 0.5, leaf(1), leaf(2));
    let tree = split(SplitDir::Vertical, 0.5, inner, leaf(3));
    let mut segments: Vec<DividerSegment> = Vec::new();
    let mut rects = PaneRects::new();
    walk_layout(&tree, Rect { x: 0, y: 0, w: 5, h: 1 }, &mut segments, &mut rects);
    assert_eq!(segments.len(), 1);
    let hits = divider_hits(&segments, (80, 24));
    assert_eq!(hits[0].node_path, NodePath::root());
    assert_eq!(hits[0].cells, vec![(0, 0), (1, 0), (2, 0), (3, 0), (4, 0)]);
}

#[test]
fn a_viewport_without_rows_shows_no_line() {
    let tree = split(SplitDir::Horizontal, 0.5, leaf(1), leaf(2));
    let mut segments: Vec<DividerSegment> = Vec::new();
    let mut rects = PaneRects::new();
    walk_layout(&tree, Rect { x: 0, y: 0, w: 9, h: 3 }, &mut segments, &mut rects);
    for viewport in [(10, 0), (0, 10), (0, 0)] {
        let hits = divider_hits(&segments, viewport);
        assert_eq!(hits.len(), 1);
        assert!(hits[0].cells.is_empty());
        assert!(rasterize(&segments, None, &rects, viewport).is_empty());
    }
}

#[test]
fn below_the_minimum_some_pane_is_short() {
    let tree = split(SplitDir::Horizontal, 0.5, leaf(1), leaf(2));
    let (cols, rows) = min_dims(&tree);
    assert_eq!((cols, rows), (5, 1));
    let narrowest = |w: u16| {
        let mut segments: Vec<DividerSegment> = Vec::new();
        let mut rects = PaneRects::new();
        walk_layout(&tree, Rect { x: 0, y: 0, w, h: rows }, &mut segments, &mut rects);
        (0..rects.len()).map(|i| rects.entry(i).1.w).min()
    };
    assert_eq!(narrowest(cols), Some(2));
    assert_eq!(narrowest(cols - 1), Some(1));
}

#[test]
fn freezing_changes_nothing_above_the_floors() {
    let tree = split(
        SplitDir::Vertical,
        0.25,
        leaf(1),
        split(SplitDir::Horizontal, 0.75, leaf(2), leaf(3)),
    );
    let bounds = Rect { x: 1, y: 1, w: 30, h: 12 };
    let mut segments: Vec<DividerSegment> = Vec::new();
    let mut frozen = PaneRects::new();
    walk_layout(&tree, bounds, &mut segments, &mut frozen);
    let mut asked = PaneRects::new();
    walk_layout_proportional(&tree, bounds, &mut segments, &mut asked);
    for id in [1, 2, 3] {
        assert_eq!(frozen.get(t(id)), asked.get(t(id)));
    }
}

#[test]
fn grab_targets_name_their_split() {
    let tree = split(
        SplitDir::Horizontal,
        0.5,
        leaf(1),
        split(SplitDir::Vertical, 0.5, leaf(2), leaf(3)),
    );
    let state = LayoutState { tree: Some(tree), focus: None };
    let layout = compute_layout(&state, (9, 5));
    assert_eq!(layout.divider_hits.len(), 2);
    assert_eq!(layout.divider_hits[0].axis, SplitDir::Horizontal);
    assert_eq!(layout.divider_hits[0].node_path, NodePath::root());
    assert_eq!(layout.divider_hits[0].cells, vec![(4, 0), (4, 1), (4, 2), (4, 3), (4, 4)]);
    assert_eq!(layout.divider_hits[1].axis, SplitDir::Vertical);
    assert_eq!(layout.divider_hits[1].node_path.steps, vec![NodeStep::Right]);
    assert_eq!(layout.divider_hits[1].cells, vec![(5, 2), (6, 2), (7, 2), (8, 2)]);
    let painted: Vec<(u16, u16)> = layout.dividers.iter().map(|c| (c.x, c.y)).collect();
    let mut grabbed: Vec<(u16, u16)> =
        layout.divider_hits.iter().flat_map(|h| h.cells.clone()).collect();
    grabbed.sort_by_key(|(x, y)| (*y, *x));
    assert_eq!(painted, grabbed);
    assert_eq!(layout.dividers[2].ch, '├');
}

#[test]
fn an_offscreen_line_keeps_an_empty_grab_target() {
    let tree = split(SplitDir::Horizontal, 0.5, leaf(1), leaf(2));
    let state = LayoutState { tree: Some(tree), focus: None };
    let layout = compute_layout_in(&state, Rect { x: 0, y: 0, w: 41, h: 4 }, (20, 4));
    assert_eq!(layout.divider_hits.len(), 1);
    assert!(layout.divider_hits[0].cells.is_empty());
    assert!(layout.dividers.is_empty());
}

#[test]
fn no_tree_is_an_empty_layout() {
    let state = LayoutState { tree: None, focus: Some(t(1)) };
    let layout = compute_layout(&state, (80, 24));
    assert_eq!(layout.rects.len(), 0);
    assert!(layout.dividers.is_empty());
    assert!(layout.divider_hits.is_empty());
}

#[test]
fn a_focused_pane_thickens_its_own_lines() {
    let tree = split(
        SplitDir::Horizontal,
        0.5,
        leaf(1),
        split(SplitDir::Vertical, 0.5, leaf(2), leaf(3)),
    );
    let mut segments: Vec<DividerSegment> = Vec::new();
    let mut rects = PaneRects::new();
    walk_layout(&tree, Rect { x: 0, y: 0, w: 9, h: 5 }, &mut segments, &mut rects);
    assert!(segment_heavy(&segments[0], Some(t(1)), &rects));
    assert!(!segment_heavy(&segments[1], Some(t(1)), &rects));
    assert!(segment_heavy(&segments[1], Some(t(3)), &rects));
    assert!(!segment_heavy(&segments[1], None, &rects));
    let cells = rasterize(&segments, Some(t(1)), &rects, (9, 5));
    let row: String = cells.iter().filter(|c| c.y == 2).map(|c| c.ch).collect();
    assert_eq!(row, "┠────");
    assert_eq!(cells[0].ch, '┃');
    let mut backward: Vec<(u16, u16)> = cells.iter().rev().map(|c| (c.x, c.y)).collect();
    backward.push((0, 0));
    assert_eq!(rasterize_in_order(&segments, Some(t(1)), &rects, (9, 5), &backward), cells);
    let unjoined = rasterize_in_order(&segments, Some(t(1)), &rects, (9, 5), &Vec::new());
    assert_eq!(unjoined.iter().find(|c| (c.x, c.y) == (4, 2)).unwrap().ch, '┃');
}

#[test]
fn the_glyph_table() {
    let (l, h) = (Some(false), Some(true));
    assert_eq!(pick_box_char(None, None, None, None), ' ');
    assert_eq!(pick_box_char(l, None, None, None), '│');
    assert_eq!(pick_box_char(None, h, None, h), '━');
    assert_eq!(pick_box_char(None, l, l, None), '┌');
    assert_eq!(pick_box_char(h, None, None, h), '┛');
    assert_eq!(pick_box_char(l, l, None, l), '┴');
    assert_eq!(pick_box_char(h, l, h, l), '╂');
    assert_eq!(pick_box_char(l, h, h, l), '╅');
    assert_eq!(pick_box_char(h, l, None, None), '└');
    assert_eq!(pick_box_char(h, h, l, None), '├');
}

#[test]
fn a_repeated_pane_keeps_its_last_place() {
    let mut rects = PaneRects::new();
    rects.insert(t(1), Rect { x: 0, y: 0, w: 1, h: 1 });
    rects.insert(t(2), Rect { x: 1, y: 0, w: 1, h: 1 });
    rects.insert(t(1), Rect { x: 5, y: 5, w: 2, h: 2 });
    assert_eq!(rects.len(), 2);
    assert_eq!(rects.get(t(1)), Some(Rect { x: 5, y: 5, w: 2, h: 2 }));
    assert_eq!(rects.get(t(3)), None);
}

#[test]
fn a_pane_without_rows_borders_no_line() {
    let low = split(SplitDir::Vertical, 0.5, leaf(1), leaf(3));
    let tree = split(SplitDir::Horizontal, 0.5, low, leaf(2));
    let mut segments: Vec<DividerSegment> = Vec::new();
    let mut rects = PaneRects::new();
    walk_layout(&tree, Rect { x: 0, y: 0, w: 9, h: 1 }, &mut segments, &mut rects);
    assert_eq!(rects.get(t(1)), Some(Rect { x: 0, y: 0, w: 4, h: 0 }));
    assert!(!segment_heavy(&segments[0], Some(t(1)), &rects));
    assert!(segment_heavy(&segments[0], Some(t(2)), &rects));
}
