use std::collections::HashMap;

use phux_core_logic::dividers::{
    compose_buffer, help_bindings, on_frame, rail_row, render_dividers, render_labelled,
    write_sgr_color, PaneLabel, ELLIPSIS,
};
use phux_core_logic::layout::{
    LayoutNode, LayoutState, PaneRects, Rect, SplitDir, TerminalId,
};
use phux_core_logic::multi_pane::{compute_layout, compute_layout_in, PaneLayout};
use phux_core_logic::rasterize::DividerCell;
use phux_core_logic::ratio::Ratio;
use phux_core_logic::theme::{agent_badge, AgentMetaState, Color, Theme};
use ratatui::buffer::CellDiffOption;
use unicode_width::UnicodeWidthChar;

fn t(id: u32) -> TerminalId {
    TerminalId::local(id)
}

fn leaf(id: u32) -> LayoutNode {
    LayoutNode::Leaf(t(id))
}

fn split(dir: SplitDir, ratio: f32, left: LayoutNode, right: LayoutNode) -> LayoutNode {
    LayoutNode::Split {
        dir,
        ratio: Ratio::from_bits(ratio.to_bits()),
        left: Box::new(left),
        right: Box::new(right),
    }
}

/// The whole viewport, with no rail row reserved.
fn full(cols: u16, rows: u16) -> Rect {
    Rect { x: 0, y: 0, w: cols, h: rows }
}

/// A pane area with one rail row above it.
fn railed(cols: u16, rows: u16) -> Rect {
    Rect { x: 0, y: 1, w: cols, h: rows - 1 }
}

fn theme() -> Theme {
    Theme::default()
}

fn unlabelled(_: &TerminalId) -> Option<PaneLabel<'static>> {
    None
}

fn render(layout: &PaneLayout, content: Rect, label: Option<&'static str>) -> String {
    render_with_focus(layout, content, Some(&t(1)), label)
}

fn render_with_focus(
    layout: &PaneLayout,
    content: Rect,
    focus: Option<&TerminalId>,
    label: Option<&'static str>,
) -> String {
    let mut out = String::new();
    render_dividers(&mut out, layout, content, focus, &theme(), |_: &TerminalId| {
        label.map(|text| PaneLabel { text, agent: None, attention: false, seen: true })
    });
    out
}

fn split_layout(content: Rect) -> PaneLayout {
    let tree = split(SplitDir::Horizontal, 0.5, leaf(1), leaf(2));
    let state = LayoutState { tree: Some(tree), focus: Some(t(1)) };
    compute_layout_in(&state, content, (content.w, content.y + content.h))
}

fn cross_layout(content: Rect, focus: TerminalId) -> PaneLayout {
    let low = split(SplitDir::Vertical, 0.5, leaf(1), leaf(3));
    let tree = split(SplitDir::Horizontal, 0.5, low, leaf(2));
    let state = LayoutState { tree: Some(tree), focus: Some(focus) };
    compute_layout_in(&state, content, (content.w, content.y + content.h))
}

fn single_layout(content: Rect) -> PaneLayout {
    let state = LayoutState { tree: Some(leaf(1)), focus: Some(t(1)) };
    compute_layout_in(&state, content, (content.w, content.y + content.h))
}

fn pane_rects(layout: &PaneLayout) -> Vec<Rect> {
    (0..layout.rects.len()).map(|i| layout.rects.entry(i).1).collect()
}

fn rect_contains(r: Rect, x: u16, y: u16) -> bool {
    x >= r.x && y >= r.y && x < r.x.saturating_add(r.w) && y < r.y.saturating_add(r.h)
}

fn sgr_fg(color: Color) -> String {
    let mut out = String::new();
    write_sgr_color(&mut out, color);
    out
}

/// Decode the emitted stream into `(x, y, symbol)` per painted cell.
fn painted_cells(s: &str) -> Vec<(u16, u16, String)> {
    let mut out = Vec::new();
    let (mut x, mut y) = (0u16, 0u16);
    let mut chars = s.chars().peekable();
    while let Some(c) = chars.next() {
        if c == '\x1b' {
            let mut body = String::new();
            if chars.peek() == Some(&'[') {
                chars.next();
            }
            for c in chars.by_ref() {
                if c.is_ascii_alphabetic() {
                    if c == 'H' {
                        if let Some((r, col)) = body.split_once(';') {
                            if let (Ok(rn), Ok(cn)) = (r.parse::<u16>(), col.parse::<u16>()) {
                                y = rn.saturating_sub(1);
                                x = cn.saturating_sub(1);
                            }
                        }
                    }
                    break;
                }
                body.push(c);
            }
            continue;
        }
        out.push((x, y, c.to_string()));
        x = x.saturating_add(1);
    }
    out
}

fn cell_map(s: &str) -> HashMap<(u16, u16), String> {
    painted_cells(s).into_iter().map(|(x, y, sym)| ((x, y), sym)).collect()
}

/// Map each painted cell to `(symbol, accented)`.
fn styled_cells(s: &str) -> HashMap<(u16, u16), (String, bool)> {
    let focus_sgr = format!("\x1b[1m{}", sgr_fg(theme().divider_focus));
    let mut out = HashMap::new();
    let (mut x, mut y) = (0u16, 0u16);
    let mut accented = false;
    let mut rest = s;
    while let Some(i) = rest.find('\x1b') {
        for c in rest[..i].chars() {
            out.insert((x, y), (c.to_string(), accented));
            x = x.saturating_add(1);
        }
        let tail = &rest[i..];
        if tail.starts_with(&focus_sgr) {
            accented = true;
            rest = &tail[focus_sgr.len()..];
            continue;
        }
        let end = tail[1..]
            .find(|c: char| c.is_ascii_alphabetic())
            .map_or(tail.len(), |j| j + 2);
        let seq = &tail[..end];
        if seq.ends_with('H') {
            if let Some((rr, cc)) = seq[2..seq.len() - 1].split_once(';') {
                if let (Ok(rn), Ok(cn)) = (rr.parse::<u16>(), cc.parse::<u16>()) {
                    y = rn.saturating_sub(1);
                    x = cn.saturating_sub(1);
                }
            }
        } else if seq.ends_with('m') {
            accented = false;
        }
        rest = &tail[end..];
    }
    for c in rest.chars() {
        out.insert((x, y), (c.to_string(), accented));
        x = x.saturating_add(1);
    }
    out
}

/// Every CUP target `(row_1b, col_1b)` of a stream.
fn extract_cups(s: &str) -> Vec<(u16, u16)> {
    let mut out = Vec::new();
    let bytes = s.as_bytes();
    let mut i = 0;
    while i + 1 < bytes.len() {
        if bytes[i] == 0x1b && bytes[i + 1] == b'[' {
            let start = i + 2;
            let mut j = start;
            while j < bytes.len() && !bytes[j].is_ascii_alphabetic() {
                j += 1;
            }
            if j < bytes.len() && bytes[j] == b'H' {
                let body = std::str::from_utf8(&bytes[start..j]).unwrap_or("");
                if let Some((r, c)) = body.split_once(';') {
                    if let (Ok(rn), Ok(cn)) = (r.parse::<u16>(), c.parse::<u16>()) {
                        out.push((rn, cn));
                    }
                }
            }
            i = j.saturating_add(1);
        } else {
            i += 1;
        }
    }
    out
}

#[test]
fn empty_layout_is_noop() {
    let layout = PaneLayout {
        viewport: (80, 24),
        rects: PaneRects::new(),
        dividers: Vec::new(),
        divider_hits: Vec::new(),
    };
    assert!(render(&layout, full(80, 24), None).is_empty());
}

#[test]
fn zero_viewport_is_noop() {
    let layout = PaneLayout {
        viewport: (0, 24),
        rects: PaneRects::new(),
        dividers: vec![DividerCell { x: 0, y: 0, ch: '\u{2502}' }],
        divider_hits: Vec::new(),
    };
    assert!(render(&layout, full(0, 24), None).is_empty());
}

#[test]
fn skip_cells_never_emit_vt() {
    let content = railed(80, 24);
    let layout = split_layout(content);
    assert!(!layout.dividers.is_empty(), "test precondition: have dividers");

    let s = render(&layout, content, Some("shell"));
    let cups = extract_cups(&s);
    assert!(!cups.is_empty(), "expected at least one CUP");
    for (row_1b, col_1b) in cups {
        let y = row_1b.saturating_sub(1);
        let x = col_1b.saturating_sub(1);
        for r in pane_rects(&layout) {
            assert!(
                !rect_contains(r, x, y),
                "CUP at ({x}, {y}) landed inside pane interior rect {r:?}"
            );
        }
    }
}

#[test]
fn no_painted_cell_lands_inside_a_pane() {
    let content = railed(80, 24);
    let layout = split_layout(content);
    let s = render(&layout, content, Some("shell"));
    for (x, y, sym) in painted_cells(&s) {
        for r in pane_rects(&layout) {
            assert!(
                !rect_contains(r, x, y),
                "painted {sym:?} at ({x}, {y}) inside pane rect {r:?}"
            );
        }
    }
}

#[test]
fn skip_cells_invariant_holds_for_cross_split() {
    let content = railed(80, 24);
    let layout = cross_layout(content, t(2));
    let s = render(&layout, content, Some("shell"));
    for (row_1b, col_1b) in extract_cups(&s) {
        let y = row_1b.saturating_sub(1);
        let x = col_1b.saturating_sub(1);
        for r in pane_rects(&layout) {
            assert!(
                !rect_contains(r, x, y),
                "CUP at ({x}, {y}) landed inside pane interior rect {r:?}"
            );
        }
    }
}

#[test]
fn emits_leading_and_trailing_sgr_reset() {
    let content = railed(80, 24);
    let layout = split_layout(content);
    let s = render(&layout, content, None);
    assert!(s.starts_with("\x1b[0m"), "expected leading SGR reset");
    assert!(s.ends_with("\x1b[0m"), "expected trailing SGR reset");
}

#[test]
fn focus_is_painted_not_thickened() {
    let content = railed(80, 24);
    let layout = split_layout(content);
    let s = render(&layout, content, None);
    assert!(
        !s.contains('\u{2503}') && !s.contains('\u{2501}'),
        "the grid must be uniformly light"
    );
    assert!(s.contains('\u{2502}'), "expected the light rule");
    assert!(s.contains(&sgr_fg(theme().divider_focus)), "expected the focus tint in {s:?}");
    assert!(s.contains("\x1b[1m"), "expected the focused rule to be bold");
}

#[test]
fn an_unfocused_rule_uses_the_recessive_tone() {
    let content = railed(80, 24);
    let tree = split(
        SplitDir::Horizontal,
        0.5,
        leaf(1),
        split(SplitDir::Horizontal, 0.5, leaf(2), leaf(3)),
    );
    let state = LayoutState { tree: Some(tree), focus: Some(t(1)) };
    let layout = compute_layout_in(&state, content, (80, 24));
    let s = render(&layout, content, None);
    assert!(
        s.contains(&sgr_fg(theme().divider)),
        "expected the recessive rule tone in {s:?}"
    );
}

#[test]
fn emphasis_follows_the_passed_focus_not_the_layout_tree() {
    let content = railed(80, 24);
    let layout = split_layout(content);
    let one = layout.rects.get(t(1)).expect("pane 1");
    let two = layout.rects.get(t(2)).expect("pane 2");
    let rail_y = rail_row(content).expect("a rail");

    let focus_two = styled_cells(&render_with_focus(&layout, content, Some(&t(2)), None));
    assert!(focus_two[&(two.x + 2, rail_y)].1, "the focused pane's rail must be accented");
    assert!(!focus_two[&(one.x + 2, rail_y)].1, "an unfocused pane's rail must recede");

    let focus_one = styled_cells(&render_with_focus(&layout, content, Some(&t(1)), None));
    assert!(focus_one[&(one.x + 2, rail_y)].1);
    assert!(!focus_one[&(two.x + 2, rail_y)].1);
}

#[test]
fn the_rail_tees_where_a_vertical_rule_meets_it() {
    let content = railed(80, 24);
    let layout = split_layout(content);
    let cells = cell_map(&render(&layout, content, None));
    let rail_y = rail_row(content).expect("a rail row");
    assert_eq!(rail_y, 0);
    let col = layout.dividers.first().expect("a divider").x;
    assert_eq!(cells.get(&(col, rail_y)).map(String::as_str), Some("┬"));
    assert_eq!(cells.get(&(0, rail_y)).map(String::as_str), Some("─"));
    assert_eq!(cells.get(&(79, rail_y)).map(String::as_str), Some("─"));
}

#[test]
fn no_reserved_row_means_no_rail() {
    let content = full(80, 24);
    assert_eq!(rail_row(content), None);
    let layout = split_layout(content);
    for (_, y, _) in painted_cells(&render(&layout, content, None)) {
        assert!(y > 0 || layout.dividers.iter().any(|d| d.y == 0));
    }
}

#[test]
fn a_title_is_inset_into_the_rule_above_its_pane() {
    let content = railed(80, 24);
    let layout = split_layout(content);
    let s = render(&layout, content, Some("editor"));
    assert!(s.contains("editor"), "expected the label in {s:?}");
    let cells = cell_map(&s);
    let rail_y = rail_row(content).unwrap();
    assert_eq!(cells.get(&(0, rail_y)).map(String::as_str), Some("─"));
    assert_eq!(cells.get(&(1, rail_y)).map(String::as_str), Some(" "));
    assert_eq!(cells.get(&(2, rail_y)).map(String::as_str), Some("e"));
    assert_eq!(cells.get(&(8, rail_y)).map(String::as_str), Some(" "));
}

#[test]
fn the_focused_title_is_accented() {
    let content = railed(80, 24);
    let layout = split_layout(content);
    let s = render(&layout, content, Some("editor"));
    assert!(s.contains(&sgr_fg(theme().pane_title_focus)));
    assert!(s.contains(&sgr_fg(theme().pane_title)));
}

#[test]
fn a_long_title_is_clipped_to_the_pane() {
    let content = railed(24, 6);
    let layout = single_layout(content);
    let s = render(&layout, content, Some("a-very-long-pane-title-indeed"));
    assert!(s.contains(ELLIPSIS), "expected an ellipsis in {s:?}");
    let rail_y = rail_row(content).unwrap();
    let width: u16 = painted_cells(&s)
        .into_iter()
        .filter(|(_, y, _)| *y == rail_y)
        .map(|(x, _, _)| x)
        .max()
        .unwrap();
    assert!(width < 24, "the rail overran the viewport: {width}");
}

#[test]
fn a_wide_title_is_clipped_by_display_width() {
    let content = railed(24, 6);
    let layout = single_layout(content);
    let s = render(&layout, content, Some("編集器編集器編集器編集器編集器"));
    let rail_y = rail_row(content).unwrap();
    let max_x: u16 = painted_cells(&s)
        .into_iter()
        .filter(|(_, y, _)| *y == rail_y)
        .map(|(x, _, _)| x)
        .max()
        .unwrap();
    assert!(max_x < 24, "a double-width title escaped its pane (max_x = {max_x})");
}

#[test]
fn an_empty_title_draws_nothing() {
    let content = railed(80, 24);
    let layout = split_layout(content);
    let with = render(&layout, content, Some(""));
    let without = render(&layout, content, None);
    assert_eq!(with, without);
}

#[test]
fn an_asking_pane_badges_on_its_title() {
    let content = railed(80, 24);
    let layout = split_layout(content);
    let mut s = String::new();
    render_dividers(&mut s, &layout, content, Some(&t(1)), &theme(), |_: &TerminalId| {
        Some(PaneLabel { text: "agent", agent: None, attention: true, seen: true })
    });
    assert!(s.contains('●'), "expected the attention badge in {s:?}");
    assert!(s.contains(&sgr_fg(theme().attention)));
}

#[test]
fn the_pane_badge_matches_the_sidebar_vocabulary() {
    let th = theme();
    for state in [
        AgentMetaState::Working,
        AgentMetaState::Blocked,
        AgentMetaState::Done,
        AgentMetaState::Idle,
    ] {
        let label = PaneLabel { text: "agent", agent: Some(state), attention: false, seen: true };
        let badge = label.badge(&th).expect("an agent pane badges");
        assert_eq!(badge, agent_badge(&th, state, false, true));
    }
}

#[test]
fn a_styled_run_emits_one_cup() {
    let content = railed(80, 6);
    let layout = single_layout(content);
    let s = render(&layout, content, None);
    let cups = extract_cups(&s);
    assert_eq!(cups.len(), 1, "an unbroken 80-cell rail should cost one CUP, got {}", cups.len());
    assert!(s.len() < 80 * 4, "per-cell escapes crept back in: {} bytes", s.len());
}

#[test]
fn compose_buffer_marks_pane_interiors_skip() {
    let content = railed(80, 24);
    let layout = split_layout(content);
    let buf = compose_buffer(&layout, content, Some(&t(1)), &theme(), unlabelled);
    for r in pane_rects(&layout) {
        for y in r.y..r.y + r.h {
            for x in r.x..r.x + r.w {
                let cell = buf.cell((x, y)).expect("in-bounds");
                assert!(
                    cell.diff_option == CellDiffOption::Skip,
                    "pane interior cell ({x}, {y}) in {r:?} not marked skip"
                );
            }
        }
    }
    for d in &layout.dividers {
        let cell = buf.cell((d.x, d.y)).expect("in-bounds");
        assert!(
            cell.diff_option != CellDiffOption::Skip,
            "divider cell ({}, {}) marked skip",
            d.x,
            d.y
        );
        assert_eq!(
            cell.symbol().chars().next(),
            Some(d.ch),
            "divider cell at ({}, {}) symbol mismatch",
            d.x,
            d.y
        );
    }
}

#[test]
fn help_table_targets_exist() {
    assert!(
        help_bindings().iter().any(|b| b.chord.contains("drag")),
        "the table must advertise the drag gesture"
    );
    let layout = split_layout(railed(80, 24));
    assert!(!layout.divider_hits.is_empty(), "a split layout must yield divider grab targets");
}

#[test]
fn compute_layout_covers_the_whole_viewport() {
    let tree = split(SplitDir::Horizontal, 0.5, leaf(1), leaf(2));
    let state = LayoutState { tree: Some(tree), focus: Some(t(1)) };
    let layout = compute_layout(&state, (80, 24));
    assert_eq!(layout.viewport, (80, 24));
}

#[test]
fn a_small_frame_is_emitted_byte_for_byte() {
    // One pane of six columns under a rail, focused, with a three-letter name:
    // two cells remain for it after the chrome.
    let content = railed(6, 3);
    let layout = single_layout(content);
    let mut s = String::new();
    render_labelled(
        &mut s,
        &layout,
        content,
        Some(t(1)),
        &theme(),
        &vec![Some(PaneLabel { text: " abc ", agent: None, attention: false, seen: true })],
    );
    // The whole rail is on the focused ring, so every cell of it was bold before
    // the title was inset and stays so.
    let rule = "\x1b[0m\x1b[1m\x1b[38;5;75m";
    let title = "\x1b[0m\x1b[1m\x1b[38;5;153m";
    let expected = format!(
        "\x1b[0m{rule}\x1b[1;1H─ {title}\x1b[1;3Ha…{rule}\x1b[1;5H ─\x1b[0m"
    );
    assert_eq!(s, expected);
}

#[test]
fn a_narrow_pane_gets_no_title() {
    let content = railed(4, 3);
    let layout = single_layout(content);
    assert_eq!(render(&layout, content, Some("abc")), render(&layout, content, None));
    // Room for one cell of text, but not beside a badge.
    let content = railed(6, 3);
    let layout = single_layout(content);
    let mut s = String::new();
    render_dividers(&mut s, &layout, content, Some(&t(1)), &theme(), |_: &TerminalId| {
        Some(PaneLabel { text: "abc", agent: None, attention: true, seen: true })
    });
    assert_eq!(s, render(&layout, content, None));
}

#[test]
fn a_badge_takes_two_cells_of_the_title() {
    let content = railed(12, 3);
    let layout = single_layout(content);
    let mut s = String::new();
    render_dividers(&mut s, &layout, content, Some(&t(1)), &theme(), |_: &TerminalId| {
        Some(PaneLabel {
            text: "abcdefgh",
            agent: Some(AgentMetaState::Done),
            attention: false,
            seen: false,
        })
    });
    let cells = cell_map(&s);
    let row: String = (0..12).map(|x| cells[&(x, 0)].clone()).collect();
    assert_eq!(row, "─ ✓ abcde… ─");
}

#[test]
fn a_wide_character_blanks_its_trailing_cell() {
    let content = railed(12, 3);
    let layout = single_layout(content);
    let label = |_: &TerminalId| {
        Some(PaneLabel { text: "編a", agent: None, attention: false, seen: true })
    };
    let buf = compose_buffer(&layout, content, Some(&t(1)), &theme(), label);
    let row: String = (0..12).map(|x| buf.cell((x, 0)).expect("in-bounds").symbol()).collect();
    assert_eq!(row, "─ 編 a ──────");
}

/// Decode the emitted stream as a terminal does, a wide symbol taking two cells
/// and a mark joining the symbol before it.
fn shown_cells(s: &str) -> HashMap<(u16, u16), String> {
    let mut cells: HashMap<(u16, u16), String> = HashMap::new();
    let (mut x, mut y) = (0u16, 0u16);
    let mut last = (0u16, 0u16);
    let mut chars = s.chars();
    while let Some(c) = chars.next() {
        if c == '\x1b' {
            let body: String = chars.by_ref().take_while(|c| *c != 'H' && *c != 'm').collect();
            if let Some((row, col)) = body.trim_start_matches('[').split_once(';') {
                if let (Ok(row), Ok(col)) = (row.parse::<u16>(), col.parse::<u16>()) {
                    (x, y) = (col - 1, row - 1);
                }
            }
        } else if UnicodeWidthChar::width(c) == Some(0) {
            cells.get_mut(&last).expect("a symbol to join").push(c);
        } else {
            last = (x, y);
            cells.insert(last, c.to_string());
            x += UnicodeWidthChar::width(c).unwrap_or(0) as u16;
        }
    }
    cells
}

#[test]
fn what_follows_a_wide_character_keeps_its_column() {
    let content = railed(12, 3);
    let layout = single_layout(content);
    let s = render(&layout, content, Some("編a"));
    assert!(s.contains("編a"), "the wide character's second cell is not written again");
    let cells = shown_cells(&s);
    assert_eq!(cells[&(2, 0)], "編");
    assert!(!cells.contains_key(&(3, 0)));
    assert_eq!(cells[&(4, 0)], "a");
    assert_eq!(cells[&(5, 0)], " ");
    for x in 6..12 {
        assert_eq!(cells[&(x, 0)], "─");
    }
    assert!(cells.keys().all(|(x, y)| *x < 12 && *y == 0), "nothing lands in the pane");
}

#[test]
fn a_mark_joins_the_character_before_it() {
    let content = railed(12, 3);
    let layout = single_layout(content);
    let cells = shown_cells(&render(&layout, content, Some("e\u{301}x")));
    assert_eq!(cells[&(2, 0)], "e\u{301}");
    assert_eq!(cells[&(3, 0)], "x");
    assert_eq!(cells[&(4, 0)], " ");
    assert_eq!(cells[&(5, 0)], "─");
}

#[test]
fn a_title_that_fits_is_shown_whole() {
    let content = railed(10, 3);
    let layout = single_layout(content);
    let cells = shown_cells(&render(&layout, content, Some("a編e\u{301}bc")));
    let row: Vec<&str> = (0..10).filter_map(|x| cells.get(&(x, 0))).map(String::as_str).collect();
    assert_eq!(row, vec!["─", " ", "a", "編", "e\u{301}", "b", "c", " ", "─"]);
}

#[test]
fn control_characters_take_no_cell() {
    let content = railed(12, 3);
    let layout = single_layout(content);
    let with = render(&layout, content, Some("a\u{7}b"));
    let without = render(&layout, content, Some("ab"));
    assert_eq!(with, without);
}

#[test]
fn direct_colours_are_written_out() {
    assert_eq!(sgr_fg(Color::Reset), "");
    assert_eq!(sgr_fg(Color::Indexed(9)), "\x1b[38;5;9m");
    assert_eq!(sgr_fg(Color::Rgb(1, 20, 255)), "\x1b[38;2;1;20;255m");
}

#[test]
fn the_ring_includes_its_corners_and_nothing_inside() {
    let frame = Some(Rect { x: 5, y: 3, w: 4, h: 2 });
    assert!(on_frame(frame, 4, 2));
    assert!(on_frame(frame, 9, 5));
    assert!(on_frame(frame, 6, 2));
    assert!(!on_frame(frame, 6, 3));
    assert!(!on_frame(frame, 10, 3));
    assert!(!on_frame(None, 4, 2));
}

#[test]
fn a_pane_at_the_edge_has_no_ring_on_that_side() {
    let frame = Some(Rect { x: 0, y: 1, w: 10, h: 5 });
    assert!(!on_frame(frame, 0, 3));
    assert!(on_frame(frame, 10, 3));
    assert!(on_frame(frame, 0, 0));
    assert!(on_frame(frame, 0, 6));
    let frame = Some(Rect { x: 3, y: 0, w: 4, h: 5 });
    assert!(!on_frame(frame, 4, 0));
    assert!(on_frame(frame, 2, 0));
    assert!(on_frame(frame, 4, 5));
}

#[test]
fn a_cross_of_rules_shows_its_junctions() {
    let content = railed(9, 6);
    let layout = cross_layout(content, t(2));
    let cells = cell_map(&render_with_focus(&layout, content, None, None));
    // The vertical rule is column 4, the horizontal one row 3 left of it.
    assert_eq!(cells[&(4, 0)], "┬");
    assert_eq!(cells[&(4, 1)], "│");
    assert_eq!(cells[&(4, 3)], "┤");
    assert_eq!(cells[&(0, 3)], "─");
    assert_eq!(cells[&(4, 5)], "│");
}
