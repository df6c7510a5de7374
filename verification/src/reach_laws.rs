//! No symbol of a composed frame reaches into a cell that the frame leaves alone.
use vstd::prelude::*;

use crate::canvas::{in_screen, Screen};
use crate::dividers::{
    badge_of, badge_run, blanks, clipped, composed, covers_viewport, display_width, emit_rows, frame_of,
    has_title_room, marks, on_ring, pad_ink, painted, rail_end, rail_row_of, rail_run, rule_style_of,
    run_painted, shown, skipped_screen, text_run, title_run, title_style_of, total_width, width_or_zero, with_dividers,
    with_rail, with_tees, with_titles, Ink, PaneLabel, ELLIPSIS, TITLE_CHROME_CELLS,
};
use crate::dividers_laws::{
    law_a_title_leaves_its_rule_closed, law_the_chrome_never_enters_a_pane,
    law_the_stream_paints_the_visible_cells, law_the_stream_touches_what_its_symbols_take,
    lemma_run_cell, lemma_run_elsewhere, replay, takes, visible,
};
use crate::grid::Spot;
use crate::layout::{Area, LayoutNode, TerminalId};
use crate::multi_pane::{divider_lines, is_layout_of, placed_panes, PaneLayout};
use crate::rasterize::{joined_grid, saturated, DividerCell};
use crate::rasterize_laws::{is_light_glyph, law_without_focus_the_grid_is_light};
use crate::text::trimmed;
use crate::theme::{CellStyle, Theme};
use crate::tiling::tile_leaves;
use crate::tiling_laws::{law_panes_stay_in_bounds, lemma_found_pane_was_placed};

verus! {

/// Every cell that a visible symbol takes is on the screen and not skipped.
pub open spec fn keeps_inside(screen: Screen) -> bool {
    forall|at: Spot, s: Spot| #[trigger]
        takes(screen[at].symbol, at, s) && screen.contains_key(at) && visible(screen[at])
            ==> screen.contains_key(s) && !screen[s].skip
}

/// The rules, the blank and the mark of a cut take one cell each.
pub open spec fn rules_are_narrow() -> bool {
    &&& forall|ch: char| #[trigger] is_light_glyph(ch) ==> display_width(ch) == Some(1usize)
    &&& display_width(ELLIPSIS) == Some(1usize)
}

/// The badges that the labels show take two cells at most: their own and the
/// space after it.
pub open spec fn badges_are_narrow(labels: Seq<Option<PaneLabel>>, theme: Theme) -> bool {
    forall|i: int|
        0 <= i < labels.len() ==> match #[trigger] labels[i] {
            Some(label) => narrow_badge(label, theme),
            None => true,
        }
}

/// The label's badge, if it has one, takes two cells at most.
pub open spec fn narrow_badge(label: PaneLabel, theme: Theme) -> bool {
    match badge_of(label, theme) {
        Some(badge) => total_width(badge.glyph@) <= 2,
        None => true,
    }
}

/// On a screen where no symbol reaches a skipped cell, the emitted stream never
/// writes over one, nor past the screen's edge.
pub proof fn law_the_stream_leaves_skipped_cells_alone(
    screen: Screen,
    viewport: (u16, u16),
    spot: Spot,
)
    requires
        covers_viewport(screen, viewport),
        keeps_inside(screen),
    ensures
        replay(emit_rows(screen, viewport.0, viewport.1 as nat).ops).touched.contains(spot)
            ==> screen.contains_key(spot) && !screen[spot].skip,
{
    let t = replay(emit_rows(screen, viewport.0, viewport.1 as nat).ops);
    law_the_stream_touches_what_its_symbols_take(screen, viewport, spot);
    if t.touched.contains(spot) {
        let at = choose|at: Spot| #[trigger]
            t.cells.contains_key(at) && takes(t.cells[at].0, at, spot);
        law_the_stream_paints_the_visible_cells(screen, viewport, at);
        assert(takes(screen[at].symbol, at, spot));
    }
}

/// Every symbol of the run ends inside it.
spec fn ends_inside(run: Seq<Ink>) -> bool {
    forall|i: int| 0 <= i < run.len() ==> i + total_width((#[trigger] run[i]).0) <= run.len()
}

proof fn lemma_ends_inside_concat(a: Seq<Ink>, b: Seq<Ink>)
    requires
        ends_inside(a),
        ends_inside(b),
    ensures
        ends_inside(a + b),
{
    let run = a + b;
    assert forall|i: int| 0 <= i < run.len() implies i + total_width((#[trigger] run[i]).0)
        <= run.len() by {
        if i < a.len() {
            assert(run[i] == a[i]);
        } else {
            assert(run[i] == b[i - a.len()]);
        }
    }
}

proof fn lemma_total_width_concat(a: Seq<char>, b: Seq<char>)
    ensures
        total_width(a + b) == total_width(a) + total_width(b),
    decreases b.len(),
{
    if b.len() == 0 {
        assert(a + b =~= a);
    } else {
        assert((a + b).drop_last() =~= a + b.drop_last());
        lemma_total_width_concat(a, b.drop_last());
    }
}

proof fn lemma_one_char_width(c: char)
    ensures
        total_width(seq![c]) == width_or_zero(c),
{
    assert(seq![c].drop_last() =~= Seq::empty());
    assert(total_width(Seq::<char>::empty()) == 0);
}

proof fn lemma_marks_take_no_cell(text: Seq<char>)
    ensures
        total_width(marks(text)) == 0,
    decreases text.len(),
{
    if text.len() > 0 {
        let rest = text.drop_first();
        match display_width(text[0]) {
            None => {
                lemma_marks_take_no_cell(rest);
            },
            Some(w) => {
                if w == 0 {
                    lemma_marks_take_no_cell(rest);
                    lemma_total_width_concat(seq![text[0]], marks(rest));
                    lemma_one_char_width(text[0]);
                }
            },
        }
    }
}

proof fn lemma_shown_ends_inside(text: Seq<char>, budget: nat, style: CellStyle)
    requires
        display_width(' ') == Some(1usize),
    ensures
        ends_inside(text_run(shown(text, budget), style)),
    decreases text.len(),
{
    if text.len() > 0 {
        let rest = text.drop_first();
        match display_width(text[0]) {
            None => {
                lemma_shown_ends_inside(rest, budget, style);
            },
            Some(w) => {
                if w == 0 {
                    lemma_shown_ends_inside(rest, budget, style);
                } else if w <= budget {
                    let cell = seq![text[0]] + marks(rest);
                    let head = seq![cell] + blanks((w - 1) as nat);
                    let tail = shown(rest, (budget - w) as nat);
                    lemma_marks_take_no_cell(rest);
                    lemma_total_width_concat(seq![text[0]], marks(rest));
                    lemma_one_char_width(text[0]);
                    lemma_one_char_width(' ');
                    let run = text_run(head, style);
                    assert forall|i: int| 0 <= i < run.len() implies i + total_width(
                        (#[trigger] run[i]).0,
                    ) <= run.len() by {
                        if i == 0 {
                            assert(run[i].0 == cell);
                        } else {
                            assert(run[i].0 == seq![' ']);
                        }
                    }
                    lemma_shown_ends_inside(rest, (budget - w) as nat, style);
                    lemma_ends_inside_concat(run, text_run(tail, style));
                    assert(text_run(head + tail, style) =~= run + text_run(tail, style));
                }
            },
        }
    }
}

proof fn lemma_title_ends_inside(label: PaneLabel, w: int, theme: Theme, focused: bool)
    requires
        rules_are_narrow(),
        narrow_badge(label, theme),
    ensures
        ends_inside(title_run(label, w, theme, focused)),
{
    let text = trimmed(label.text@);
    let badge = badge_run(badge_of(label, theme), theme, focused);
    let budget = w - TITLE_CHROME_CELLS - badge.len();
    if text.len() > 0 && budget > 0 {
        let style = title_style_of(theme, focused);
        let pad = seq![pad_ink(theme, focused)];
        assert(is_light_glyph(' '));
        lemma_one_char_width(' ');
        lemma_one_char_width(ELLIPSIS);
        assert(ends_inside(pad));
        assert(ends_inside(badge));
        let cells = clipped(text, budget as nat);
        if total_width(text) <= budget {
            lemma_shown_ends_inside(text, budget as nat, style);
        } else {
            let start = shown(text, (budget - 1) as nat);
            let cut = seq![seq![ELLIPSIS]];
            lemma_shown_ends_inside(text, (budget - 1) as nat, style);
            assert(ends_inside(text_run(cut, style)));
            lemma_ends_inside_concat(text_run(start, style), text_run(cut, style));
            assert(text_run(cells, style) =~= text_run(start, style) + text_run(cut, style));
        }
        lemma_ends_inside_concat(pad, badge);
        lemma_ends_inside_concat(pad + badge, text_run(cells, style));
        lemma_ends_inside_concat(pad + badge + text_run(cells, style), pad);
    }
}

proof fn lemma_run_covers(screen: Screen, viewport: (u16, u16), x: int, y: int, run: Seq<Ink>)
    requires
        covers_viewport(screen, viewport),
    ensures
        covers_viewport(run_painted(screen, x, y, run), viewport),
    decreases run.len(),
{
    if run.len() > 0 {
        lemma_run_covers(screen, viewport, x, y, run.drop_last());
    }
}

/// The spot is on the run's cells.
spec fn on_run(x: int, y: int, run: Seq<Ink>, spot: Spot) -> bool {
    spot.1 == y && x <= spot.0 < x + run.len()
}

proof fn lemma_run_spot(
    screen: Screen,
    viewport: (u16, u16),
    x: int,
    y: int,
    run: Seq<Ink>,
    spot: Spot,
)
    requires
        covers_viewport(screen, viewport),
        0 <= x,
        x + run.len() <= viewport.0,
        screen.contains_key(spot),
    ensures
        ({
            let end = run_painted(screen, x, y, run);
            &&& on_run(x, y, run, spot) ==> end[spot].symbol == run[spot.0 - x].0
                && !end[spot].skip
            &&& !on_run(x, y, run, spot) ==> end[spot] == screen[spot]
        }),
{
    if on_run(x, y, run, spot) {
        lemma_run_cell(screen, x, y, run, spot.0 - x);
    } else {
        assert forall|i: int| 0 <= i < run.len() implies spot != (
            #[trigger] saturated(x + i),
            y,
        ) by {
            assert(saturated(x + i) == x + i);
        }
        lemma_run_elsewhere(screen, x, y, run, spot);
    }
}

proof fn lemma_run_keeps_inside(
    screen: Screen,
    viewport: (u16, u16),
    x: int,
    y: int,
    run: Seq<Ink>,
)
    requires
        covers_viewport(screen, viewport),
        keeps_inside(screen),
        ends_inside(run),
        0 <= x,
        x + run.len() <= viewport.0,
    ensures
        covers_viewport(run_painted(screen, x, y, run), viewport),
        keeps_inside(run_painted(screen, x, y, run)),
{
    let end = run_painted(screen, x, y, run);
    lemma_run_covers(screen, viewport, x, y, run);
    assert forall|at: Spot, s: Spot| #[trigger]
        takes(end[at].symbol, at, s) && end.contains_key(at) && visible(
            end[at],
        ) implies end.contains_key(s) && !end[s].skip by {
        assert(screen.contains_key(at));
        lemma_run_spot(screen, viewport, x, y, run, at);
        if on_run(x, y, run, at) {
            let k = at.0 - x;
            assert(k + total_width(run[k].0) <= run.len());
            assert(on_run(x, y, run, s));
            assert(in_screen(viewport.0, viewport.1, s));
        } else {
            assert(takes(screen[at].symbol, at, s));
        }
        assert(screen.contains_key(s));
        lemma_run_spot(screen, viewport, x, y, run, s);
    }
}

proof fn lemma_paint_keeps_inside(screen: Screen, viewport: (u16, u16), spot: Spot, ink: Ink)
    requires
        covers_viewport(screen, viewport),
        keeps_inside(screen),
        total_width(ink.0) <= 1,
    ensures
        covers_viewport(painted(screen, spot, ink), viewport),
        keeps_inside(painted(screen, spot, ink)),
{
    let end = painted(screen, spot, ink);
    assert forall|at: Spot, s: Spot| #[trigger]
        takes(end[at].symbol, at, s) && end.contains_key(at) && visible(
            end[at],
        ) implies end.contains_key(s) && !end[s].skip by {
        if at != spot {
            assert(takes(screen[at].symbol, at, s));
        } else {
            assert(s == at);
        }
    }
}

proof fn lemma_dividers_keep_inside(
    screen: Screen,
    viewport: (u16, u16),
    cells: Seq<DividerCell>,
    frame: Option<Area>,
    theme: Theme,
)
    requires
        covers_viewport(screen, viewport),
        keeps_inside(screen),
        rules_are_narrow(),
        forall|i: int| 0 <= i < cells.len() ==> is_light_glyph((#[trigger] cells[i]).ch),
    ensures
        covers_viewport(with_dividers(screen, cells, frame, theme), viewport),
        keeps_inside(with_dividers(screen, cells, frame, theme)),
    decreases cells.len(),
{
    if cells.len() > 0 {
        let rest = cells.drop_last();
        assert forall|i: int| 0 <= i < rest.len() implies is_light_glyph(
            (#[trigger] rest[i]).ch,
        ) by {
            assert(rest[i] == cells[i]);
        }
        lemma_dividers_keep_inside(screen, viewport, rest, frame, theme);
        let c = cells[cells.len() - 1];
        assert(is_light_glyph(c.ch));
        lemma_one_char_width(c.ch);
        lemma_paint_keeps_inside(
            with_dividers(screen, rest, frame, theme),
            viewport,
            c.spot(),
            (seq![c.ch], rule_style_of(theme, on_ring(frame, c.spot()))),
        );
    }
}

proof fn lemma_tees_keep_inside(
    screen: Screen,
    viewport: (u16, u16),
    cells: Seq<DividerCell>,
    content: Area,
    y: int,
    frame: Option<Area>,
    theme: Theme,
)
    requires
        covers_viewport(screen, viewport),
        keeps_inside(screen),
        rules_are_narrow(),
    ensures
        covers_viewport(with_tees(screen, cells, content, viewport.0, y, frame, theme), viewport),
        keeps_inside(with_tees(screen, cells, content, viewport.0, y, frame, theme)),
    decreases cells.len(),
{
    if cells.len() > 0 {
        let rest = cells.drop_last();
        lemma_tees_keep_inside(screen, viewport, rest, content, y, frame, theme);
        let spot = (cells.last().x as int, y);
        assert(is_light_glyph('\u{252c}'));
        lemma_one_char_width('\u{252c}');
        lemma_paint_keeps_inside(
            with_tees(screen, rest, content, viewport.0, y, frame, theme),
            viewport,
            spot,
            (seq!['\u{252c}'], rule_style_of(theme, on_ring(frame, spot))),
        );
    }
}

proof fn lemma_rail_keeps_inside(
    screen: Screen,
    viewport: (u16, u16),
    cells: Seq<DividerCell>,
    content: Area,
    frame: Option<Area>,
    theme: Theme,
)
    requires
        covers_viewport(screen, viewport),
        keeps_inside(screen),
        rules_are_narrow(),
        content.fits(),
        content.x + content.w <= viewport.0,
    ensures
        covers_viewport(with_rail(screen, viewport, cells, content, frame, theme), viewport),
        keeps_inside(with_rail(screen, viewport, cells, content, frame, theme)),
{
    if let Some(y) = rail_row_of(content) {
        if y < viewport.1 {
            let run = rail_run(content, viewport.0, y, frame, theme);
            assert(is_light_glyph('\u{2500}'));
            lemma_one_char_width('\u{2500}');
            assert(ends_inside(run));
            assert(content.x + run.len() == rail_end(content, viewport.0));
            lemma_run_keeps_inside(screen, viewport, content.x, y, run);
            lemma_tees_keep_inside(
                run_painted(screen, content.x, y, run),
                viewport,
                cells,
                content,
                y,
                frame,
                theme,
            );
        }
    }
}

proof fn lemma_titles_keep_inside(
    screen: Screen,
    viewport: (u16, u16),
    node: LayoutNode,
    content: Area,
    labels: Seq<Option<PaneLabel>>,
    focused: Option<TerminalId>,
    theme: Theme,
    n: nat,
)
    requires
        covers_viewport(screen, viewport),
        keeps_inside(screen),
        rules_are_narrow(),
        badges_are_narrow(labels, theme),
        content.fits(),
        content.x + content.w <= viewport.0,
        placed_panes(Some(node), content).len() <= labels.len(),
        n <= placed_panes(Some(node), content).len(),
    ensures
        ({
            let panes = placed_panes(Some(node), content);
            let end = with_titles(screen, viewport.1, panes, labels, focused, theme, n);
            covers_viewport(end, viewport) && keeps_inside(end)
        }),
    decreases n,
{
    if n > 0 {
        let panes = placed_panes(Some(node), content);
        let k = n - 1;
        lemma_titles_keep_inside(
            screen,
            viewport,
            node,
            content,
            labels,
            focused,
            theme,
            (n - 1) as nat,
        );
        let before = with_titles(screen, viewport.1, panes, labels, focused, theme, (n - 1) as nat);
        let pane = panes[k].1;
        if labels[k] is Some && has_title_room(pane, viewport.1) {
            let label = labels[k]->0;
            let lit = focused == Some(panes[k].0);
            assert(narrow_badge(label, theme));
            lemma_title_ends_inside(label, pane.w, theme, lit);
            law_a_title_leaves_its_rule_closed(label, pane.w, theme, lit);
            let leaves = tile_leaves(node, content, true);
            lemma_found_pane_was_placed(leaves, k);
            let j = choose|j: int| 0 <= j < leaves.len() && leaves[j] == panes[k];
            law_panes_stay_in_bounds(node, content, true, j);
            lemma_run_keeps_inside(
                before,
                viewport,
                pane.x + 1,
                pane.y - 1,
                title_run(label, pane.w, theme, lit),
            );
        }
    }
}

/// No symbol of a composed frame, a wide one in a title included, reaches a
/// skipped cell or the far side of the screen's edge.
pub proof fn law_a_composed_frame_keeps_inside(
    layout: PaneLayout,
    node: LayoutNode,
    content: Area,
    viewport: (u16, u16),
    focused: Option<TerminalId>,
    theme: Theme,
    labels: Seq<Option<PaneLabel>>,
)
    requires
        is_layout_of(layout, Some(node), content, viewport),
        content.fits(),
        content.x + content.w <= viewport.0,
        layout.rects@.len() <= labels.len(),
        rules_are_narrow(),
        badges_are_narrow(labels, theme),
    ensures
        ({
            let screen = composed(
                viewport,
                layout.rects@,
                layout.dividers@,
                content,
                focused,
                theme,
                labels,
            );
            covers_viewport(screen, viewport) && keeps_inside(screen)
        }),
{
    let panes = layout.rects@;
    let cells = layout.dividers@;
    let frame = frame_of(panes, focused);
    let base = skipped_screen(viewport.0, viewport.1);
    let lines = divider_lines(Some(node), content);
    let grid = joined_grid(lines, None, panes, viewport);
    let spots = Seq::new(cells.len(), |i: int| cells[i].spot());
    assert forall|i: int| 0 <= i < cells.len() implies is_light_glyph((#[trigger] cells[i]).ch) by {
        assert(spots[i] == cells[i].spot());
        assert(grid.dom().contains(spots[i]));
        law_without_focus_the_grid_is_light(lines, panes, viewport, cells[i].spot());
    }
    lemma_dividers_keep_inside(base, viewport, cells, frame, theme);
    let ruled = with_dividers(base, cells, frame, theme);
    lemma_rail_keeps_inside(ruled, viewport, cells, content, frame, theme);
    lemma_titles_keep_inside(
        with_rail(ruled, viewport, cells, content, frame, theme),
        viewport,
        node,
        content,
        labels,
        focused,
        theme,
        panes.len(),
    );
}

/// A terminal that obeys the emitted frame keeps every cell of every pane as it
/// was, however wide the titles' characters are.
pub proof fn law_the_stream_never_writes_into_a_pane(
    layout: PaneLayout,
    node: LayoutNode,
    content: Area,
    viewport: (u16, u16),
    focused: Option<TerminalId>,
    theme: Theme,
    labels: Seq<Option<PaneLabel>>,
    k: int,
    spot: Spot,
)
    requires
        is_layout_of(layout, Some(node), content, viewport),
        content.fits(),
        content.x + content.w <= viewport.0,
        layout.rects@.len() <= labels.len(),
        rules_are_narrow(),
        badges_are_narrow(labels, theme),
        0 <= k < layout.rects@.len(),
        layout.rects@[k].1.contains(spot.0, spot.1),
    ensures
        ({
            let screen = composed(
                viewport,
                layout.rects@,
                layout.dividers@,
                content,
                focused,
                theme,
                labels,
            );
            !replay(emit_rows(screen, viewport.0, viewport.1 as nat).ops).touched.contains(spot)
        }),
{
    let screen = composed(
        viewport,
        layout.rects@,
        layout.dividers@,
        content,
        focused,
        theme,
        labels,
    );
    law_a_composed_frame_keeps_inside(layout, node, content, viewport, focused, theme, labels);
    law_the_stream_leaves_skipped_cells_alone(screen, viewport, spot);
    if in_screen(viewport.0, viewport.1, spot) {
        law_the_chrome_never_enters_a_pane(
            layout,
            node,
            content,
            viewport,
            focused,
            theme,
            labels,
            k,
            spot,
        );
    }
}

} // verus!
