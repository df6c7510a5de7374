//! What holds of every composed and emitted frame.
use vstd::prelude::*;

use crate::canvas::{in_screen, CellView, Screen};
use crate::dividers::{
    badge_of, badge_run, clipped, composed, covers_viewport, display_width, emit_cell, emit_row,
    emit_rows, frame_of, has_title_room, meets_rail, nothing_to_draw, on_ring, rail_end, rail_row_of,
    rail_run, rendered, rule_style_of, run_painted, shown, skipped_screen, title_run, total_width,
    width_or_zero, with_dividers, with_rail, with_tees, with_titles, EmitState, Ink, PaintOp, PaneLabel,
    TITLE_CHROME_CELLS,
};
use crate::grid::{lists, Spot};
use crate::layout::{Area, LayoutNode, TerminalId};
use crate::multi_pane::{divider_lines, is_layout_of, placed_panes, PaneLayout};
use crate::rasterize::{joined_grid, line_cells, saturated, DividerCell};
use crate::rasterize_laws::{law_painted_cells_are_grab_cells, lemma_grab_cell_is_covered};
use crate::text::trimmed;
use crate::theme::{CellStyle, Theme};
use crate::tiling::{tile_leaves, tile_segments, SegmentView};
use crate::tiling_laws::{
    law_a_rule_runs_above_each_pane, law_exact_tiling,
    law_panes_stay_in_bounds, leaf_cover, lemma_found_pane_was_placed, lemma_leaf_covers,
    segment_cover,
};

verus! {

pub(crate) proof fn lemma_shown_fits(text: Seq<char>, budget: nat)
    ensures
        shown(text, budget).len() <= budget,
        total_width(text) <= budget ==> shown(text, budget).len() == total_width(text),
    decreases text.len(),
{
    if text.len() > 0 {
        let rest = text.drop_first();
        lemma_total_width_of_first(text);
        match display_width(text[0]) {
            None => {
                lemma_shown_fits(rest, budget);
            },
            Some(w) => {
                if w == 0 {
                    lemma_shown_fits(rest, budget);
                } else if w <= budget {
                    lemma_shown_fits(rest, (budget - w) as nat);
                }
            },
        }
    }
}

pub(crate) proof fn lemma_total_width_of_first(text: Seq<char>)
    requires
        text.len() > 0,
    ensures
        total_width(text) == width_or_zero(text[0]) + total_width(text.drop_first()),
    decreases text.len(),
{
    if text.len() == 1 {
        assert(text.drop_last() =~= Seq::empty());
        assert(text.drop_first() =~= Seq::empty());
    } else {
        lemma_total_width_of_first(text.drop_last());
        assert(text.drop_last().drop_first() =~= text.drop_first().drop_last());
    }
}

/// A clipped text never takes more cells than its budget.
pub proof fn law_a_clipped_text_keeps_its_budget(text: Seq<char>, budget: nat)
    ensures
        clipped(text, budget).len() <= budget,
{
    lemma_shown_fits(text, budget);
    if budget > 0 {
        lemma_shown_fits(text, (budget - 1) as nat);
    }
}

/// A text that fits its budget is shown whole: it takes exactly the cells it is
/// wide.
pub proof fn law_a_text_that_fits_is_shown_whole(text: Seq<char>, budget: nat)
    requires
        0 < budget,
        total_width(text) <= budget,
    ensures
        clipped(text, budget).len() == total_width(text),
{
    lemma_shown_fits(text, budget);
}

/// A title leaves the rule cell before it and the one after it: in a pane `w`
/// cells wide it takes at most `w - 2`.
pub proof fn law_a_title_leaves_its_rule_closed(
    label: PaneLabel,
    w: int,
    theme: Theme,
    focused: bool,
)
    requires
        w > TITLE_CHROME_CELLS,
    ensures
        title_run(label, w, theme, focused).len() <= w - 2,
{
    let text = trimmed(label.text@);
    let badge = badge_run(badge_of(label, theme), theme, focused);
    let budget = w - TITLE_CHROME_CELLS - badge.len();
    if budget > 0 {
        law_a_clipped_text_keeps_its_budget(text, budget as nat);
    }
}

/// Two lists of labels that differ only between no label and a blank one
/// compose the same frame: an empty title draws nothing.
pub proof fn law_a_blank_title_draws_nothing(
    screen: Screen,
    rows: u16,
    panes: Seq<(TerminalId, Area)>,
    labels: Seq<Option<PaneLabel>>,
    focused: Option<TerminalId>,
    theme: Theme,
    n: nat,
)
    requires
        n <= labels.len(),
        forall|i: int|
            0 <= i < labels.len() ==> match #[trigger] labels[i] {
                Some(label) => trimmed(label.text@).len() == 0,
                None => true,
            },
    ensures
        with_titles(screen, rows, panes, labels, focused, theme, n) == screen,
    decreases n,
{
    if n > 0 {
        law_a_blank_title_draws_nothing(
            screen,
            rows,
            panes,
            labels,
            focused,
            theme,
            (n - 1) as nat,
        );
        assert(match labels[n - 1] {
            Some(label) => trimmed(label.text@).len() == 0,
            None => true,
        });
    }
}

/// A terminal that obeys the emitted stream: where its cursor is, the style in
/// force, what was written where, and every cell that was written over. A symbol
/// takes as many cells as it is wide.
#[verifier::ext_equal]
pub struct TermState {
    pub cursor: Spot,
    pub style: Option<CellStyle>,
    pub cells: Map<Spot, (Seq<char>, Option<CellStyle>)>,
    pub touched: Set<Spot>,
}

/// The symbol written at `at` takes the cell at `spot`.
pub open spec fn takes(symbol: Seq<char>, at: Spot, spot: Spot) -> bool {
    spot.1 == at.1 && at.0 <= spot.0 < at.0 + total_width(symbol)
}

/// The terminal after one step.
pub open spec fn obey(t: TermState, op: PaintOp) -> TermState {
    match op {
        PaintOp::Style(style) => TermState { style: Some(style), ..t },
        PaintOp::MoveTo(spot) => TermState { cursor: spot, ..t },
        PaintOp::Print(symbol) => {
            let taken = Set::new(|s: Spot| takes(symbol, t.cursor, s));
            TermState {
                cursor: (t.cursor.0 + total_width(symbol), t.cursor.1),
                cells: t.cells.remove_keys(taken).insert(t.cursor, (symbol, t.style)),
                touched: t.touched.union(taken),
                ..t
            }
        },
    }
}

/// The terminal after all steps, from a blank start.
pub open spec fn replay(ops: Seq<PaintOp>) -> TermState
    decreases ops.len(),
{
    if ops.len() == 0 {
        TermState { cursor: (0, 0), style: None, cells: Map::empty(), touched: Set::empty() }
    } else {
        obey(replay(ops.drop_last()), ops.last())
    }
}

/// The cell holds something to emit.
pub open spec fn visible(cell: CellView) -> bool {
    !cell.skip && cell.symbol.len() > 0
}

/// The first column of row `y` that the symbols of its first `n` cells leave free.
pub open spec fn reach(screen: Screen, y: int, n: nat) -> int
    decreases n,
{
    if n == 0 {
        0
    } else {
        let x = n - 1;
        let before = reach(screen, y, (n - 1) as nat);
        if x < before || !visible(screen[(x, y)]) {
            before
        } else {
            x + total_width(screen[(x, y)].symbol)
        }
    }
}

/// A wide symbol to its left reaches over the cell.
pub open spec fn reached_over(screen: Screen, spot: Spot) -> bool {
    0 <= spot.0 < reach(screen, spot.1, spot.0 as nat)
}

/// What the emitted cells of rows before `y`, and of row `y` before column `x`,
/// put on a terminal.
pub open spec fn visible_cells(
    screen: Screen,
    cols: u16,
    x: int,
    y: int,
) -> Map<Spot, (Seq<char>, Option<CellStyle>)> {
    Map::new(
        |s: Spot|
            0 <= s.0 < cols && 0 <= s.1 && (s.1 < y || (s.1 == y && s.0 < x)) && visible(screen[s])
                && !reached_over(screen, s),
        |s: Spot| (screen[s].symbol, Some(screen[s].style)),
    )
}

/// Every cell written over belongs to a cell that was emitted.
spec fn touched_by(screen: Screen, cols: u16, x: int, y: int, touched: Set<Spot>) -> bool {
    forall|s: Spot| #[trigger]
        touched.contains(s) <==> exists|at: Spot|
            #![trigger visible_cells(screen, cols, x, y).contains_key(at)]
            visible_cells(screen, cols, x, y).contains_key(at) && takes(screen[at].symbol, at, s)
}

/// The replayed terminal agrees with the emitter.
spec fn in_step(st: EmitState, y: int) -> bool {
    let t = replay(st.ops);
    &&& t.style == st.style
    &&& st.open ==> t.cursor == (st.next, y)
}

proof fn lemma_replay_push(ops: Seq<PaintOp>, op: PaintOp)
    ensures
        replay(ops.push(op)) == obey(replay(ops), op),
{
    assert(ops.push(op).drop_last() =~= ops);
}

proof fn lemma_replay_cell(
    screen: Screen,
    cols: u16,
    y: int,
    before: EmitState,
    x: int,
)
    requires
        0 <= y,
        0 <= x < cols,
        in_step(before, y),
        before.next == reach(screen, y, x as nat),
        replay(before.ops).cells == visible_cells(screen, cols, x, y),
        touched_by(screen, cols, x, y, replay(before.ops).touched),
    ensures
        ({
            let after = emit_cell(screen[(x, y)], (x, y), before);
            &&& in_step(after, y)
            &&& after.next == reach(screen, y, (x + 1) as nat)
            &&& replay(after.ops).cells == visible_cells(screen, cols, x + 1, y)
            &&& touched_by(screen, cols, x + 1, y, replay(after.ops).touched)
        }),
{
    let cell = screen[(x, y)];
    let after = emit_cell(cell, (x, y), before);
    let was = visible_cells(screen, cols, x, y);
    let now = visible_cells(screen, cols, x + 1, y);
    if visible(cell) && !reached_over(screen, (x, y)) {
        let styled = before.style == Some(cell.style);
        let ops1 = if styled {
            before.ops
        } else {
            before.ops.push(PaintOp::Style(cell.style))
        };
        lemma_replay_push(before.ops, PaintOp::Style(cell.style));
        lemma_replay_push(ops1, PaintOp::MoveTo((x, y)));
        let ops2 = if styled && before.open && before.next == x {
            ops1
        } else {
            ops1.push(PaintOp::MoveTo((x, y)))
        };
        lemma_replay_push(ops2, PaintOp::Print(cell.symbol));
        assert(replay(ops2).cursor == (x, y));
        assert(replay(after.ops).cells =~= now);
        assert(now.contains_key((x, y)));
        let touched = replay(after.ops).touched;
        assert forall|s: Spot| #[trigger] touched.contains(s) <==> exists|at: Spot|
            #![trigger now.contains_key(at)]
            now.contains_key(at) && takes(screen[at].symbol, at, s) by {
            if touched.contains(s) && replay(before.ops).touched.contains(s) {
                let at = choose|at: Spot|
                    #![trigger was.contains_key(at)]
                    was.contains_key(at) && takes(screen[at].symbol, at, s);
                assert(now.contains_key(at));
            }
            if exists|at: Spot|
                #![trigger now.contains_key(at)]
                now.contains_key(at) && takes(screen[at].symbol, at, s) {
                let at = choose|at: Spot|
                    #![trigger now.contains_key(at)]
                    now.contains_key(at) && takes(screen[at].symbol, at, s);
                if at != (x, y) {
                    assert(was.contains_key(at));
                }
            }
        }
    } else {
        assert(was =~= now);
    }
}

proof fn lemma_replay_row(screen: Screen, cols: u16, y: int, st: EmitState, n: nat)
    requires
        0 <= y,
        n <= cols,
        replay(st.ops).style == st.style,
        replay(st.ops).cells == visible_cells(screen, cols, 0, y),
        touched_by(screen, cols, 0, y, replay(st.ops).touched),
    ensures
        in_step(emit_row(screen, y, st, n), y),
        emit_row(screen, y, st, n).next == reach(screen, y, n),
        replay(emit_row(screen, y, st, n).ops).cells == visible_cells(screen, cols, n as int, y),
        touched_by(screen, cols, n as int, y, replay(emit_row(screen, y, st, n).ops).touched),
    decreases n,
{
    if n > 0 {
        lemma_replay_row(screen, cols, y, st, (n - 1) as nat);
        lemma_replay_cell(screen, cols, y, emit_row(screen, y, st, (n - 1) as nat), n - 1);
    }
}

proof fn lemma_replay_rows(screen: Screen, cols: u16, n: nat)
    ensures
        replay(emit_rows(screen, cols, n).ops).style == emit_rows(screen, cols, n).style,
        replay(emit_rows(screen, cols, n).ops).cells == visible_cells(screen, cols, 0, n as int),
        touched_by(screen, cols, 0, n as int, replay(emit_rows(screen, cols, n).ops).touched),
    decreases n,
{
    if n == 0 {
        assert(replay(emit_rows(screen, cols, n).ops).cells =~= visible_cells(screen, cols, 0, 0));
    } else {
        let st = emit_rows(screen, cols, (n - 1) as nat);
        lemma_replay_rows(screen, cols, (n - 1) as nat);
        lemma_replay_row(screen, cols, n - 1, st, cols as nat);
        assert(visible_cells(screen, cols, cols as int, n - 1) =~= visible_cells(
            screen,
            cols,
            0,
            n as int,
        ));
    }
}

/// The emitted stream paints exactly the cells that are neither skipped nor
/// reached over by a wide symbol, each with its own symbol and style at its own
/// place: cells without a cursor move of their own included.
pub proof fn law_the_stream_paints_the_visible_cells(screen: Screen, viewport: (u16, u16), spot: Spot)
    requires
        covers_viewport(screen, viewport),
    ensures
        ({
            let cells = replay(emit_rows(screen, viewport.0, viewport.1 as nat).ops).cells;
            &&& cells.contains_key(spot) <==> screen.contains_key(spot) && visible(screen[spot])
                && !reached_over(screen, spot)
            &&& cells.contains_key(spot) ==> cells[spot] == (
                screen[spot].symbol,
                Some(screen[spot].style),
            )
        }),
{
    lemma_replay_rows(screen, viewport.0, viewport.1 as nat);
}

/// The emitted stream writes over exactly the cells that the symbols it leaves
/// on the terminal take: no symbol covers another.
pub proof fn law_the_stream_touches_what_its_symbols_take(
    screen: Screen,
    viewport: (u16, u16),
    spot: Spot,
)
    ensures
        ({
            let t = replay(emit_rows(screen, viewport.0, viewport.1 as nat).ops);
            t.touched.contains(spot) <==> exists|at: Spot| #[trigger]
                t.cells.contains_key(at) && takes(t.cells[at].0, at, spot)
        }),
{
    let t = replay(emit_rows(screen, viewport.0, viewport.1 as nat).ops);
    lemma_replay_rows(screen, viewport.0, viewport.1 as nat);
    let cells = visible_cells(screen, viewport.0, 0, viewport.1 as int);
    if t.touched.contains(spot) {
        let at = choose|at: Spot|
            #![trigger cells.contains_key(at)]
            cells.contains_key(at) && takes(screen[at].symbol, at, spot);
        assert(t.cells.contains_key(at) && takes(t.cells[at].0, at, spot));
    }
    if exists|at: Spot| #[trigger]
        t.cells.contains_key(at) && takes(t.cells[at].0, at, spot) {
        let at = choose|at: Spot| #[trigger]
            t.cells.contains_key(at) && takes(t.cells[at].0, at, spot);
        assert(cells.contains_key(at) && takes(screen[at].symbol, at, spot));
    }
}

/// The symbols of columns `from..to` of row `y`, one step each, those of the
/// cells that a wide symbol reaches over left out.
pub open spec fn prints(screen: Screen, y: int, from: nat, to: nat) -> Seq<PaintOp>
    decreases to,
{
    if to <= from {
        Seq::empty()
    } else {
        let x = to - 1;
        let before = prints(screen, y, from, (to - 1) as nat);
        if reached_over(screen, (x, y)) {
            before
        } else {
            before.push(PaintOp::Print(screen[(x, y)].symbol))
        }
    }
}

proof fn lemma_next_is_reach(screen: Screen, y: int, st: EmitState, n: nat)
    ensures
        emit_row(screen, y, st, n).next == reach(screen, y, n),
    decreases n,
{
    if n > 0 {
        lemma_next_is_reach(screen, y, st, (n - 1) as nat);
    }
}

/// A run of same-styled cells costs one cursor move and at most one style,
/// however long it is and whatever is wide in it.
pub proof fn law_a_styled_run_costs_one_move(
    screen: Screen,
    cols: u16,
    y: int,
    st: EmitState,
    from: nat,
    to: nat,
    style: CellStyle,
)
    requires
        from < to <= cols,
        !emit_row(screen, y, st, from).open,
        !reached_over(screen, (from as int, y)),
        forall|x: int|
            from <= x < to ==> visible(#[trigger] screen[(x, y)]) && screen[(x, y)].style == style
                && total_width(screen[(x, y)].symbol) > 0,
    ensures
        ({
            let before = emit_row(screen, y, st, from);
            let lead = if before.style == Some(style) {
                Seq::<PaintOp>::empty()
            } else {
                seq![PaintOp::Style(style)]
            };
            let after = emit_row(screen, y, st, to);
            &&& after.ops == before.ops + lead + seq![PaintOp::MoveTo((from as int, y))] + prints(
                screen,
                y,
                from,
                to,
            )
            &&& after.style == Some(style)
            &&& after.open
            &&& after.next >= to
        }),
    decreases to,
{
    let before = emit_row(screen, y, st, from);
    let lead = if before.style == Some(style) {
        Seq::<PaintOp>::empty()
    } else {
        seq![PaintOp::Style(style)]
    };
    let head = before.ops + lead + seq![PaintOp::MoveTo((from as int, y))];
    let x = to - 1;
    assert(visible(screen[(x, y)]));
    lemma_next_is_reach(screen, y, st, x as nat);
    let after = emit_row(screen, y, st, to);
    if from == x {
        assert(prints(screen, y, from, x as nat) =~= Seq::empty());
        assert(after.ops =~= head + prints(screen, y, from, to));
    } else {
        law_a_styled_run_costs_one_move(screen, cols, y, st, from, x as nat, style);
        assert(after.ops =~= head + prints(screen, y, from, to));
    }
}

pub(crate) proof fn lemma_run_elsewhere(screen: Screen, x: int, y: int, run: Seq<Ink>, spot: Spot)
    requires
        forall|i: int| 0 <= i < run.len() ==> spot != (#[trigger] saturated(x + i), y),
    ensures
        run_painted(screen, x, y, run).contains_key(spot) == screen.contains_key(spot),
        run_painted(screen, x, y, run)[spot] == screen[spot],
    decreases run.len(),
{
    if run.len() > 0 {
        lemma_run_elsewhere(screen, x, y, run.drop_last(), spot);
        assert(spot != (saturated(x + (run.len() - 1)), y));
    }
}

pub(crate) proof fn lemma_dividers_elsewhere(
    screen: Screen,
    cells: Seq<DividerCell>,
    frame: Option<Area>,
    theme: Theme,
    spot: Spot,
)
    requires
        forall|i: int| 0 <= i < cells.len() ==> (#[trigger] cells[i]).spot() != spot,
    ensures
        with_dividers(screen, cells, frame, theme).contains_key(spot) == screen.contains_key(spot),
        with_dividers(screen, cells, frame, theme)[spot] == screen[spot],
    decreases cells.len(),
{
    if cells.len() > 0 {
        assert forall|i: int| 0 <= i < cells.drop_last().len() implies (
        #[trigger] cells.drop_last()[i]).spot() != spot by {
            assert(cells.drop_last()[i] == cells[i]);
        }
        lemma_dividers_elsewhere(screen, cells.drop_last(), frame, theme, spot);
        assert(cells[cells.len() - 1].spot() != spot);
    }
}

/// A rule cell is tinted by the focused frame alone: every divider cell in the
/// viewport shows its own glyph, accented and bold exactly when it is on the
/// ring around the focused pane.
pub proof fn law_focus_is_a_colour(
    viewport: (u16, u16),
    cells: Seq<DividerCell>,
    frame: Option<Area>,
    theme: Theme,
    k: int,
)
    requires
        0 <= k < cells.len(),
        forall|i: int, j: int|
            0 <= i < j < cells.len() ==> (#[trigger] cells[i]).spot() != (#[trigger] cells[j]).spot(),
        in_screen(viewport.0, viewport.1, cells[k].spot()),
    ensures
        with_dividers(skipped_screen(viewport.0, viewport.1), cells, frame, theme).contains_key(
            cells[k].spot(),
        ),
        with_dividers(skipped_screen(viewport.0, viewport.1), cells, frame, theme)[cells[k].spot()]
            == (CellView {
            symbol: seq![cells[k].ch],
            style: rule_style_of(theme, on_ring(frame, cells[k].spot())),
            skip: false,
        }),
    decreases cells.len(),
{
    let base = skipped_screen(viewport.0, viewport.1);
    let rest = cells.drop_last();
    if k < rest.len() {
        assert(cells[k].spot() != cells[cells.len() - 1].spot());
        assert forall|i: int, j: int| 0 <= i < j < rest.len() implies (#[trigger] rest[i]).spot()
            != (#[trigger] rest[j]).spot() by {
            assert(cells[i].spot() != cells[j].spot());
        }
        law_focus_is_a_colour(viewport, rest, frame, theme, k);
    } else {
        assert forall|i: int| 0 <= i < rest.len() implies (#[trigger] rest[i]).spot()
            != cells[k].spot() by {
            assert(cells[i].spot() != cells[k].spot());
        }
        lemma_dividers_elsewhere(base, rest, frame, theme, cells[k].spot());
    }
}

pub(crate) proof fn lemma_tees_elsewhere(
    screen: Screen,
    cells: Seq<DividerCell>,
    content: Area,
    cols: u16,
    y: int,
    frame: Option<Area>,
    theme: Theme,
    spot: Spot,
)
    requires
        spot.1 != y,
    ensures
        with_tees(screen, cells, content, cols, y, frame, theme).contains_key(spot)
            == screen.contains_key(spot),
        with_tees(screen, cells, content, cols, y, frame, theme)[spot] == screen[spot],
    decreases cells.len(),
{
    if cells.len() > 0 {
        lemma_tees_elsewhere(screen, cells.drop_last(), content, cols, y, frame, theme, spot);
    }
}

/// The symbol of the rail at column `x`: a tee where a vertical rule meets it.
pub open spec fn rail_symbol(cells: Seq<DividerCell>, content: Area, cols: u16, x: int) -> Seq<char> {
    if exists|i: int|
        0 <= i < cells.len() && (#[trigger] cells[i]).x == x && meets_rail(cells[i], content, cols) {
        seq!['\u{252c}']
    } else {
        seq!['\u{2500}']
    }
}

pub(crate) proof fn lemma_run_cell(screen: Screen, x: int, y: int, run: Seq<Ink>, k: int)
    requires
        0 <= x,
        0 <= k < run.len(),
        x + run.len() <= u16::MAX,
        screen.contains_key((x + k, y)),
    ensures
        run_painted(screen, x, y, run).contains_key((x + k, y)),
        run_painted(screen, x, y, run)[(x + k, y)].symbol == run[k].0,
        !run_painted(screen, x, y, run)[(x + k, y)].skip,
    decreases run.len(),
{
    let rest = run.drop_last();
    if k < rest.len() {
        lemma_run_cell(screen, x, y, rest, k);
    } else {
        assert forall|i: int| 0 <= i < rest.len() implies (x + k, y) != (
            #[trigger] saturated(x + i),
            y,
        ) by {}
        lemma_run_elsewhere(screen, x, y, rest, (x + k, y));
    }
}

proof fn lemma_tee_symbol(
    screen: Screen,
    cells: Seq<DividerCell>,
    content: Area,
    cols: u16,
    y: int,
    frame: Option<Area>,
    theme: Theme,
    x: int,
)
    requires
        screen.contains_key((x, y)),
        !screen[(x, y)].skip,
        screen[(x, y)].symbol == seq!['\u{2500}'],
    ensures
        ({
            let end = with_tees(screen, cells, content, cols, y, frame, theme);
            &&& end.contains_key((x, y))
            &&& !end[(x, y)].skip
            &&& end[(x, y)].symbol == rail_symbol(cells, content, cols, x)
        }),
    decreases cells.len(),
{
    if cells.len() > 0 {
        let rest = cells.drop_last();
        lemma_tee_symbol(screen, rest, content, cols, y, frame, theme, x);
        if exists|i: int|
            0 <= i < rest.len() && (#[trigger] rest[i]).x == x && meets_rail(
                rest[i],
                content,
                cols,
            ) {
            let i = choose|i: int|
                0 <= i < rest.len() && (#[trigger] rest[i]).x == x && meets_rail(
                    rest[i],
                    content,
                    cols,
                );
            assert(cells[i].x == x && meets_rail(cells[i], content, cols));
        }
        let c = cells.last();
        if c.x == x && meets_rail(c, content, cols) {
            assert(cells[cells.len() - 1].x == x);
        } else if exists|i: int|
            0 <= i < cells.len() && (#[trigger] cells[i]).x == x && meets_rail(
                cells[i],
                content,
                cols,
            ) {
            let i = choose|i: int|
                0 <= i < cells.len() && (#[trigger] cells[i]).x == x && meets_rail(
                    cells[i],
                    content,
                    cols,
                );
            assert(rest[i].x == x);
        }
    }
}

/// The rail closes the grid: over the full width of the pane area it is a rule,
/// and a tee exactly where a vertical rule drops out of it.
pub proof fn law_the_rail_tees_where_a_vertical_rule_meets_it(
    screen: Screen,
    viewport: (u16, u16),
    cells: Seq<DividerCell>,
    content: Area,
    frame: Option<Area>,
    theme: Theme,
    x: int,
)
    requires
        covers_viewport(screen, viewport),
        0 <= content.x,
        0 <= content.y,
        rail_row_of(content) is Some,
        rail_row_of(content)->0 < viewport.1,
        content.x <= x < rail_end(content, viewport.0),
    ensures
        ({
            let y = rail_row_of(content)->0;
            let end = with_rail(screen, viewport, cells, content, frame, theme);
            &&& end.contains_key((x, y))
            &&& !end[(x, y)].skip
            &&& end[(x, y)].symbol == rail_symbol(cells, content, viewport.0, x)
        }),
{
    let y = rail_row_of(content)->0;
    let run = rail_run(content, viewport.0, y, frame, theme);
    assert(screen.contains_key((x, y)));
    lemma_run_cell(screen, content.x, y, run, x - content.x);
    lemma_tee_symbol(
        run_painted(screen, content.x, y, run),
        cells,
        content,
        viewport.0,
        y,
        frame,
        theme,
        x,
    );
}

/// With no row reserved above the pane area there is no rail.
pub proof fn law_no_reserved_row_means_no_rail(
    screen: Screen,
    viewport: (u16, u16),
    cells: Seq<DividerCell>,
    content: Area,
    frame: Option<Area>,
    theme: Theme,
)
    requires
        content.y == 0,
    ensures
        with_rail(screen, viewport, cells, content, frame, theme) == screen,
{
}

/// No divider line crosses a pane.
pub open spec fn lines_clear_of_panes(node: LayoutNode, area: Area) -> bool {
    forall|x: int, y: int| #[trigger]
        segment_cover(tile_segments(node, area, Seq::empty(), true), x, y) > 0 ==> leaf_cover(
            tile_leaves(node, area, true),
            x,
            y,
        ) == 0
}

/// No divider line ever crosses a pane.
pub proof fn law_lines_stay_clear_of_panes(node: LayoutNode, area: Area)
    requires
        0 <= area.w,
        0 <= area.h,
    ensures
        lines_clear_of_panes(node, area),
{
    assert forall|x: int, y: int| #[trigger]
        segment_cover(tile_segments(node, area, Seq::empty(), true), x, y) > 0 implies leaf_cover(
        tile_leaves(node, area, true),
        x,
        y,
    ) == 0 by {
        law_exact_tiling(node, area, Seq::empty(), true, x, y);
    }
}

pub(crate) proof fn lemma_covered_by_one(segments: Seq<SegmentView>, i: int, x: int, y: int)
    requires
        0 <= i < segments.len(),
        segments[i].covers(x, y),
    ensures
        segment_cover(segments, x, y) > 0,
    decreases segments.len(),
{
    if i > 0 {
        assert(segments.drop_first()[i - 1] == segments[i]);
        lemma_covered_by_one(segments.drop_first(), i - 1, x, y);
    }
}

proof fn lemma_titles_elsewhere(
    screen: Screen,
    node: LayoutNode,
    content: Area,
    rows: u16,
    labels: Seq<Option<PaneLabel>>,
    focused: Option<TerminalId>,
    theme: Theme,
    n: nat,
    spot: Spot,
)
    requires
        content.fits(),
        lines_clear_of_panes(node, content),
        n <= placed_panes(Some(node), content).len(),
        leaf_cover(tile_leaves(node, content, true), spot.0, spot.1) > 0,
        content.contains(spot.0, spot.1),
    ensures
        ({
            let panes = placed_panes(Some(node), content);
            let end = with_titles(screen, rows, panes, labels, focused, theme, n);
            &&& end.contains_key(spot) == screen.contains_key(spot)
            &&& end[spot] == screen[spot]
        }),
    decreases n,
{
    if n > 0 {
        let panes = placed_panes(Some(node), content);
        let k = n - 1;
        lemma_titles_elsewhere(
            screen,
            node,
            content,
            rows,
            labels,
            focused,
            theme,
            (n - 1) as nat,
            spot,
        );
        let before = with_titles(screen, rows, panes, labels, focused, theme, (n - 1) as nat);
        let pane = panes[k].1;
        if labels[k] is Some && has_title_room(pane, rows) {
            let label = labels[k]->0;
            let run = title_run(label, pane.w, theme, focused == Some(panes[k].0));
            law_a_title_leaves_its_rule_closed(
                label,
                pane.w,
                theme,
                focused == Some(panes[k].0),
            );
            let leaves = tile_leaves(node, content, true);
            lemma_found_pane_was_placed(leaves, k);
            let j = choose|j: int| 0 <= j < leaves.len() && leaves[j] == panes[k];
            law_panes_stay_in_bounds(node, content, true, j);
            assert forall|i: int| 0 <= i < run.len() implies spot != (
                #[trigger] saturated(pane.x + 1 + i),
                pane.y - 1,
            ) by {
                let x = pane.x + 1 + i;
                assert(saturated(x) == x);
                if spot == (x, pane.y - 1) {
                    law_a_rule_runs_above_each_pane(node, content, Seq::empty(), true, j, x);
                    if pane.y != content.y {
                        assert(segment_cover(
                            tile_segments(node, content, Seq::empty(), true),
                            x,
                            pane.y - 1,
                        ) > 0);
                        assert(leaf_cover(leaves, x, pane.y - 1) == 0);
                    }
                }
            }
            lemma_run_elsewhere(before, pane.x + 1, pane.y - 1, run, spot);
        }
    }
}

/// The chrome never enters a pane: every cell of every pane stays skipped in
/// the composed frame, so nothing is ever emitted into it.
pub proof fn law_the_chrome_never_enters_a_pane(
    layout: PaneLayout,
    node: LayoutNode,
    content: Area,
    viewport: (u16, u16),
    focused: Option<TerminalId>,
    theme: Theme,
    labels: Seq<Option<PaneLabel>>,
    k: int,
    spot: Spot,
)
    requires
        is_layout_of(layout, Some(node), content, viewport),
        content.fits(),
        0 <= k < layout.rects@.len(),
        layout.rects@[k].1.contains(spot.0, spot.1),
        in_screen(viewport.0, viewport.1, spot),
    ensures
        ({
            let screen = composed(
                viewport,
                layout.rects@,
                layout.dividers@,
                content,
                focused,
                theme,
                labels,
            );
            screen.contains_key(spot) && screen[spot].skip
        }),
{
    let panes = layout.rects@;
    let cells = layout.dividers@;
    law_lines_stay_clear_of_panes(node, content);
    let leaves = tile_leaves(node, content, true);
    let lines = divider_lines(Some(node), content);
    lemma_found_pane_was_placed(leaves, k);
    let j = choose|j: int| 0 <= j < leaves.len() && leaves[j] == panes[k];
    law_panes_stay_in_bounds(node, content, true, j);
    lemma_leaf_covers(leaves, j, spot.0, spot.1);
    let frame = frame_of(panes, focused);
    let base = skipped_screen(viewport.0, viewport.1);
    let ruled = with_dividers(base, cells, frame, theme);
    assert forall|i: int| 0 <= i < cells.len() implies (#[trigger] cells[i]).spot() != spot by {
        if cells[i].spot() == spot {
            let grid = joined_grid(lines, None, panes, viewport);
            let spots = Seq::new(cells.len(), |i: int| cells[i].spot());
            assert(spots[i] == spot);
            assert(grid.dom().contains(spots[i]));
            law_painted_cells_are_grab_cells(lines, None, panes, viewport, spot);
            let l = choose|l: int|
                0 <= l < lines.len() && (#[trigger] line_cells(lines[l], viewport)).contains(spot);
            lemma_grab_cell_is_covered(lines[l], viewport, spot);
            lemma_covered_by_one(lines, l, spot.0, spot.1);
            assert(leaf_cover(leaves, spot.0, spot.1) == 0);
        }
    }
    lemma_dividers_elsewhere(base, cells, frame, theme, spot);
    let railed = with_rail(ruled, viewport, cells, content, frame, theme);
    if let Some(y) = rail_row_of(content) {
        if y < viewport.1 {
            let run = rail_run(content, viewport.0, y, frame, theme);
            lemma_run_elsewhere(ruled, content.x, y, run, spot);
            lemma_tees_elsewhere(
                run_painted(ruled, content.x, y, run),
                cells,
                content,
                viewport.0,
                y,
                frame,
                theme,
                spot,
            );
        }
    }
    lemma_titles_elsewhere(
        railed,
        node,
        content,
        viewport.1,
        labels,
        focused,
        theme,
        panes.len(),
        spot,
    );
}

/// A frame with chrome is enclosed in resets: no attribute comes in from an
/// earlier paint and none is left to the next.
pub proof fn law_resets_enclose_the_frame(
    viewport: (u16, u16),
    panes: Seq<(TerminalId, Area)>,
    cells: Seq<DividerCell>,
    content: Area,
    focused: Option<TerminalId>,
    theme: Theme,
    labels: Seq<Option<PaneLabel>>,
)
    requires
        !nothing_to_draw(viewport, cells, content),
    ensures
        ({
            let text = rendered(viewport, panes, cells, content, focused, theme, labels);
            let reset = "\u{1b}[0m"@;
            &&& text.len() >= 2 * reset.len()
            &&& text.take(reset.len() as int) == reset
            &&& text.skip(text.len() - reset.len()) == reset
        }),
{
    let text = rendered(viewport, panes, cells, content, focused, theme, labels);
    let reset = "\u{1b}[0m"@;
    assert(text.take(reset.len() as int) =~= reset);
    assert(text.skip(text.len() - reset.len()) =~= reset);
}

/// The last step so far, if there is one, writes a symbol.
pub open spec fn ends_in_a_symbol(ops: Seq<PaintOp>) -> bool {
    ops.len() > 0 ==> ops.last() is Print
}

proof fn lemma_row_ends_in_a_symbol(screen: Screen, y: int, st: EmitState, n: nat)
    requires
        ends_in_a_symbol(st.ops),
    ensures
        ends_in_a_symbol(emit_row(screen, y, st, n).ops),
    decreases n,
{
    if n > 0 {
        lemma_row_ends_in_a_symbol(screen, y, st, (n - 1) as nat);
    }
}

/// The layer never places the cursor for its own sake: what it writes ends in a
/// symbol and the closing reset, never in a cursor move.
pub proof fn law_the_stream_never_ends_in_a_move(screen: Screen, cols: u16, rows: nat)
    ensures
        ends_in_a_symbol(emit_rows(screen, cols, rows).ops),
    decreases rows,
{
    if rows > 0 {
        law_the_stream_never_ends_in_a_move(screen, cols, (rows - 1) as nat);
        lemma_row_ends_in_a_symbol(
            screen,
            rows - 1,
            emit_rows(screen, cols, (rows - 1) as nat),
            cols as nat,
        );
    }
}

} // verus!
