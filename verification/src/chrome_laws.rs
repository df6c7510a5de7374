//! What every cell of a composed frame shows: titles, rules, the rail, and
//! nothing anywhere else.
use vstd::prelude::*;

use crate::canvas::{in_screen, CellView, Screen};
use crate::dividers::{
    badge_of, clipped, composed, frame_of, has_title_room, labels_from, on_ring, painted,
    rail_row_of, rail_run, run_painted, skipped_screen, title_run, with_dividers, with_rail,
    with_tees, with_titles, Ink, PaneLabel,
};
use crate::dividers_laws::{
    law_a_title_leaves_its_rule_closed, law_focus_is_a_colour, lemma_covered_by_one,
    lemma_dividers_elsewhere, lemma_run_elsewhere, lemma_tees_elsewhere,
};
use crate::edge_laws::{law_divider_cells_are_the_covered_cells, starts_on_screen};
use crate::grid::{before, Spot};
use crate::layout::{lemma_slot_of, rect_of, slot_of, Area, LayoutNode, TerminalId};
use crate::multi_pane::{is_layout_of, placed_panes, PaneLayout};
use crate::rasterize::{joined_grid, saturated, DividerCell};
use crate::text::trimmed;
use crate::theme::{AgentMetaState, CellStyle, Color, Theme};
use crate::tiling::{tile_leaves, tile_segments};
use crate::tiling_laws::{
    law_a_visible_pane_starts_in_a_row_of_its_own, law_exact_tiling, law_panes_stay_in_bounds,
    lemma_found_pane_was_placed, lemma_segments_start_in_bounds,
};

verus! {

/// A cell is on the ring around a rectangle exactly when it is outside it and
/// next to it, corners included: inside the rectangle grown by a cell on every
/// side.
pub proof fn law_the_ring_is_what_surrounds_the_pane(r: Area, spot: Spot)
    requires
        0 <= r.w,
        0 <= r.h,
    ensures
        on_ring(Some(r), spot) <==> !r.contains(spot.0, spot.1) && (Area {
            x: r.x - 1,
            y: r.y - 1,
            w: r.w + 2,
            h: r.h + 2,
        }).contains(spot.0, spot.1),
        !on_ring(None, spot),
{
}

/// The cell is next to the focused pane, corners included.
pub open spec fn beside_the_focus(
    panes: Seq<(TerminalId, Area)>,
    focused: Option<TerminalId>,
    spot: Spot,
) -> bool {
    focused is Some && rect_of(panes, focused->0) is Some && {
        let r = rect_of(panes, focused->0)->0;
        &&& !r.contains(spot.0, spot.1)
        &&& r.x - 1 <= spot.0 <= r.x + r.w
        &&& r.y - 1 <= spot.1 <= r.y + r.h
    }
}

/// What a rule shows at a cell: its symbol, in the accent colour and bold next to
/// the focused pane, in the recessive colour and plain elsewhere.
pub open spec fn rule_cell(symbol: char, theme: Theme, lit: bool) -> CellView {
    CellView {
        symbol: seq![symbol],
        style: CellStyle {
            fg: if lit {
                theme.divider_focus
            } else {
                theme.divider
            },
            bold: lit,
        },
        skip: false,
    }
}

/// The pane's title may show at the cell: it is on the row above the pane, clear
/// of the pane's first and last column.
pub open spec fn in_title_of(pane: Area, spot: Spot) -> bool {
    spot.1 == pane.y - 1 && pane.x + 1 <= spot.0 < pane.x + pane.w - 1
}

/// No pane's title may show at the cell.
pub open spec fn clear_of_titles(panes: Seq<(TerminalId, Area)>, spot: Spot) -> bool {
    forall|j: int| 0 <= j < panes.len() ==> !in_title_of((#[trigger] panes[j]).1, spot)
}

proof fn lemma_run_ink(screen: Screen, x: int, y: int, run: Seq<Ink>, k: int)
    requires
        0 <= x,
        0 <= k < run.len(),
        x + run.len() <= u16::MAX,
        screen.contains_key((x + k, y)),
    ensures
        ({
            let end = run_painted(screen, x, y, run);
            &&& end.contains_key((x + k, y))
            &&& end[(x + k, y)] == (CellView {
                symbol: run[k].0,
                style: CellStyle {
                    fg: run[k].1.fg,
                    bold: run[k].1.bold || screen[(x + k, y)].style.bold,
                },
                skip: false,
            })
        }),
    decreases run.len(),
{
    let rest = run.drop_last();
    if k < rest.len() {
        lemma_run_ink(screen, x, y, rest, k);
    } else {
        assert forall|i: int| 0 <= i < rest.len() implies (x + k, y) != (
            #[trigger] saturated(x + i),
            y,
        ) by {}
        lemma_run_elsewhere(screen, x, y, rest, (x + k, y));
    }
}

proof fn lemma_titles_pass_by(
    screen: Screen,
    rows: u16,
    panes: Seq<(TerminalId, Area)>,
    labels: Seq<Option<PaneLabel>>,
    focused: Option<TerminalId>,
    theme: Theme,
    from: nat,
    n: nat,
    spot: Spot,
)
    requires
        from <= n <= panes.len(),
        forall|j: int|
            0 <= j < panes.len() ==> 0 <= (#[trigger] panes[j]).1.x && panes[j].1.x + panes[j].1.w
                <= u16::MAX,
        forall|j: int| from <= j < n ==> !in_title_of((#[trigger] panes[j]).1, spot),
    ensures
        ({
            let was = with_titles(screen, rows, panes, labels, focused, theme, from);
            let now = with_titles(screen, rows, panes, labels, focused, theme, n);
            &&& now.contains_key(spot) == was.contains_key(spot)
            &&& now[spot] == was[spot]
        }),
    decreases n,
{
    if from < n {
        let k = n - 1;
        lemma_titles_pass_by(
            screen,
            rows,
            panes,
            labels,
            focused,
            theme,
            from,
            (n - 1) as nat,
            spot,
        );
        let pane = panes[k].1;
        if labels[k] is Some && has_title_room(pane, rows) {
            let lit = focused == Some(panes[k].0);
            let run = title_run(labels[k]->0, pane.w, theme, lit);
            law_a_title_leaves_its_rule_closed(labels[k]->0, pane.w, theme, lit);
            assert(!in_title_of(panes[k].1, spot));
            assert forall|i: int| 0 <= i < run.len() implies spot != (
                #[trigger] saturated(pane.x + 1 + i),
                pane.y - 1,
            ) by {
                assert(saturated(pane.x + 1 + i) == pane.x + 1 + i);
            }
            lemma_run_elsewhere(
                with_titles(screen, rows, panes, labels, focused, theme, (n - 1) as nat),
                pane.x + 1,
                pane.y - 1,
                run,
                spot,
            );
        }
    }
}

proof fn lemma_titles_keep_cells(
    screen: Screen,
    rows: u16,
    panes: Seq<(TerminalId, Area)>,
    labels: Seq<Option<PaneLabel>>,
    focused: Option<TerminalId>,
    theme: Theme,
    n: nat,
    spot: Spot,
)
    ensures
        with_titles(screen, rows, panes, labels, focused, theme, n).contains_key(spot)
            == screen.contains_key(spot),
    decreases n,
{
    if n > 0 {
        lemma_titles_keep_cells(
            screen,
            rows,
            panes,
            labels,
            focused,
            theme,
            (n - 1) as nat,
            spot,
        );
        let k = n - 1;
        let pane = panes[k].1;
        if labels[k] is Some && has_title_room(pane, rows) {
            lemma_run_keeps_cells(
                with_titles(screen, rows, panes, labels, focused, theme, (n - 1) as nat),
                pane.x + 1,
                pane.y - 1,
                title_run(labels[k]->0, pane.w, theme, focused == Some(panes[k].0)),
                spot,
            );
        }
    }
}

proof fn lemma_run_keeps_cells(screen: Screen, x: int, y: int, run: Seq<Ink>, spot: Spot)
    ensures
        run_painted(screen, x, y, run).contains_key(spot) == screen.contains_key(spot),
    decreases run.len(),
{
    if run.len() > 0 {
        lemma_run_keeps_cells(screen, x, y, run.drop_last(), spot);
    }
}

proof fn lemma_tees_keep_cells(
    screen: Screen,
    cells: Seq<DividerCell>,
    content: Area,
    cols: u16,
    y: int,
    frame: Option<Area>,
    theme: Theme,
    spot: Spot,
)
    ensures
        with_tees(screen, cells, content, cols, y, frame, theme).contains_key(spot)
            == screen.contains_key(spot),
    decreases cells.len(),
{
    if cells.len() > 0 {
        lemma_tees_keep_cells(screen, cells.drop_last(), content, cols, y, frame, theme, spot);
    }
}

proof fn lemma_dividers_keep_cells(
    screen: Screen,
    cells: Seq<DividerCell>,
    frame: Option<Area>,
    theme: Theme,
    spot: Spot,
)
    ensures
        with_dividers(screen, cells, frame, theme).contains_key(spot) == screen.contains_key(spot),
    decreases cells.len(),
{
    if cells.len() > 0 {
        lemma_dividers_keep_cells(screen, cells.drop_last(), frame, theme, spot);
    }
}

proof fn lemma_rail_keeps_cells(
    screen: Screen,
    viewport: (u16, u16),
    cells: Seq<DividerCell>,
    content: Area,
    frame: Option<Area>,
    theme: Theme,
    spot: Spot,
)
    ensures
        with_rail(screen, viewport, cells, content, frame, theme).contains_key(spot)
            == screen.contains_key(spot),
{
    if let Some(y) = rail_row_of(content) {
        let run = rail_run(content, viewport.0, y, frame, theme);
        lemma_run_keeps_cells(screen, content.x, y, run, spot);
        lemma_tees_keep_cells(
            run_painted(screen, content.x, y, run),
            cells,
            content,
            viewport.0,
            y,
            frame,
            theme,
            spot,
        );
    }
}

/// The frame has exactly the viewport's cells.
pub proof fn law_a_frame_covers_the_viewport(
    viewport: (u16, u16),
    panes: Seq<(TerminalId, Area)>,
    cells: Seq<DividerCell>,
    content: Area,
    focused: Option<TerminalId>,
    theme: Theme,
    labels: Seq<Option<PaneLabel>>,
    spot: Spot,
)
    ensures
        composed(viewport, panes, cells, content, focused, theme, labels).contains_key(spot) <==> 0
            <= spot.0 < viewport.0 && 0 <= spot.1 < viewport.1,
{
    let frame = frame_of(panes, focused);
    let base = skipped_screen(viewport.0, viewport.1);
    let ruled = with_dividers(base, cells, frame, theme);
    let railed = with_rail(ruled, viewport, cells, content, frame, theme);
    lemma_dividers_keep_cells(base, cells, frame, theme, spot);
    lemma_rail_keeps_cells(ruled, viewport, cells, content, frame, theme, spot);
    lemma_titles_keep_cells(
        railed,
        viewport.1,
        panes,
        labels,
        focused,
        theme,
        panes.len(),
        spot,
    );
}

/// How many cells the label's badge takes, with the space after it.
pub open spec fn badge_cells(label: PaneLabel) -> int {
    if label.agent is Some || label.attention {
        2
    } else {
        0
    }
}

/// The symbols of a pane's title, cell by cell: a space, the badge and a space
/// where there is a badge, the text clipped to what the pane is wide less the
/// badge and four cells, and a space.
pub open spec fn title_symbols(label: PaneLabel, w: int, theme: Theme) -> Seq<Seq<char>> {
    let room = w - 4 - badge_cells(label);
    let badge = if badge_cells(label) == 2 {
        seq![badge_of(label, theme)->0.glyph@, seq![' ']]
    } else {
        Seq::empty()
    };
    seq![seq![' ']] + badge + clipped(trimmed(label.text@), room as nat) + seq![seq![' ']]
}

/// Every labelled pane shows its title on the row above it, from its second
/// column on: wherever there is such a row in the viewport, the pane is wider than
/// four cells and the badge, and the text is not blank. The title is in the
/// title colour, the focused one's in its own and bold. A pane without rows is
/// left out where another starts at its very place.
pub proof fn law_every_labelled_pane_shows_its_title(
    layout: PaneLayout,
    node: LayoutNode,
    content: Area,
    viewport: (u16, u16),
    focused: Option<TerminalId>,
    theme: Theme,
    labels: Seq<Option<PaneLabel>>,
    k: int,
    i: int,
)
    requires
        is_layout_of(layout, Some(node), content, viewport),
        content.fits(),
        layout.rects@.len() <= labels.len(),
        0 <= k < layout.rects@.len(),
        labels[k] is Some,
        ({
            let pane = layout.rects@[k].1;
            let label = labels[k]->0;
            &&& pane.h >= 1 || forall|j: int|
                0 <= j < layout.rects@.len() && j != k ==> (#[trigger] layout.rects@[j]).1.y
                    != pane.y
            &&& pane.y >= 1
            &&& pane.y - 1 < viewport.1
            &&& pane.w > 4 + badge_cells(label)
            &&& trimmed(label.text@).len() > 0
            &&& 0 <= i < title_symbols(label, pane.w, theme).len()
            &&& pane.x + 1 + i < viewport.0
        }),
    ensures
        ({
            let pane = layout.rects@[k].1;
            let label = labels[k]->0;
            let lit = focused == Some(layout.rects@[k].0);
            let symbols = title_symbols(label, pane.w, theme);
            let text = 1 + badge_cells(label);
            let cell = composed(
                viewport,
                layout.rects@,
                layout.dividers@,
                content,
                focused,
                theme,
                labels,
            )[(pane.x + 1 + i, pane.y - 1)];
            &&& !cell.skip
            &&& cell.symbol == symbols[i]
            &&& text <= i < symbols.len() - 1 ==> cell.style.fg == (if lit {
                theme.pane_title_focus
            } else {
                theme.pane_title
            })
            &&& text <= i < symbols.len() - 1 && lit ==> cell.style.bold
            &&& i == 0 || i == symbols.len() - 1 || (badge_cells(label) == 2 && i == 2)
                ==> cell.style.fg == (if lit {
                theme.divider_focus
            } else {
                theme.divider
            })
            &&& badge_cells(label) == 2 && i == 1 ==> cell.style.fg == badge_of(
                label,
                theme,
            )->0.color && (badge_of(label, theme)->0.emphatic ==> cell.style.bold)
        }),
{
    let panes = layout.rects@;
    let cells = layout.dividers@;
    let pane = panes[k].1;
    let label = labels[k]->0;
    let lit = focused == Some(panes[k].0);
    let frame = frame_of(panes, focused);
    let base = skipped_screen(viewport.0, viewport.1);
    let ruled = with_dividers(base, cells, frame, theme);
    let railed = with_rail(ruled, viewport, cells, content, frame, theme);
    let run = title_run(label, pane.w, theme, lit);
    let symbols = title_symbols(label, pane.w, theme);
    let spot: Spot = (pane.x + 1 + i, pane.y - 1);
    assert forall|j: int| 0 <= j < panes.len() implies 0 <= (#[trigger] panes[j]).1.x
        && panes[j].1.x + panes[j].1.w <= u16::MAX by {
        lemma_pane_in_bounds(node, content, panes, j);
    }
    lemma_pane_in_bounds(node, content, panes, k);
    assert(run.len() == symbols.len());
    assert(run[i].0 == symbols[i]);
    law_a_title_leaves_its_rule_closed(label, pane.w, theme, lit);
    let was = with_titles(railed, viewport.1, panes, labels, focused, theme, k as nat);
    lemma_dividers_keep_cells(base, cells, frame, theme, spot);
    lemma_rail_keeps_cells(ruled, viewport, cells, content, frame, theme, spot);
    lemma_titles_keep_cells(railed, viewport.1, panes, labels, focused, theme, k as nat, spot);
    lemma_run_ink(was, pane.x + 1, pane.y - 1, run, i);
    assert forall|j: int| k + 1 <= j < panes.len() implies !in_title_of(
        (#[trigger] panes[j]).1,
        spot,
    ) by {
        if in_title_of(panes[j].1, spot) {
            lemma_pane_in_bounds(node, content, panes, j);
            lemma_no_shared_start(node, content, layout, viewport, k, j, spot.0);
        }
    }
    lemma_titles_pass_by(
        railed,
        viewport.1,
        panes,
        labels,
        focused,
        theme,
        (k + 1) as nat,
        panes.len(),
        spot,
    );
}

proof fn lemma_pane_in_bounds(
    node: LayoutNode,
    content: Area,
    panes: Seq<(TerminalId, Area)>,
    k: int,
)
    requires
        content.fits(),
        panes == placed_panes(Some(node), content),
        0 <= k < panes.len(),
    ensures
        0 <= panes[k].1.x,
        0 <= panes[k].1.w,
        0 <= panes[k].1.h,
        content.y <= panes[k].1.y,
        panes[k].1.x + panes[k].1.w <= u16::MAX,
        panes[k].1.y <= u16::MAX,
{
    let leaves = tile_leaves(node, content, true);
    lemma_found_pane_was_placed(leaves, k);
    let j = choose|j: int| 0 <= j < leaves.len() && leaves[j] == panes[k];
    law_panes_stay_in_bounds(node, content, true, j);
}

proof fn lemma_no_shared_start(
    node: LayoutNode,
    content: Area,
    layout: PaneLayout,
    viewport: (u16, u16),
    k: int,
    j: int,
    x: int,
)
    requires
        is_layout_of(layout, Some(node), content, viewport),
        content.fits(),
        0 <= k < layout.rects@.len(),
        0 <= j < layout.rects@.len(),
        j != k,
        layout.rects@[k].1.h >= 1,
        layout.rects@[k].1.x <= x < layout.rects@[k].1.x + layout.rects@[k].1.w,
        layout.rects@[j].1.x <= x < layout.rects@[j].1.x + layout.rects@[j].1.w,
    ensures
        layout.rects@[j].1.y != layout.rects@[k].1.y,
{
    let panes = layout.rects@;
    let leaves = tile_leaves(node, content, true);
    lemma_found_pane_was_placed(leaves, k);
    lemma_found_pane_was_placed(leaves, j);
    let a = choose|a: int| 0 <= a < leaves.len() && leaves[a] == panes[k];
    let b = choose|b: int| 0 <= b < leaves.len() && leaves[b] == panes[j];
    assert(panes[k].0 != panes[j].0) by {
        if k < j {
            assert(panes[k].0 != panes[j].0);
        } else {
            assert(panes[j].0 != panes[k].0);
        }
    }
    law_a_visible_pane_starts_in_a_row_of_its_own(node, content, true, a, b, x);
}

/// The badge of a label: the agent's own by its state, the asking one where the
/// agent waits on a human, else by whether the user has looked; without an agent
/// the attention badge where a human is waited on, and none where not.
pub proof fn law_a_badge_tells_the_agents_state(label: PaneLabel, theme: Theme)
    ensures
        label.agent is None && !label.attention ==> badge_of(label, theme) is None,
        label.agent is None && label.attention ==> {
            &&& badge_of(label, theme) is Some
            &&& badge_of(label, theme)->0.color == theme.attention
            &&& badge_of(label, theme)->0.glyph@ == "\u{25cf}"@
            &&& badge_of(label, theme)->0.emphatic
        },
        label.agent is Some ==> badge_of(label, theme) is Some,
        label.agent is Some && label.attention ==> badge_of(label, theme) == Some(
            match label.agent->0 {
                AgentMetaState::Working => theme.working.asking,
                AgentMetaState::Blocked => theme.blocked.asking,
                AgentMetaState::Done => theme.done.asking,
                AgentMetaState::Idle => theme.idle.asking,
            },
        ),
        label.agent is Some && !label.attention && label.seen ==> badge_of(label, theme) == Some(
            match label.agent->0 {
                AgentMetaState::Working => theme.working.seen,
                AgentMetaState::Blocked => theme.blocked.seen,
                AgentMetaState::Done => theme.done.seen,
                AgentMetaState::Idle => theme.idle.seen,
            },
        ),
        label.agent is Some && !label.attention && !label.seen ==> badge_of(label, theme) == Some(
            match label.agent->0 {
                AgentMetaState::Working => theme.working.unseen,
                AgentMetaState::Blocked => theme.blocked.unseen,
                AgentMetaState::Done => theme.done.unseen,
                AgentMetaState::Idle => theme.idle.unseen,
            },
        ),
{
}

/// Every divider cell that no title may cover shows its glyph, lit next to the
/// focused pane and recessive elsewhere.
pub proof fn law_every_divider_cell_is_shown(
    layout: PaneLayout,
    node: LayoutNode,
    content: Area,
    viewport: (u16, u16),
    focused: Option<TerminalId>,
    theme: Theme,
    labels: Seq<Option<PaneLabel>>,
    d: int,
)
    requires
        is_layout_of(layout, Some(node), content, viewport),
        content.fits(),
        0 <= d < layout.dividers@.len(),
        clear_of_titles(layout.rects@, layout.dividers@[d].spot()),
    ensures
        ({
            let spot = layout.dividers@[d].spot();
            composed(viewport, layout.rects@, layout.dividers@, content, focused, theme, labels)[spot]
                == rule_cell(
                layout.dividers@[d].ch,
                theme,
                beside_the_focus(layout.rects@, focused, spot),
            )
        }),
{
    let panes = layout.rects@;
    let cells = layout.dividers@;
    let spot = cells[d].spot();
    let frame = frame_of(panes, focused);
    let base = skipped_screen(viewport.0, viewport.1);
    let ruled = with_dividers(base, cells, frame, theme);
    let railed = with_rail(ruled, viewport, cells, content, frame, theme);
    lemma_divider_in_content(layout, node, content, viewport, d);
    lemma_dividers_are_distinct(layout, node, content, viewport);
    law_focus_is_a_colour(viewport, cells, frame, theme, d);
    lemma_ring_is_beside(node, content, layout, viewport, focused, spot);
    if let Some(y) = rail_row_of(content) {
        let run = rail_run(content, viewport.0, y, frame, theme);
        lemma_run_elsewhere(ruled, content.x, y, run, spot);
        lemma_tees_elsewhere(
            run_painted(ruled, content.x, y, run),
            cells,
            content,
            viewport.0,
            y,
            frame,
            theme,
            spot,
        );
    }
    lemma_titles_leave_clear_cells(layout, node, content, viewport, focused, theme, labels, spot);
}

proof fn lemma_titles_leave_clear_cells(
    layout: PaneLayout,
    node: LayoutNode,
    content: Area,
    viewport: (u16, u16),
    focused: Option<TerminalId>,
    theme: Theme,
    labels: Seq<Option<PaneLabel>>,
    spot: Spot,
)
    requires
        is_layout_of(layout, Some(node), content, viewport),
        content.fits(),
        clear_of_titles(layout.rects@, spot),
    ensures
        ({
            let frame = frame_of(layout.rects@, focused);
            let base = skipped_screen(viewport.0, viewport.1);
            let ruled = with_dividers(base, layout.dividers@, frame, theme);
            let railed = with_rail(ruled, viewport, layout.dividers@, content, frame, theme);
            composed(viewport, layout.rects@, layout.dividers@, content, focused, theme, labels)[spot]
                == railed[spot]
        }),
{
    let panes = layout.rects@;
    let frame = frame_of(panes, focused);
    let base = skipped_screen(viewport.0, viewport.1);
    let ruled = with_dividers(base, layout.dividers@, frame, theme);
    let railed = with_rail(ruled, viewport, layout.dividers@, content, frame, theme);
    assert forall|j: int| 0 <= j < panes.len() implies 0 <= (#[trigger] panes[j]).1.x
        && panes[j].1.x + panes[j].1.w <= u16::MAX by {
        lemma_pane_in_bounds(node, content, panes, j);
    }
    lemma_titles_pass_by(
        railed,
        viewport.1,
        panes,
        labels,
        focused,
        theme,
        0,
        panes.len(),
        spot,
    );
}

proof fn lemma_ring_is_beside(
    node: LayoutNode,
    content: Area,
    layout: PaneLayout,
    viewport: (u16, u16),
    focused: Option<TerminalId>,
    spot: Spot,
)
    requires
        is_layout_of(layout, Some(node), content, viewport),
        content.fits(),
    ensures
        on_ring(frame_of(layout.rects@, focused), spot) == beside_the_focus(
            layout.rects@,
            focused,
            spot,
        ),
{
    let panes = layout.rects@;
    if focused is Some && rect_of(panes, focused->0) is Some {
        lemma_slot_of(panes, focused->0);
        lemma_pane_in_bounds(node, content, panes, slot_of(panes, focused->0));
        law_the_ring_is_what_surrounds_the_pane(rect_of(panes, focused->0)->0, spot);
    }
}

proof fn lemma_divider_in_content(
    layout: PaneLayout,
    node: LayoutNode,
    content: Area,
    viewport: (u16, u16),
    d: int,
)
    requires
        is_layout_of(layout, Some(node), content, viewport),
        content.fits(),
        0 <= d < layout.dividers@.len(),
    ensures
        content.contains(layout.dividers@[d].x as int, layout.dividers@[d].y as int),
        in_screen(viewport.0, viewport.1, layout.dividers@[d].spot()),
{
    let cells = layout.dividers@;
    let spot = cells[d].spot();
    let lines = tile_segments(node, content, Seq::empty(), true);
    let grid = joined_grid(lines, None, layout.rects@, viewport);
    let spots = Seq::new(cells.len(), |i: int| cells[i].spot());
    assert(spots[d] == spot);
    assert(grid.dom().contains(spots[d]));
    lemma_segments_start_in_bounds(node, content, Seq::empty(), true);
    assert forall|i: int| 0 <= i < lines.len() implies starts_on_screen(#[trigger] lines[i]) by {}
    law_divider_cells_are_the_covered_cells(lines, None, layout.rects@, viewport, spot);
    let l = choose|l: int| 0 <= l < lines.len() && (#[trigger] lines[l]).covers(spot.0, spot.1);
    lemma_covered_by_one(lines, l, spot.0, spot.1);
    law_exact_tiling(node, content, Seq::empty(), true, spot.0, spot.1);
}

proof fn lemma_dividers_are_distinct(
    layout: PaneLayout,
    node: LayoutNode,
    content: Area,
    viewport: (u16, u16),
)
    requires
        is_layout_of(layout, Some(node), content, viewport),
    ensures
        forall|i: int, j: int|
            0 <= i < j < layout.dividers@.len() ==> (#[trigger] layout.dividers@[i]).spot() != (
            #[trigger] layout.dividers@[j]).spot(),
{
    let cells = layout.dividers@;
    let spots = Seq::new(cells.len(), |i: int| cells[i].spot());
    assert forall|i: int, j: int| 0 <= i < j < cells.len() implies (#[trigger] cells[i]).spot() != (
    #[trigger] cells[j]).spot() by {
        assert(before(spots[i], spots[j]));
    }
}

/// A vertical rule drops out of the rail there: the cell below is a divider cell
/// that a rule runs down from and, if it also runs sideways or up, straight on.
pub open spec fn rule_drops_at(cells: Seq<DividerCell>, x: int, y: int) -> bool {
    exists|d: int|
        {
            &&& 0 <= d < cells.len()
            &&& (#[trigger] cells[d]).x == x
            &&& cells[d].y == y
            &&& cells[d].ch == '\u{2502}' || cells[d].ch == '\u{251c}' || cells[d].ch == '\u{2524}'
                || cells[d].ch == '\u{253c}' || cells[d].ch == '\u{252c}'
        }
}

proof fn lemma_rail_cell(
    screen: Screen,
    viewport: (u16, u16),
    cells: Seq<DividerCell>,
    content: Area,
    frame: Option<Area>,
    theme: Theme,
    x: int,
)
    requires
        content.fits(),
        content.y >= 1,
        content.w >= 1,
        content.h >= 1,
        content.x <= x < content.x + content.w,
        x < viewport.0,
        content.y - 1 < viewport.1,
        screen.contains_key((x, content.y - 1)),
        !screen[(x, content.y - 1)].style.bold,
    ensures
        ({
            let end = with_rail(screen, viewport, cells, content, frame, theme);
            end[(x, content.y - 1)] == rule_cell(
                if rule_drops_at(cells, x, content.y) {
                    '\u{252c}'
                } else {
                    '\u{2500}'
                },
                theme,
                on_ring(frame, (x, content.y - 1)),
            )
        }),
{
    let y = content.y - 1;
    let run = rail_run(content, viewport.0, y, frame, theme);
    lemma_run_ink(screen, content.x, y, run, x - content.x);
    lemma_tee_cell(
        run_painted(screen, content.x, y, run),
        viewport,
        cells,
        content,
        frame,
        theme,
        x,
    );
}

proof fn lemma_tee_cell(
    screen: Screen,
    viewport: (u16, u16),
    cells: Seq<DividerCell>,
    content: Area,
    frame: Option<Area>,
    theme: Theme,
    x: int,
)
    requires
        content.fits(),
        content.x <= x < content.x + content.w,
        x < viewport.0,
        screen.contains_key((x, content.y - 1)),
        screen[(x, content.y - 1)] == rule_cell(
            '\u{2500}',
            theme,
            on_ring(frame, (x, content.y - 1)),
        ),
    ensures
        ({
            let end = with_tees(screen, cells, content, viewport.0, content.y - 1, frame, theme);
            &&& end.contains_key((x, content.y - 1))
            &&& end[(x, content.y - 1)] == rule_cell(
                if rule_drops_at(cells, x, content.y) {
                    '\u{252c}'
                } else {
                    '\u{2500}'
                },
                theme,
                on_ring(frame, (x, content.y - 1)),
            )
        }),
    decreases cells.len(),
{
    if cells.len() > 0 {
        let rest = cells.drop_last();
        lemma_tee_cell(screen, viewport, rest, content, frame, theme, x);
        let c = cells[cells.len() - 1];
        if rule_drops_at(rest, x, content.y) {
            let d = choose|d: int|
                {
                    &&& 0 <= d < rest.len()
                    &&& (#[trigger] rest[d]).x == x
                    &&& rest[d].y == content.y
                    &&& rest[d].ch == '\u{2502}' || rest[d].ch == '\u{251c}' || rest[d].ch
                        == '\u{2524}' || rest[d].ch == '\u{253c}' || rest[d].ch == '\u{252c}'
                };
            assert(cells[d] == rest[d]);
        }
        if rule_drops_at(cells, x, content.y) {
            let d = choose|d: int|
                {
                    &&& 0 <= d < cells.len()
                    &&& (#[trigger] cells[d]).x == x
                    &&& cells[d].y == content.y
                    &&& cells[d].ch == '\u{2502}' || cells[d].ch == '\u{251c}' || cells[d].ch
                        == '\u{2524}' || cells[d].ch == '\u{253c}' || cells[d].ch == '\u{252c}'
                };
            if d < rest.len() {
                assert(rest[d] == cells[d]);
            }
        }
    } else {
        assert(!rule_drops_at(cells, x, content.y));
    }
}

/// The rail closes the grid: on the row above the pane area, over its whole
/// width, every cell that no title may cover is a rule, teed where a vertical
/// rule drops out of it, and lit next to the focused pane.
pub proof fn law_the_rail_runs_above_the_panes(
    layout: PaneLayout,
    node: LayoutNode,
    content: Area,
    viewport: (u16, u16),
    focused: Option<TerminalId>,
    theme: Theme,
    labels: Seq<Option<PaneLabel>>,
    x: int,
)
    requires
        is_layout_of(layout, Some(node), content, viewport),
        content.fits(),
        content.y >= 1,
        content.h >= 1,
        content.y - 1 < viewport.1,
        content.x <= x < content.x + content.w,
        x < viewport.0,
        clear_of_titles(layout.rects@, (x, content.y - 1)),
    ensures
        composed(viewport, layout.rects@, layout.dividers@, content, focused, theme, labels)[(
            x,
            content.y - 1,
        )] == rule_cell(
            if rule_drops_at(layout.dividers@, x, content.y) {
                '\u{252c}'
            } else {
                '\u{2500}'
            },
            theme,
            beside_the_focus(layout.rects@, focused, (x, content.y - 1)),
        ),
{
    let spot: Spot = (x, content.y - 1);
    let panes = layout.rects@;
    let cells = layout.dividers@;
    let frame = frame_of(panes, focused);
    let base = skipped_screen(viewport.0, viewport.1);
    let ruled = with_dividers(base, cells, frame, theme);
    assert forall|d: int| 0 <= d < cells.len() implies (#[trigger] cells[d]).spot() != spot by {
        lemma_divider_in_content(layout, node, content, viewport, d);
    }
    lemma_dividers_elsewhere(base, cells, frame, theme, spot);
    lemma_rail_cell(ruled, viewport, cells, content, frame, theme, x);
    lemma_ring_is_beside(node, content, layout, viewport, focused, spot);
    lemma_titles_leave_clear_cells(layout, node, content, viewport, focused, theme, labels, spot);
}

/// Nothing else is painted: a cell that is no divider cell, not on the rail and
/// under no title stays skipped and blank.
pub proof fn law_nothing_else_is_painted(
    layout: PaneLayout,
    node: LayoutNode,
    content: Area,
    viewport: (u16, u16),
    focused: Option<TerminalId>,
    theme: Theme,
    labels: Seq<Option<PaneLabel>>,
    spot: Spot,
)
    requires
        is_layout_of(layout, Some(node), content, viewport),
        content.fits(),
        0 <= spot.0 < viewport.0,
        0 <= spot.1 < viewport.1,
        forall|d: int|
            0 <= d < layout.dividers@.len() ==> (#[trigger] layout.dividers@[d]).spot() != spot,
        content.w == 0 || content.h == 0 || spot.1 != content.y - 1 || spot.0 < content.x || spot.0
            >= content.x + content.w,
        clear_of_titles(layout.rects@, spot),
    ensures
        composed(viewport, layout.rects@, layout.dividers@, content, focused, theme, labels)[spot]
            == (CellView {
            symbol: seq![' '],
            style: CellStyle { fg: Color::Reset, bold: false },
            skip: true,
        }),
{
    let panes = layout.rects@;
    let cells = layout.dividers@;
    let frame = frame_of(panes, focused);
    let base = skipped_screen(viewport.0, viewport.1);
    let ruled = with_dividers(base, cells, frame, theme);
    lemma_dividers_elsewhere(base, cells, frame, theme, spot);
    if let Some(y) = rail_row_of(content) {
        let run = rail_run(content, viewport.0, y, frame, theme);
        assert forall|i: int| 0 <= i < run.len() implies spot != (
            #[trigger] saturated(content.x + i),
            y,
        ) by {
            assert(saturated(content.x + i) == content.x + i);
        }
        lemma_run_elsewhere(ruled, content.x, y, run, spot);
        lemma_tees_off_the_rail(
            run_painted(ruled, content.x, y, run),
            cells,
            content,
            viewport.0,
            y,
            frame,
            theme,
            spot,
        );
    }
    lemma_titles_leave_clear_cells(layout, node, content, viewport, focused, theme, labels, spot);
}

proof fn lemma_tees_off_the_rail(
    screen: Screen,
    cells: Seq<DividerCell>,
    content: Area,
    cols: u16,
    y: int,
    frame: Option<Area>,
    theme: Theme,
    spot: Spot,
)
    requires
        content.fits(),
        spot.1 != y || spot.0 < content.x || spot.0 >= content.x + content.w,
    ensures
        with_tees(screen, cells, content, cols, y, frame, theme)[spot] == screen[spot],
    decreases cells.len(),
{
    if cells.len() > 0 {
        lemma_tees_off_the_rail(screen, cells.drop_last(), content, cols, y, frame, theme, spot);
    }
}

/// Every pane that has a place for a title is asked for its label, and shows the
/// answer; the others are asked for none.
pub proof fn law_every_pane_with_a_place_is_asked<'p, F: Fn(&TerminalId) -> Option<PaneLabel<'p>>>(
    label_of: F,
    panes: Seq<(TerminalId, Area)>,
    rows: u16,
    labels: Seq<Option<PaneLabel<'p>>>,
    k: int,
)
    requires
        labels_from(label_of, panes, rows, labels),
        0 <= k < panes.len(),
    ensures
        labels.len() == panes.len(),
        panes[k].1.y >= 1 && panes[k].1.y - 1 < rows && panes[k].1.w > 4 ==> call_ensures(
            label_of,
            (&panes[k].0,),
            labels[k],
        ),
        panes[k].1.y < 1 || panes[k].1.y - 1 >= rows || panes[k].1.w <= 4 ==> labels[k] is None,
{
}

/// A blank text, or a pane that is no wider than four cells and the badge, gets no
/// title.
pub proof fn law_a_title_needs_text_and_room(
    label: PaneLabel,
    w: int,
    theme: Theme,
    focused: bool,
)
    ensures
        trimmed(label.text@).len() == 0 || w <= 4 + badge_cells(label) ==> title_run(
            label,
            w,
            theme,
            focused,
        ).len() == 0,
{
}

/// The rail is on the row above the pane area, where the area has cells and does
/// not start at the top.
pub proof fn law_the_rail_is_above_the_pane_area(content: Area)
    ensures
        content.y != 0 && content.w != 0 && content.h != 0 ==> rail_row_of(content) == Some(
            content.y - 1,
        ),
        content.y == 0 || content.w == 0 || content.h == 0 ==> rail_row_of(content) is None,
{
}

} // verus!
