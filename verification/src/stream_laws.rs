//! What the emitted stream says, byte for byte, and what a layout holds.
use vstd::prelude::*;

use crate::dividers::{composed, emit_rows, op_text, ops_text, rendered, PaintOp, PaneLabel};
use crate::edge_laws::{
    law_divider_cells_are_the_covered_cells, law_line_cells_are_the_covered_cells, on_a_line,
    starts_on_screen,
};
use crate::grid::{before, Spot};
use crate::layout::{rect_of, Area, LayoutNode, TerminalId};
use crate::multi_pane::{is_layout_of, PaneLayout};
use crate::rasterize::{glyph_of, joined_grid, DividerCell};
use crate::text::decimal;
use crate::theme::{CellStyle, Color, Theme};
use crate::tiling::{tile_leaves, tile_segments};
use crate::tiling_laws::{law_every_pane_receives_a_rect, lemma_segments_start_in_bounds};

verus! {

/// A cursor move names the row and then the column, counted from one; a style is
/// a reset, bold if it is bold, and its colour; a symbol is itself.
pub proof fn law_each_step_has_its_sequence(x: int, y: int, style: CellStyle, symbol: Seq<char>)
    ensures
        0 <= x < u16::MAX && 0 <= y < u16::MAX ==> op_text(PaintOp::MoveTo((x, y))) == "\u{1b}["@
            + decimal((y + 1) as nat) + ";"@ + decimal((x + 1) as nat) + "H"@,
        op_text(PaintOp::Print(symbol)) == symbol,
        !style.bold && style.fg == Color::Reset ==> op_text(PaintOp::Style(style)) == "\u{1b}[0m"@,
        style.bold && style.fg == Color::Reset ==> op_text(PaintOp::Style(style)) == "\u{1b}[0m"@
            + "\u{1b}[1m"@,
        !style.bold && style.fg is Indexed ==> op_text(PaintOp::Style(style)) == "\u{1b}[0m"@
            + "\u{1b}[38;5;"@ + decimal(style.fg->Indexed_0 as nat) + "m"@,
        style.bold && style.fg is Indexed ==> op_text(PaintOp::Style(style)) == "\u{1b}[0m"@
            + "\u{1b}[1m"@ + "\u{1b}[38;5;"@ + decimal(style.fg->Indexed_0 as nat) + "m"@,
        !style.bold && style.fg is Rgb ==> op_text(PaintOp::Style(style)) == "\u{1b}[0m"@
            + "\u{1b}[38;2;"@ + decimal(style.fg->Rgb_0 as nat) + ";"@ + decimal(
            style.fg->Rgb_1 as nat,
        ) + ";"@ + decimal(style.fg->Rgb_2 as nat) + "m"@,
        style.bold && style.fg is Rgb ==> op_text(PaintOp::Style(style)) == "\u{1b}[0m"@
            + "\u{1b}[1m"@ + "\u{1b}[38;2;"@ + decimal(style.fg->Rgb_0 as nat) + ";"@ + decimal(
            style.fg->Rgb_1 as nat,
        ) + ";"@ + decimal(style.fg->Rgb_2 as nat) + "m"@,
{
    let text = op_text(PaintOp::Style(style));
    let reset = "\u{1b}[0m"@;
    let bold = "\u{1b}[1m"@;
    match style.fg {
        Color::Reset => {
            if style.bold {
                assert(text =~= reset + bold);
            } else {
                assert(text =~= reset);
            }
        },
        Color::Indexed(n) => {
            let lead = if style.bold {
                reset + bold
            } else {
                reset
            };
            assert(text =~= lead + "\u{1b}[38;5;"@ + decimal(n as nat) + "m"@);
        },
        Color::Rgb(r, g, b) => {
            let lead = if style.bold {
                reset + bold
            } else {
                reset
            };
            assert(text =~= lead + "\u{1b}[38;2;"@ + decimal(r as nat) + ";"@ + decimal(g as nat)
                + ";"@ + decimal(b as nat) + "m"@);
        },
    }
}

/// The steps are written one after the other.
pub proof fn law_steps_are_written_in_order(a: Seq<PaintOp>, b: Seq<PaintOp>, op: PaintOp)
    ensures
        ops_text(a + b) == ops_text(a) + ops_text(b),
        ops_text(seq![op]) == op_text(op),
        ops_text(Seq::empty()) == Seq::<char>::empty(),
    decreases b.len(),
{
    reveal_with_fuel(ops_text, 2);
    assert(seq![op].drop_last() =~= Seq::<PaintOp>::empty());
    assert(ops_text(seq![op]) =~= op_text(op));
    if b.len() == 0 {
        assert(a + b =~= a);
        assert(ops_text(a) + ops_text(b) =~= ops_text(a));
    } else {
        law_steps_are_written_in_order(a, b.drop_last(), op);
        assert((a + b).drop_last() =~= a + b.drop_last());
        assert((a + b).last() == b.last());
        assert(ops_text(a + b) =~= ops_text(a) + ops_text(b));
    }
}

/// Nothing is written where the viewport has no cells, or where there is neither a
/// divider nor a row in it above a pane area that has cells; else the composed
/// frame is written, between two resets.
pub proof fn law_a_frame_is_written_where_there_is_chrome(
    viewport: (u16, u16),
    panes: Seq<(TerminalId, Area)>,
    cells: Seq<DividerCell>,
    content: Area,
    focused: Option<TerminalId>,
    theme: Theme,
    labels: Seq<Option<PaneLabel>>,
)
    ensures
        ({
            let text = rendered(viewport, panes, cells, content, focused, theme, labels);
            let railed = content.y != 0 && content.w != 0 && content.h != 0 && content.y - 1
                < viewport.1;
            if viewport.0 > 0 && viewport.1 > 0 && (cells.len() > 0 || railed) {
                text == "\u{1b}[0m"@ + ops_text(
                    emit_rows(
                        composed(viewport, panes, cells, content, focused, theme, labels),
                        viewport.0,
                        viewport.1 as nat,
                    ).ops,
                ) + "\u{1b}[0m"@
            } else {
                text.len() == 0
            }
        }),
{
}

/// A layout holds the rectangle that its tiling gives each pane.
pub proof fn law_a_layout_places_every_pane(
    layout: PaneLayout,
    node: LayoutNode,
    area: Area,
    viewport: (u16, u16),
    k: int,
)
    requires
        is_layout_of(layout, Some(node), area, viewport),
        0 <= k < node.leaves().len(),
        forall|j: int|
            0 <= j < node.leaves().len() && j != k ==> #[trigger] node.leaves()[j]
                != node.leaves()[k],
    ensures
        layout.viewport == viewport,
        rect_of(layout.rects@, node.leaves()[k]) == Some(tile_leaves(node, area, true)[k].1),
{
    law_every_pane_receives_a_rect(Seq::empty(), node, area, true, k);
}

/// A layout's divider cells are exactly the cells in the viewport that a divider
/// of its tiling covers, each once and row by row, and each shows the glyph of
/// the edges that the lines leave there.
pub proof fn law_a_layout_lists_its_dividers(
    layout: PaneLayout,
    node: LayoutNode,
    area: Area,
    viewport: (u16, u16),
    spot: Spot,
)
    requires
        is_layout_of(layout, Some(node), area, viewport),
        area.fits(),
    ensures
        (exists|d: int| 0 <= d < layout.dividers@.len() && (#[trigger] layout.dividers@[d]).spot()
            == spot) <==> spot.0 < viewport.0 && spot.1 < viewport.1 && on_a_line(
            tile_segments(node, area, Seq::empty(), true),
            spot,
        ),
        forall|i: int, j: int|
            0 <= i < j < layout.dividers@.len() ==> {
                let a = #[trigger] layout.dividers@[i];
                let b = #[trigger] layout.dividers@[j];
                a.y < b.y || (a.y == b.y && a.x < b.x)
            },
        forall|d: int|
            0 <= d < layout.dividers@.len() && (#[trigger] layout.dividers@[d]).spot() == spot
                ==> layout.dividers@[d].ch == glyph_of(
                joined_grid(
                    tile_segments(node, area, Seq::empty(), true),
                    None,
                    layout.rects@,
                    viewport,
                )[spot],
            ),
{
    let cells = layout.dividers@;
    let lines = tile_segments(node, area, Seq::empty(), true);
    let grid = joined_grid(lines, None, layout.rects@, viewport);
    let spots = Seq::new(cells.len(), |i: int| cells[i].spot());
    lemma_segments_start_in_bounds(node, area, Seq::empty(), true);
    assert forall|i: int| 0 <= i < lines.len() implies starts_on_screen(#[trigger] lines[i]) by {}
    law_divider_cells_are_the_covered_cells(lines, None, layout.rects@, viewport, spot);
    if exists|d: int| 0 <= d < cells.len() && (#[trigger] cells[d]).spot() == spot {
        let d = choose|d: int| 0 <= d < cells.len() && (#[trigger] cells[d]).spot() == spot;
        assert(grid.dom().contains(spots[d]));
    }
    if grid.contains_key(spot) {
        assert(grid.dom().contains(spot));
        assert(spots.contains(spot));
        let d = choose|d: int| 0 <= d < spots.len() && spots[d] == spot;
        assert(cells[d].spot() == spot);
    }
    assert forall|i: int, j: int| 0 <= i < j < cells.len() implies ({
        let a = #[trigger] cells[i];
        let b = #[trigger] cells[j];
        a.y < b.y || (a.y == b.y && a.x < b.x)
    }) by {
        assert(before(spots[i], spots[j]));
    }
}

/// A layout has a grab target for every divider of its tiling, in the same order:
/// the path and the axis of the divider's split, and exactly its cells in the
/// viewport.
pub proof fn law_a_layout_grabs_its_dividers(
    layout: PaneLayout,
    node: LayoutNode,
    area: Area,
    viewport: (u16, u16),
    i: int,
    spot: Spot,
)
    requires
        is_layout_of(layout, Some(node), area, viewport),
        area.fits(),
        0 <= i < tile_segments(node, area, Seq::empty(), true).len(),
    ensures
        ({
            let line = tile_segments(node, area, Seq::empty(), true)[i];
            &&& layout.divider_hits@.len() == tile_segments(node, area, Seq::empty(), true).len()
            &&& layout.divider_hits@[i]@.path == line.path
            &&& layout.divider_hits@[i]@.axis == line.split
            &&& layout.divider_hits@[i]@.cells.contains(spot) <==> line.covers(spot.0, spot.1)
                && spot.0 < viewport.0 && spot.1 < viewport.1
        }),
{
    let lines = tile_segments(node, area, Seq::empty(), true);
    lemma_segments_start_in_bounds(node, area, Seq::empty(), true);
    law_line_cells_are_the_covered_cells(lines[i], viewport, spot);
}

/// A layout without a tree holds nothing.
pub proof fn law_no_tree_is_an_empty_layout(layout: PaneLayout, area: Area, viewport: (u16, u16))
    requires
        is_layout_of(layout, None, area, viewport),
    ensures
        layout.viewport == viewport,
        layout.rects@.len() == 0,
        layout.dividers@.len() == 0,
        layout.divider_hits@.len() == 0,
{
    let cells = layout.dividers@;
    let spots = Seq::new(cells.len(), |i: int| cells[i].spot());
    let grid = joined_grid(Seq::empty(), None, layout.rects@, viewport);
    if cells.len() > 0 {
        assert(grid.dom().contains(spots[0]));
        law_divider_cells_are_the_covered_cells(
            Seq::empty(),
            None,
            layout.rects@,
            viewport,
            spots[0],
        );
    }
}

} // verus!
