//! Pane dividers, pane titles and the rail that closes the pane grid at the
//! top.
//!
//! Panes share their rules: a split costs one cell of chrome. Every rule is
//! drawn in one stroke weight; focus is a colour and bold on the rules around
//! the focused pane. The chrome is composed in a cell buffer in which every
//! cell starts out skipped, and only the cells painted here are emitted, so the
//! layer never writes into a pane or over another layer.
use vstd::prelude::*;
use vstd::string::*;

use ratatui::buffer::Buffer;
use unicode_width::UnicodeWidthChar;

use crate::canvas::{
    buffer_cells, empty_buffer, in_screen, set_skip, set_style, set_symbol, skip_at,
    style_at, symbol_at, CellView, Screen,
};
use crate::grid::Spot;
use crate::layout::{rect_of, Area, Rect, TerminalId};
use crate::multi_pane::PaneLayout;
use crate::rasterize::{saturated, DividerCell};
use crate::text::{chars_of, decimal, push_decimal, trim, trimmed};
use crate::theme::{
    agent_badge, agent_badge_of, attention_badge, attention_badge_of, AgentBadge, AgentMetaState,
    CellStyle, Color, Theme,
};
use crate::tiling::{max_of, min_of};

verus! {

/// Cells of chrome a pane title needs before any of its label shows: a lead-in
/// rule cell, two padding spaces and a closing rule cell. A pane no wider than
/// this gets no title.
pub const TITLE_CHROME_CELLS: u16 = 4;

/// Marks a cut label.
pub const ELLIPSIS: char = '\u{2026}';

/// A gesture that is not configurable, for the help table.
#[derive(Debug, Clone, Copy, PartialEq, Eq)]
pub struct HardcodedBinding {
    pub chord: &'static str,
    pub action: &'static str,
}

/// The gestures of the divider layer: dragging a divider.
pub fn help_bindings() -> (table: Vec<HardcodedBinding>)
    ensures
        table@.len() == 1,
        table@[0].chord@ == "drag divider"@,
        table@[0].action@ == "resize the panes either side"@,
{
    let mut table: Vec<HardcodedBinding> = Vec::new();
    table.push(
        HardcodedBinding { chord: "drag divider", action: "resize the panes either side" },
    );
    table
}

/// What to write into one pane's top rule.
#[derive(Debug, Clone, Copy)]
pub struct PaneLabel<'a> {
    /// The pane's display name.
    pub text: &'a str,
    /// The declared state of the agent the pane runs, if it runs one.
    pub agent: Option<AgentMetaState>,
    /// The pane is waiting on a human.
    pub attention: bool,
    /// The user has visited the pane since its last state change.
    pub seen: bool,
}

/// The badge ahead of a label: the agent's where there is an agent, else the
/// attention badge where a human is waited on.
pub open spec fn badge_of(label: PaneLabel, theme: Theme) -> Option<AgentBadge> {
    match label.agent {
        Some(state) => Some(agent_badge_of(theme, state, label.attention, label.seen)),
        None => if label.attention {
            Some(attention_badge_of(theme))
        } else {
            None
        },
    }
}

impl PaneLabel<'_> {
    /// The badge to draw ahead of the label, if any.
    pub fn badge(&self, theme: &Theme) -> (b: Option<AgentBadge>)
        ensures
            b == badge_of(*self, *theme),
    {
        match (self.agent, self.attention) {
            (Some(state), _) => Some(agent_badge(theme, state, self.attention, self.seen)),
            (None, true) => Some(attention_badge(theme)),
            (None, false) => None,
        }
    }
}

/// The display cells of a character, as `unicode_width` counts them.
pub uninterp spec fn display_width(c: char) -> Option<usize>;

/// `unicode_width::UnicodeWidthChar::width`: the number of cells `c` occupies,
/// none for a control character. It depends on the character alone.
#[verifier::external_body]
fn char_width(c: char) -> (w: Option<usize>)
    ensures
        w == display_width(c),
{
    UnicodeWidthChar::width(c)
}

/// The display cells of a character, none for a control character.
pub open spec fn width_or_zero(c: char) -> nat {
    match display_width(c) {
        Some(w) => w as nat,
        None => 0,
    }
}

/// The display cells of a text, control characters left out.
pub open spec fn total_width(text: Seq<char>) -> nat
    decreases text.len(),
{
    if text.len() == 0 {
        0
    } else {
        total_width(text.drop_last()) + width_or_zero(text.last())
    }
}

/// The characters of no width at the front of `text`, up to the next character
/// that takes a cell: what joins the character before it, an accent say. Control
/// characters are left out.
pub open spec fn marks(text: Seq<char>) -> Seq<char>
    decreases text.len(),
{
    if text.len() == 0 {
        Seq::empty()
    } else {
        match display_width(text[0]) {
            None => marks(text.drop_first()),
            Some(w) => if w == 0 {
                seq![text[0]] + marks(text.drop_first())
            } else {
                Seq::empty()
            },
        }
    }
}

/// The cells of as much of `text` as shows in `budget` display cells, one symbol
/// each. A character takes the marks that follow it along in its cell, a wide
/// one blanks its trailing cells, and a control character takes none.
pub open spec fn shown(text: Seq<char>, budget: nat) -> Seq<Seq<char>>
    decreases text.len(),
{
    if text.len() == 0 {
        Seq::empty()
    } else {
        let rest = text.drop_first();
        match display_width(text[0]) {
            None => shown(rest, budget),
            Some(w) => if w == 0 {
                shown(rest, budget)
            } else if w > budget {
                Seq::empty()
            } else {
                seq![seq![text[0]] + marks(rest)] + blanks((w - 1) as nat) + shown(
                    rest,
                    (budget - w) as nat,
                )
            },
        }
    }
}

/// Blank cells.
pub open spec fn blanks(n: nat) -> Seq<Seq<char>> {
    Seq::new(n, |i: int| seq![' '])
}

/// `text` clipped to `budget` display cells, a cut being marked with
/// [`ELLIPSIS`] in the last of them.
pub open spec fn clipped(text: Seq<char>, budget: nat) -> Seq<Seq<char>> {
    if budget == 0 {
        Seq::empty()
    } else if total_width(text) <= budget {
        shown(text, budget)
    } else {
        shown(text, (budget - 1) as nat).push(seq![ELLIPSIS])
    }
}

/// A cell is on the focused frame: on the ring one step outside the focused
/// pane, corners included. A pane at the edge of the coordinates has no ring on
/// that side.
pub open spec fn on_ring(frame: Option<Area>, spot: Spot) -> bool {
    match frame {
        None => false,
        Some(r) => {
            let left = r.x - 1;
            let right = r.x + r.w;
            let top = r.y - 1;
            let bottom = r.y + r.h;
            &&& top <= spot.1 <= bottom
            &&& left <= spot.0 <= right
            &&& spot.0 == left || spot.0 == right || spot.1 == top || spot.1 == bottom
        },
    }
}

/// The style of a rule cell: accented and bold on the focused frame, recessive
/// elsewhere.
pub open spec fn rule_style_of(theme: Theme, focused: bool) -> CellStyle {
    if focused {
        CellStyle { fg: theme.divider_focus, bold: true }
    } else {
        CellStyle { fg: theme.divider, bold: false }
    }
}

/// A symbol and its style, for one cell.
pub type Ink = (Seq<char>, CellStyle);

/// Paint one cell: it is no longer skipped, takes the symbol and the colour, and
/// is bold if it was or if the style says so. Outside the screen nothing
/// happens.
pub open spec fn painted(screen: Screen, spot: Spot, ink: Ink) -> Screen {
    if screen.contains_key(spot) {
        screen.insert(
            spot,
            CellView {
                symbol: ink.0,
                style: CellStyle { fg: ink.1.fg, bold: ink.1.bold || screen[spot].style.bold },
                skip: false,
            },
        )
    } else {
        screen
    }
}

/// Paint a run of cells rightward from column `x` of row `y`.
pub open spec fn run_painted(screen: Screen, x: int, y: int, run: Seq<Ink>) -> Screen
    decreases run.len(),
{
    if run.len() == 0 {
        screen
    } else {
        painted(
            run_painted(screen, x, y, run.drop_last()),
            (saturated(x + run.len() - 1), y),
            run.last(),
        )
    }
}

/// Every cell skipped, blank and unstyled.
pub open spec fn skipped_screen(cols: u16, rows: u16) -> Screen {
    Map::new(
        |s: Spot| in_screen(cols, rows, s),
        |s: Spot|
            CellView {
                symbol: seq![' '],
                style: CellStyle { fg: Color::Reset, bold: false },
                skip: true,
            },
    )
}

/// The screen with the divider cells painted.
pub open spec fn with_dividers(
    screen: Screen,
    cells: Seq<DividerCell>,
    frame: Option<Area>,
    theme: Theme,
) -> Screen
    decreases cells.len(),
{
    if cells.len() == 0 {
        screen
    } else {
        let c = cells.last();
        painted(
            with_dividers(screen, cells.drop_last(), frame, theme),
            c.spot(),
            (seq![c.ch], rule_style_of(theme, on_ring(frame, c.spot()))),
        )
    }
}

/// The row of the rail: the one above the pane area, unless the area is flush
/// with the top or empty.
pub open spec fn rail_row_of(content: Area) -> Option<int> {
    if content.y == 0 || content.w == 0 || content.h == 0 {
        None
    } else {
        Some(content.y - 1)
    }
}

/// The column the rail ends before.
pub open spec fn rail_end(content: Area, cols: u16) -> int {
    min_of(saturated(content.x + content.w), cols as int)
}

/// The plain rail: a rule over the full width of the pane area.
pub open spec fn rail_run(
    content: Area,
    cols: u16,
    y: int,
    frame: Option<Area>,
    theme: Theme,
) -> Seq<Ink> {
    let n = rail_end(content, cols) - content.x;
    Seq::new(
        max_of(n, 0) as nat,
        |i: int|
            (seq!['\u{2500}'], rule_style_of(theme, on_ring(frame, (content.x + i, y)))),
    )
}

/// A divider cell a vertical rule drops out of.
pub open spec fn drops_from_rail(ch: char) -> bool {
    ch == '\u{2502}' || ch == '\u{251c}' || ch == '\u{2524}' || ch == '\u{253c}' || ch
        == '\u{252c}'
}

/// The divider cell meets the rail: it is on the pane area's first row, under
/// the rail, and a vertical rule.
pub open spec fn meets_rail(c: DividerCell, content: Area, cols: u16) -> bool {
    c.y == content.y && content.x <= c.x < rail_end(content, cols) && drops_from_rail(c.ch)
}

/// The screen with a tee on the rail above every divider cell that meets it.
pub open spec fn with_tees(
    screen: Screen,
    cells: Seq<DividerCell>,
    content: Area,
    cols: u16,
    y: int,
    frame: Option<Area>,
    theme: Theme,
) -> Screen
    decreases cells.len(),
{
    if cells.len() == 0 {
        screen
    } else {
        let before = with_tees(screen, cells.drop_last(), content, cols, y, frame, theme);
        let c = cells.last();
        if meets_rail(c, content, cols) {
            painted(
                before,
                (c.x as int, y),
                (seq!['\u{252c}'], rule_style_of(theme, on_ring(frame, (c.x as int, y)))),
            )
        } else {
            before
        }
    }
}

/// The screen with the rail, where the viewport has its row.
pub open spec fn with_rail(
    screen: Screen,
    viewport: (u16, u16),
    cells: Seq<DividerCell>,
    content: Area,
    frame: Option<Area>,
    theme: Theme,
) -> Screen {
    match rail_row_of(content) {
        None => screen,
        Some(y) => if y >= viewport.1 {
            screen
        } else {
            with_tees(
                run_painted(
                    screen,
                    content.x,
                    y,
                    rail_run(content, viewport.0, y, frame, theme),
                ),
                cells,
                content,
                viewport.0,
                y,
                frame,
                theme,
            )
        },
    }
}

/// The padding around a title.
pub open spec fn pad_ink(theme: Theme, focused: bool) -> Ink {
    (
        seq![' '],
        CellStyle {
            fg: if focused {
                theme.divider_focus
            } else {
                theme.divider
            },
            bold: false,
        },
    )
}

/// The style of a title.
pub open spec fn title_style_of(theme: Theme, focused: bool) -> CellStyle {
    if focused {
        CellStyle { fg: theme.pane_title_focus, bold: true }
    } else {
        CellStyle { fg: theme.pane_title, bold: false }
    }
}

/// The badge and the space after it.
pub open spec fn badge_run(badge: Option<AgentBadge>, theme: Theme, focused: bool) -> Seq<Ink> {
    match badge {
        None => Seq::empty(),
        Some(b) => seq![
            (b.glyph@, CellStyle { fg: b.color, bold: b.emphatic }),
            pad_ink(theme, focused),
        ],
    }
}

/// The symbols as inks of one style.
pub open spec fn text_run(cells: Seq<Seq<char>>, style: CellStyle) -> Seq<Ink> {
    Seq::new(cells.len(), |i: int| (cells[i], style))
}

/// The cells of a title in a pane `w` cells wide: a space, the badge, the
/// clipped name, a space. A blank name, or one with no cell to show in, draws
/// nothing.
pub open spec fn title_run(label: PaneLabel, w: int, theme: Theme, focused: bool) -> Seq<Ink> {
    let text = trimmed(label.text@);
    let badge = badge_run(badge_of(label, theme), theme, focused);
    let budget = w - TITLE_CHROME_CELLS - badge.len();
    if text.len() == 0 || budget <= 0 {
        Seq::empty()
    } else {
        seq![pad_ink(theme, focused)] + badge + text_run(
            clipped(text, budget as nat),
            title_style_of(theme, focused),
        ) + seq![pad_ink(theme, focused)]
    }
}

/// A title has a place: there is a rule above the pane, in the viewport, and the
/// pane is wide enough.
pub open spec fn has_title_room(pane: Area, rows: u16) -> bool {
    pane.y >= 1 && pane.y - 1 < rows && pane.w > TITLE_CHROME_CELLS
}

/// The screen with the titles of the first `n` panes inset into the rules above
/// them.
pub open spec fn with_titles(
    screen: Screen,
    rows: u16,
    panes: Seq<(TerminalId, Area)>,
    labels: Seq<Option<PaneLabel>>,
    focused: Option<TerminalId>,
    theme: Theme,
    n: nat,
) -> Screen
    decreases n,
{
    if n == 0 {
        screen
    } else {
        let k = (n - 1) as nat;
        let before = with_titles(screen, rows, panes, labels, focused, theme, k);
        let pane = panes[k as int].1;
        match labels[k as int] {
            Some(label) => if has_title_room(pane, rows) {
                run_painted(
                    before,
                    pane.x + 1,
                    pane.y - 1,
                    title_run(label, pane.w, theme, focused == Some(panes[k as int].0)),
                )
            } else {
                before
            },
            None => before,
        }
    }
}

/// The rectangle of the focused pane.
pub open spec fn frame_of(
    panes: Seq<(TerminalId, Area)>,
    focused: Option<TerminalId>,
) -> Option<Area> {
    match focused {
        Some(id) => rect_of(panes, id),
        None => None,
    }
}

/// The composed chrome: everything skipped, then the dividers, the rail and the
/// titles.
pub open spec fn composed(
    viewport: (u16, u16),
    panes: Seq<(TerminalId, Area)>,
    cells: Seq<DividerCell>,
    content: Area,
    focused: Option<TerminalId>,
    theme: Theme,
    labels: Seq<Option<PaneLabel>>,
) -> Screen {
    let frame = frame_of(panes, focused);
    let base = skipped_screen(viewport.0, viewport.1);
    let ruled = with_dividers(base, cells, frame, theme);
    let railed = with_rail(ruled, viewport, cells, content, frame, theme);
    with_titles(railed, viewport.1, panes, labels, focused, theme, panes.len())
}

/// One step of the emitted stream.
#[verifier::ext_equal]
pub enum PaintOp {
    /// Replace the graphic rendition.
    Style(CellStyle),
    /// Put the cursor on a cell.
    MoveTo(Spot),
    /// Write a symbol.
    Print(Seq<char>),
}

/// The emitter's state: what was emitted, the style in force, the first column of
/// the row past everything written in it, and whether the cursor still stands
/// there with a run open.
#[verifier::ext_equal]
pub struct EmitState {
    pub ops: Seq<PaintOp>,
    pub style: Option<CellStyle>,
    pub next: int,
    pub open: bool,
}

/// The emitter past one cell. A cell that a wide symbol to its left reaches over
/// is that symbol's and is passed by; a skipped or empty cell closes the run;
/// another cell is written, after its style if that is not in force and after a
/// cursor move if it does not continue the run.
pub open spec fn emit_cell(cell: CellView, spot: Spot, st: EmitState) -> EmitState {
    if spot.0 < st.next {
        st
    } else if cell.skip || cell.symbol.len() == 0 {
        EmitState { open: false, ..st }
    } else {
        let styled = st.style == Some(cell.style);
        let ops1 = if styled {
            st.ops
        } else {
            st.ops.push(PaintOp::Style(cell.style))
        };
        let ops2 = if styled && st.open && st.next == spot.0 {
            ops1
        } else {
            ops1.push(PaintOp::MoveTo(spot))
        };
        EmitState {
            ops: ops2.push(PaintOp::Print(cell.symbol)),
            style: Some(cell.style),
            next: spot.0 + total_width(cell.symbol),
            open: true,
        }
    }
}

/// The emitter past the first `n` cells of row `y`. A row starts without a run.
pub open spec fn emit_row(screen: Screen, y: int, st: EmitState, n: nat) -> EmitState
    decreases n,
{
    if n == 0 {
        EmitState { next: 0, open: false, ..st }
    } else {
        let x = n - 1;
        emit_cell(screen[(x, y)], (x, y), emit_row(screen, y, st, (n - 1) as nat))
    }
}

/// The emitter past the first `n` rows.
pub open spec fn emit_rows(screen: Screen, cols: u16, n: nat) -> EmitState
    decreases n,
{
    if n == 0 {
        EmitState { ops: Seq::empty(), style: None, next: 0, open: false }
    } else {
        emit_row(screen, n - 1, emit_rows(screen, cols, (n - 1) as nat), cols as nat)
    }
}

/// The SGR sequence for a foreground; nothing for the terminal's default.
pub open spec fn color_text(color: Color) -> Seq<char> {
    match color {
        Color::Reset => Seq::empty(),
        Color::Indexed(n) => "\u{1b}[38;5;"@ + decimal(n as nat) + "m"@,
        Color::Rgb(r, g, b) => "\u{1b}[38;2;"@ + decimal(r as nat) + ";"@ + decimal(g as nat)
            + ";"@ + decimal(b as nat) + "m"@,
    }
}

/// The SGR sequence for a style: a full reset, then bold, then the foreground.
pub open spec fn style_text(style: CellStyle) -> Seq<char> {
    "\u{1b}[0m"@ + (if style.bold {
        "\u{1b}[1m"@
    } else {
        Seq::empty()
    }) + color_text(style.fg)
}

/// The bytes of one step. Cursor positions count from one.
pub open spec fn op_text(op: PaintOp) -> Seq<char> {
    match op {
        PaintOp::Style(style) => style_text(style),
        PaintOp::MoveTo(spot) => "\u{1b}["@ + decimal(saturated(spot.1 + 1) as nat) + ";"@
            + decimal(saturated(spot.0 + 1) as nat) + "H"@,
        PaintOp::Print(symbol) => symbol,
    }
}

/// The bytes of all steps.
pub open spec fn ops_text(ops: Seq<PaintOp>) -> Seq<char>
    decreases ops.len(),
{
    if ops.len() == 0 {
        Seq::empty()
    } else {
        ops_text(ops.drop_last()) + op_text(ops.last())
    }
}

/// What is written for a screen: a reset, the cells that are not skipped and not
/// reached over by a wide symbol, and a reset again. The cursor is left where the last cell put it.
pub open spec fn emitted(screen: Screen, cols: u16, rows: u16) -> Seq<char> {
    "\u{1b}[0m"@ + ops_text(emit_rows(screen, cols, rows as nat).ops) + "\u{1b}[0m"@
}

/// There is no chrome to draw: no viewport, or neither a divider nor a rail row
/// in it.
pub open spec fn nothing_to_draw(viewport: (u16, u16), cells: Seq<DividerCell>, content: Area) -> bool {
    ||| viewport.0 == 0
    ||| viewport.1 == 0
    ||| cells.len() == 0 && match rail_row_of(content) {
        None => true,
        Some(y) => y >= viewport.1,
    }
}

/// The whole divider layer of a frame, as terminal text.
pub open spec fn rendered(
    viewport: (u16, u16),
    panes: Seq<(TerminalId, Area)>,
    cells: Seq<DividerCell>,
    content: Area,
    focused: Option<TerminalId>,
    theme: Theme,
    labels: Seq<Option<PaneLabel>>,
) -> Seq<char> {
    if nothing_to_draw(viewport, cells, content) {
        Seq::empty()
    } else {
        emitted(
            composed(viewport, panes, cells, content, focused, theme, labels),
            viewport.0,
            viewport.1,
        )
    }
}

/// The buffer covers exactly the viewport.
pub open spec fn covers_viewport(screen: Screen, viewport: (u16, u16)) -> bool {
    forall|s: Spot| #[trigger]
        screen.contains_key(s) <==> in_screen(viewport.0, viewport.1, s)
}

/// Every title starts at a `u16` column.
pub open spec fn titles_start_in_u16(panes: Seq<(TerminalId, Area)>, rows: u16) -> bool {
    forall|i: int|
        0 <= i < panes.len() && has_title_room((#[trigger] panes[i]).1, rows) ==> panes[i].1.x
            < u16::MAX
}

/// The row the pane-grid rail occupies, or `None` when nothing was reserved for
/// it above the pane area.
pub fn rail_row(content: Rect) -> (y: Option<u16>)
    ensures
        match y {
            Some(row) => rail_row_of(content@) == Some(row as int),
            None => rail_row_of(content@) is None,
        },
{
    if content.y == 0 || content.w == 0 || content.h == 0 {
        None
    } else {
        Some(content.y - 1)
    }
}

/// The style of one rule cell.
fn rule_style(theme: &Theme, focused: bool) -> (style: CellStyle)
    ensures
        style == rule_style_of(*theme, focused),
{
    if focused {
        CellStyle { fg: theme.divider_focus, bold: true }
    } else {
        CellStyle { fg: theme.divider, bold: false }
    }
}

pub open spec fn area_of(rect: Option<Rect>) -> Option<Area> {
    match rect {
        Some(r) => Some(r@),
        None => None,
    }
}

/// Whether `(x, y)` is on the ring around the focused pane.
pub fn on_frame(frame: Option<Rect>, x: u16, y: u16) -> (b: bool)
    ensures
        b == on_ring(area_of(frame), (x as int, y as int)),
{
    match frame {
        None => false,
        Some(r) => {
            let (x, y): (i32, i32) = (x as i32, y as i32);
            let left: i32 = r.x as i32 - 1;
            let right: i32 = r.x as i32 + r.w as i32;
            let top: i32 = r.y as i32 - 1;
            let bottom: i32 = r.y as i32 + r.h as i32;
            let in_rows = y >= top && y <= bottom;
            let in_cols = x >= left && x <= right;
            in_rows && in_cols && (x == left || x == right || y == top || y == bottom)
        },
    }
}

/// Write one already-1-cell symbol and return the next column.
fn put(buf: &mut Buffer, viewport: (u16, u16), x: u16, y: u16, symbol: &str, style: CellStyle) -> (next:
    u16)
    requires
        covers_viewport(buffer_cells(*old(buf)), viewport),
    ensures
        covers_viewport(buffer_cells(*final(buf)), viewport),
        buffer_cells(*final(buf)) == painted(
            buffer_cells(*old(buf)),
            (x as int, y as int),
            (symbol@, style),
        ),
        next == saturated(x + 1),
{
    if x < viewport.0 && y < viewport.1 {
        set_symbol(buf, x, y, symbol);
        set_style(buf, x, y, style);
        set_skip(buf, x, y, false);
        proof {
            assert(buffer_cells(*buf) =~= painted(
                buffer_cells(*old(buf)),
                (x as int, y as int),
                (symbol@, style),
            ));
        }
    }
    x.saturating_add(1)
}

/// A one-character symbol.
fn symbol_of(c: char) -> (s: String)
    ensures
        s@ == seq![c],
{
    let mut s = String::new();
    s.push(c);
    proof {
        assert(s@ =~= seq![c]);
    }
    s
}

proof fn lemma_run_push(screen: Screen, x: int, y: int, run: Seq<Ink>, ink: Ink)
    ensures
        run_painted(screen, x, y, run.push(ink)) == painted(
            run_painted(screen, x, y, run),
            (saturated(x + run.len()), y),
            ink,
        ),
{
    assert(run.push(ink).drop_last() =~= run);
}

proof fn lemma_run_concat(screen: Screen, x: int, y: int, a: Seq<Ink>, b: Seq<Ink>)
    ensures
        run_painted(screen, x, y, a + b) == run_painted(
            run_painted(screen, x, y, a),
            x + a.len(),
            y,
            b,
        ),
    decreases b.len(),
{
    if b.len() == 0 {
        assert(a + b =~= a);
    } else {
        assert((a + b).drop_last() =~= a + b.drop_last());
        lemma_run_concat(screen, x, y, a, b.drop_last());
    }
}

proof fn lemma_run_saturated(screen: Screen, x: int, y: int, run: Seq<Ink>)
    ensures
        run_painted(screen, saturated(x), y, run) == run_painted(screen, x, y, run),
    decreases run.len(),
{
    if run.len() > 0 {
        lemma_run_saturated(screen, x, y, run.drop_last());
    }
}

/// The text's display cells, held to the largest `usize`.
fn width_of(text: &Vec<char>) -> (total: usize)
    ensures
        total == min_of(total_width(text@) as int, usize::MAX as int),
{
    let mut total: usize = 0;
    let mut i: usize = 0;
    proof {
        assert(text@.take(0) =~= Seq::<char>::empty());
    }
    while i < text.len()
        invariant
            i <= text.len(),
            total == min_of(total_width(text@.take(i as int)) as int, usize::MAX as int),
        decreases text.len() - i,
    {
        proof {
            assert(text@.take(i + 1).drop_last() =~= text@.take(i as int));
            assert(text@.take(i + 1).last() == text@[i as int]);
        }
        match char_width(text[i]) {
            Some(w) => {
                total = total.saturating_add(w);
            },
            None => {},
        }
        i = i + 1;
    }
    proof {
        assert(text@.take(i as int) =~= text@);
    }
    total
}

/// One character with the marks that follow it at `from`.
fn marked_symbol(c: char, text: &Vec<char>, from: usize) -> (s: String)
    requires
        from <= text@.len(),
    ensures
        s@ == seq![c] + marks(text@.skip(from as int)),
{
    let mut s = symbol_of(c);
    let mut i: usize = from;
    let mut ended = false;
    let ghost whole = marks(text@.skip(from as int));
    proof {
        assert(s@ + whole =~= seq![c] + whole);
    }
    while i < text.len() && !ended
        invariant
            from <= i <= text.len(),
            !ended ==> s@ + marks(text@.skip(i as int)) == seq![c] + whole,
            ended ==> s@ == seq![c] + whole,
        decreases
            text.len() - i + (if ended {
                0int
            } else {
                1int
            }),
    {
        let ghost rest = text@.skip(i as int);
        proof {
            assert(rest[0] == text@[i as int]);
            assert(rest.drop_first() =~= text@.skip(i + 1));
        }
        match char_width(text[i]) {
            None => {
                i = i + 1;
            },
            Some(w) => {
                if w == 0 {
                    let ghost was = s@;
                    s.push(text[i]);
                    proof {
                        assert(s@ + marks(rest.drop_first()) =~= was + marks(rest));
                    }
                    i = i + 1;
                } else {
                    ended = true;
                    proof {
                        assert(s@ + marks(rest) =~= s@);
                    }
                }
            },
        }
    }
    proof {
        if !ended {
            assert(s@ + marks(text@.skip(i as int)) =~= s@);
        }
    }
    s
}

proof fn lemma_text_run_push(cells: Seq<Seq<char>>, cell: Seq<char>, style: CellStyle)
    ensures
        text_run(cells.push(cell), style) == text_run(cells, style).push((cell, style)),
{
    assert(text_run(cells.push(cell), style) =~= text_run(cells, style).push((cell, style)));
}

/// Write `text` clipped to `budget` display cells and return the next column.
fn put_clipped(
    buf: &mut Buffer,
    viewport: (u16, u16),
    x: u16,
    y: u16,
    text: &Vec<char>,
    budget: usize,
    style: CellStyle,
) -> (next: u16)
    requires
        budget < usize::MAX,
        covers_viewport(buffer_cells(*old(buf)), viewport),
    ensures
        covers_viewport(buffer_cells(*final(buf)), viewport),
        buffer_cells(*final(buf)) == run_painted(
            buffer_cells(*old(buf)),
            x as int,
            y as int,
            text_run(clipped(text@, budget as nat), style),
        ),
        next == saturated(x + clipped(text@, budget as nat).len()),
{
    let ghost was = buffer_cells(*buf);
    proof {
        assert(text_run(Seq::empty(), style) =~= Seq::<Ink>::empty());
    }
    if budget == 0 {
        return x;
    }
    let fits = width_of(text) <= budget;
    let text_budget: usize = if fits {
        budget
    } else {
        budget - 1
    };
    let ghost whole = shown(text@, text_budget as nat);
    let ghost mut done: Seq<Seq<char>> = Seq::empty();
    let mut cur: u16 = x;
    let mut left: usize = text_budget;
    let mut i: usize = 0;
    let mut stopped = false;
    proof {
        assert(text@.skip(0) =~= text@);
        assert(done + whole =~= whole);
    }
    while i < text.len() && !stopped
        invariant
            i <= text.len(),
            covers_viewport(buffer_cells(*buf), viewport),
            buffer_cells(*buf) == run_painted(was, x as int, y as int, text_run(done, style)),
            cur == saturated(x + done.len()),
            !stopped ==> done + shown(text@.skip(i as int), left as nat) == whole,
            stopped ==> done == whole,
        decreases
            text.len() - i + (if stopped {
                0int
            } else {
                1int
            }),
    {
        let ch = text[i];
        let ghost rest = text@.skip(i as int);
        proof {
            assert(rest[0] == ch);
            assert(rest.drop_first() =~= text@.skip(i + 1));
        }
        match char_width(ch) {
            None => {
                i = i + 1;
            },
            Some(w) => {
                if w == 0 {
                    i = i + 1;
                } else if w > left {
                    stopped = true;
                    proof {
                        assert(done + Seq::<Seq<char>>::empty() =~= done);
                    }
                } else {
                    let ghost before = done;
                    let sym = marked_symbol(ch, text, i + 1);
                    let ghost cell = seq![ch] + marks(rest.drop_first());
                    cur = put(buf, viewport, cur, y, sym.as_str(), style);
                    proof {
                        lemma_text_run_push(done, cell, style);
                        lemma_run_push(
                            was,
                            x as int,
                            y as int,
                            text_run(done, style),
                            (cell, style),
                        );
                        done = done.push(cell);
                    }
                    let mut k: usize = 1;
                    proof {
                        assert(done =~= before.push(cell) + blanks(0));
                    }
                    while k < w
                        invariant
                            1 <= k <= w,
                            covers_viewport(buffer_cells(*buf), viewport),
                            buffer_cells(*buf) == run_painted(
                                was,
                                x as int,
                                y as int,
                                text_run(done, style),
                            ),
                            cur == saturated(x + done.len()),
                            done == before.push(cell) + blanks((k - 1) as nat),
                        decreases w - k,
                    {
                        cur = put(buf, viewport, cur, y, " ", style);
                        proof {
                            reveal_strlit(" ");
                            assert(" "@ =~= seq![' ']);
                            lemma_text_run_push(done, seq![' '], style);
                            lemma_run_push(
                                was,
                                x as int,
                                y as int,
                                text_run(done, style),
                                (seq![' '], style),
                            );
                            done = done.push(seq![' ']);
                            assert(done =~= before.push(cell) + blanks(k as nat));
                        }
                        k = k + 1;
                    }
                    proof {
                        assert(done + shown(rest.drop_first(), (left - w) as nat) =~= before
                            + shown(rest, left as nat));
                    }
                    left = left - w;
                    i = i + 1;
                }
            },
        }
    }
    proof {
        if !stopped {
            assert(done + shown(text@.skip(i as int), left as nat) =~= done);
        }
        assert(done == whole);
    }
    if !fits {
        let sym = symbol_of(ELLIPSIS);
        cur = put(buf, viewport, cur, y, sym.as_str(), style);
        proof {
            lemma_text_run_push(done, seq![ELLIPSIS], style);
            lemma_run_push(
                was,
                x as int,
                y as int,
                text_run(done, style),
                (seq![ELLIPSIS], style),
            );
        }
    }
    cur
}

/// Write a space, the badge, the name and a space into the rule at row `y`, one
/// cell inside the pane's left edge.
fn draw_one_title(
    buf: &mut Buffer,
    viewport: (u16, u16),
    rect: Rect,
    y: u16,
    label: &PaneLabel,
    theme: &Theme,
    focused: bool,
)
    requires
        covers_viewport(buffer_cells(*old(buf)), viewport),
        rect.w > TITLE_CHROME_CELLS,
        rect.x < u16::MAX,
    ensures
        covers_viewport(buffer_cells(*final(buf)), viewport),
        buffer_cells(*final(buf)) == run_painted(
            buffer_cells(*old(buf)),
            rect.x + 1,
            y as int,
            title_run(*label, rect.w as int, *theme, focused),
        ),
{
    let ghost was = buffer_cells(*buf);
    let ghost x0 = rect.x + 1;
    let text = trim(label.text);
    if text.len() == 0 {
        return;
    }
    let badge = label.badge(theme);
    let badge_cells: usize = if badge.is_some() {
        2
    } else {
        0
    };
    let mut budget: usize = (rect.w - TITLE_CHROME_CELLS) as usize;
    if budget <= badge_cells {
        return;
    }
    budget = budget - badge_cells;
    let title_style = if focused {
        CellStyle { fg: theme.pane_title_focus, bold: true }
    } else {
        CellStyle { fg: theme.pane_title, bold: false }
    };
    let pad = CellStyle {
        fg: if focused {
            theme.divider_focus
        } else {
            theme.divider
        },
        bold: false,
    };
    let ghost pad_cell = pad_ink(*theme, focused);
    proof {
        reveal_strlit(" ");
        assert(" "@ =~= seq![' ']);
        assert((" "@, pad) == pad_cell);
    }
    let mut x: u16 = rect.x + 1;
    x = put(buf, viewport, x, y, " ", pad);
    let ghost mut run: Seq<Ink> = seq![pad_cell];
    proof {
        lemma_run_push(was, x0, y as int, Seq::empty(), pad_cell);
        assert(Seq::<Ink>::empty().push(pad_cell) =~= run);
    }
    match badge {
        Some(b) => {
            let style = CellStyle { fg: b.color, bold: b.emphatic };
            x = put(buf, viewport, x, y, b.glyph, style);
            proof {
                lemma_run_push(was, x0, y as int, run, (b.glyph@, style));
                run = run.push((b.glyph@, style));
            }
            x = put(buf, viewport, x, y, " ", pad);
            proof {
                lemma_run_push(was, x0, y as int, run, pad_cell);
                run = run.push(pad_cell);
            }
        },
        None => {},
    }
    proof {
        assert(run =~= seq![pad_cell] + badge_run(badge, *theme, focused));
    }
    x = put_clipped(buf, viewport, x, y, &text, budget, title_style);
    proof {
        let shown_run = text_run(clipped(text@, budget as nat), title_style);
        lemma_run_saturated(
            run_painted(was, x0, y as int, run),
            x0 + run.len(),
            y as int,
            shown_run,
        );
        lemma_run_concat(was, x0, y as int, run, shown_run);
        run = run + shown_run;
    }
    put(buf, viewport, x, y, " ", pad);
    proof {
        lemma_run_push(was, x0, y as int, run, pad_cell);
        assert(run.push(pad_cell) =~= title_run(*label, rect.w as int, *theme, focused));
    }
}

/// The screen while its cells before `(x, y)` in row-major order are skipped.
spec fn part_skipped(cols: u16, rows: u16, x: int, y: int) -> Screen {
    Map::new(
        |s: Spot| in_screen(cols, rows, s),
        |s: Spot|
            CellView {
                symbol: seq![' '],
                style: CellStyle { fg: Color::Reset, bold: false },
                skip: s.1 < y || (s.1 == y && s.0 < x),
            },
    )
}

/// A buffer over the viewport with every cell skipped.
fn skipped_buffer(cols: u16, rows: u16) -> (buf: Buffer)
    ensures
        buffer_cells(buf) == skipped_screen(cols, rows),
{
    let mut buf = empty_buffer(cols, rows);
    let mut y: u16 = 0;
    proof {
        assert(buffer_cells(buf) =~= part_skipped(cols, rows, 0, 0));
    }
    while y < rows
        invariant
            y <= rows,
            buffer_cells(buf) == part_skipped(cols, rows, 0, y as int),
        decreases rows - y,
    {
        let mut x: u16 = 0;
        while x < cols
            invariant
                x <= cols,
                y < rows,
                buffer_cells(buf) == part_skipped(cols, rows, x as int, y as int),
            decreases cols - x,
        {
            set_skip(&mut buf, x, y, true);
            x = x + 1;
            proof {
                assert(buffer_cells(buf) =~= part_skipped(cols, rows, x as int, y as int));
            }
        }
        y = y + 1;
        proof {
            assert(part_skipped(cols, rows, x as int, y - 1) =~= part_skipped(
                cols,
                rows,
                0,
                y as int,
            ));
        }
    }
    proof {
        assert(buffer_cells(buf) =~= skipped_screen(cols, rows));
    }
    buf
}

/// Paint each divider glyph.
fn draw_dividers(
    buf: &mut Buffer,
    viewport: (u16, u16),
    cells: &Vec<DividerCell>,
    frame: Option<Rect>,
    theme: &Theme,
)
    requires
        covers_viewport(buffer_cells(*old(buf)), viewport),
    ensures
        covers_viewport(buffer_cells(*final(buf)), viewport),
        buffer_cells(*final(buf)) == with_dividers(
            buffer_cells(*old(buf)),
            cells@,
            area_of(frame),
            *theme,
        ),
{
    let ghost was = buffer_cells(*buf);
    let mut i: usize = 0;
    proof {
        assert(cells@.take(0) =~= Seq::<DividerCell>::empty());
    }
    while i < cells.len()
        invariant
            i <= cells.len(),
            covers_viewport(buffer_cells(*buf), viewport),
            buffer_cells(*buf) == with_dividers(
                was,
                cells@.take(i as int),
                area_of(frame),
                *theme,
            ),
        decreases cells.len() - i,
    {
        let c = cells[i];
        let sym = symbol_of(c.ch);
        let style = rule_style(theme, on_frame(frame, c.x, c.y));
        put(buf, viewport, c.x, c.y, sym.as_str(), style);
        proof {
            assert(cells@.take(i + 1).drop_last() =~= cells@.take(i as int));
            assert(cells@.take(i + 1).last() == c);
        }
        i = i + 1;
    }
    proof {
        assert(cells@.take(i as int) =~= cells@);
    }
}

/// Whether a vertical rule drops out of the rail at this divider cell.
fn tees_rail(ch: char) -> (b: bool)
    ensures
        b == drops_from_rail(ch),
{
    ch == '\u{2502}' || ch == '\u{251c}' || ch == '\u{2524}' || ch == '\u{253c}' || ch
        == '\u{252c}'
}

/// Draw the rail across the top of the pane area: a plain rule, then a tee
/// wherever a vertical rule meets it.
fn draw_rail(
    buf: &mut Buffer,
    viewport: (u16, u16),
    cells: &Vec<DividerCell>,
    content: Rect,
    frame: Option<Rect>,
    theme: &Theme,
)
    requires
        covers_viewport(buffer_cells(*old(buf)), viewport),
    ensures
        covers_viewport(buffer_cells(*final(buf)), viewport),
        buffer_cells(*final(buf)) == with_rail(
            buffer_cells(*old(buf)),
            viewport,
            cells@,
            content@,
            area_of(frame),
            *theme,
        ),
{
    let y = match rail_row(content) {
        Some(y) => y,
        None => {
            return;
        },
    };
    let (cols, rows) = viewport;
    if y >= rows {
        return;
    }
    let ghost was = buffer_cells(*buf);
    let ghost run = rail_run(content@, cols, y as int, area_of(frame), *theme);
    let far: u16 = content.x.saturating_add(content.w);
    let x1: u16 = if far <= cols {
        far
    } else {
        cols
    };
    let mut x: u16 = content.x;
    proof {
        reveal_strlit("\u{2500}");
        reveal_strlit("\u{252c}");
        assert("\u{2500}"@ =~= seq!['\u{2500}']);
        assert("\u{252c}"@ =~= seq!['\u{252c}']);
        assert(run.take(0) =~= Seq::<Ink>::empty());
    }
    while x < x1
        invariant
            content.x <= x,
            x <= x1 || x == content.x,
            x1 == rail_end(content@, cols),
            run == rail_run(content@, cols, y as int, area_of(frame), *theme),
            "\u{2500}"@ == seq!['\u{2500}'],
            covers_viewport(buffer_cells(*buf), viewport),
            buffer_cells(*buf) == run_painted(
                was,
                content.x as int,
                y as int,
                run.take(x - content.x),
            ),
        decreases x1 - x,
    {
        let style = rule_style(theme, on_frame(frame, x, y));
        put(buf, viewport, x, y, "\u{2500}", style);
        proof {
            let k = x - content.x;
            assert(run[k] == (seq!['\u{2500}'], style));
            assert(run.take(k + 1) =~= run.take(k).push(run[k]));
            lemma_run_push(was, content.x as int, y as int, run.take(k), run[k]);
        }
        x = x + 1;
    }
    proof {
        assert(run.take(x - content.x) =~= run);
    }
    let ghost ruled = buffer_cells(*buf);
    let mut i: usize = 0;
    proof {
        assert(cells@.take(0) =~= Seq::<DividerCell>::empty());
    }
    while i < cells.len()
        invariant
            i <= cells.len(),
            x1 == rail_end(content@, cols),
            "\u{252c}"@ == seq!['\u{252c}'],
            covers_viewport(buffer_cells(*buf), viewport),
            buffer_cells(*buf) == with_tees(
                ruled,
                cells@.take(i as int),
                content@,
                cols,
                y as int,
                area_of(frame),
                *theme,
            ),
        decreases cells.len() - i,
    {
        let c = cells[i];
        proof {
            assert(cells@.take(i + 1).drop_last() =~= cells@.take(i as int));
            assert(cells@.take(i + 1).last() == c);
        }
        if c.y == content.y && c.x >= content.x && c.x < x1 && tees_rail(c.ch) {
            let style = rule_style(theme, on_frame(frame, c.x, y));
            put(buf, viewport, c.x, y, "\u{252c}", style);
        }
        i = i + 1;
    }
    proof {
        assert(cells@.take(i as int) =~= cells@);
    }
}

/// Inset each labelled pane's title into the rule above it.
fn draw_titles(
    buf: &mut Buffer,
    layout: &PaneLayout,
    focused: Option<TerminalId>,
    theme: &Theme,
    labels: &Vec<Option<PaneLabel>>,
)
    requires
        covers_viewport(buffer_cells(*old(buf)), layout.viewport),
        titles_start_in_u16(layout.rects@, layout.viewport.1),
        labels@.len() == layout.rects@.len(),
    ensures
        covers_viewport(buffer_cells(*final(buf)), layout.viewport),
        buffer_cells(*final(buf)) == with_titles(
            buffer_cells(*old(buf)),
            layout.viewport.1,
            layout.rects@,
            labels@,
            focused,
            *theme,
            layout.rects@.len(),
        ),
{
    let ghost was = buffer_cells(*buf);
    let n = layout.rects.len();
    let mut i: usize = 0;
    while i < n
        invariant
            i <= n,
            n == layout.rects@.len(),
            labels@.len() == n,
            titles_start_in_u16(layout.rects@, layout.viewport.1),
            covers_viewport(buffer_cells(*buf), layout.viewport),
            buffer_cells(*buf) == with_titles(
                was,
                layout.viewport.1,
                layout.rects@,
                labels@,
                focused,
                *theme,
                i as nat,
            ),
        decreases n - i,
    {
        let (id, rect) = layout.rects.entry(i);
        if title_fits(rect, layout.viewport.1) {
            match &labels[i] {
                Some(label) => {
                    draw_one_title(
                        buf,
                        layout.viewport,
                        rect,
                        rect.y - 1,
                        label,
                        theme,
                        focused == Some(id),
                    );
                },
                None => {},
            }
        }
        i = i + 1;
    }
}

/// Whether a title has a place above the pane.
fn title_fits(rect: Rect, rows: u16) -> (b: bool)
    ensures
        b == has_title_room(rect@, rows),
{
    rect.y >= 1 && rect.y - 1 < rows && rect.w > TITLE_CHROME_CELLS
}

/// The label of every pane, in the order of the layout's panes.
pub open spec fn labels_from<'p, F: Fn(&TerminalId) -> Option<PaneLabel<'p>>>(
    label_of: F,
    panes: Seq<(TerminalId, Area)>,
    rows: u16,
    labels: Seq<Option<PaneLabel<'p>>>,
) -> bool {
    &&& labels.len() == panes.len()
    &&& forall|i: int|
        0 <= i < panes.len() ==> if has_title_room((#[trigger] panes[i]).1, rows) {
            call_ensures(label_of, (&panes[i].0,), labels[i])
        } else {
            labels[i] is None
        }
}

/// Ask for the label of every pane whose title has a place.
fn collect_labels<'p, F: Fn(&TerminalId) -> Option<PaneLabel<'p>>>(
    layout: &PaneLayout,
    label_of: &F,
) -> (labels: Vec<Option<PaneLabel<'p>>>)
    requires
        forall|id: TerminalId| call_requires(*label_of, (&id,)),
    ensures
        labels_from(*label_of, layout.rects@, layout.viewport.1, labels@),
{
    let n = layout.rects.len();
    let mut labels: Vec<Option<PaneLabel<'p>>> = Vec::new();
    let mut i: usize = 0;
    while i < n
        invariant
            i <= n,
            n == layout.rects@.len(),
            labels@.len() == i,
            forall|id: TerminalId| call_requires(*label_of, (&id,)),
            forall|j: int|
                0 <= j < i ==> if has_title_room(
                    (#[trigger] layout.rects@[j]).1,
                    layout.viewport.1,
                ) {
                    call_ensures(*label_of, (&layout.rects@[j].0,), labels@[j])
                } else {
                    labels@[j] is None
                },
        decreases n - i,
    {
        let (id, rect) = layout.rects.entry(i);
        if title_fits(rect, layout.viewport.1) {
            labels.push(label_of(&id));
        } else {
            labels.push(None);
        }
        i = i + 1;
    }
    labels
}

/// Compose the chrome of a frame with the given labels, one entry per pane of
/// the layout.
pub fn compose_labelled(
    layout: &PaneLayout,
    content: Rect,
    focused: Option<TerminalId>,
    theme: &Theme,
    labels: &Vec<Option<PaneLabel>>,
) -> (buf: Buffer)
    requires
        titles_start_in_u16(layout.rects@, layout.viewport.1),
        labels@.len() == layout.rects@.len(),
    ensures
        buffer_cells(buf) == composed(
            layout.viewport,
            layout.rects@,
            layout.dividers@,
            content@,
            focused,
            *theme,
            labels@,
        ),
        covers_viewport(buffer_cells(buf), layout.viewport),
{
    let frame = match focused {
        Some(id) => layout.rects.get(id),
        None => None,
    };
    let (cols, rows) = layout.viewport;
    let mut buf = skipped_buffer(cols, rows);
    draw_dividers(&mut buf, layout.viewport, &layout.dividers, frame, theme);
    draw_rail(&mut buf, layout.viewport, &layout.dividers, content, frame, theme);
    draw_titles(&mut buf, layout, focused, theme, labels);
    buf
}

pub open spec fn focus_of(focused: Option<&TerminalId>) -> Option<TerminalId> {
    match focused {
        Some(id) => Some(*id),
        None => None,
    }
}

/// Compose the chrome of a frame, asking `label_of` for each pane's title.
pub fn compose_buffer<'p, F: Fn(&TerminalId) -> Option<PaneLabel<'p>>>(
    layout: &PaneLayout,
    content: Rect,
    focused: Option<&TerminalId>,
    theme: &Theme,
    label_of: F,
) -> (buf: Buffer)
    requires
        titles_start_in_u16(layout.rects@, layout.viewport.1),
        forall|id: TerminalId| call_requires(label_of, (&id,)),
    ensures
        exists|labels: Seq<Option<PaneLabel<'p>>>|
            labels_from(label_of, layout.rects@, layout.viewport.1, labels) && buffer_cells(buf)
                == #[trigger] composed(
                layout.viewport,
                layout.rects@,
                layout.dividers@,
                content@,
                focus_of(focused),
                *theme,
                labels,
            ),
        covers_viewport(buffer_cells(buf), layout.viewport),
{
    let labels = collect_labels(layout, &label_of);
    let focus = match focused {
        Some(id) => Some(*id),
        None => None,
    };
    compose_labelled(layout, content, focus, theme, &labels)
}

/// Append the SGR sequence of a foreground.
pub fn write_sgr_color(out: &mut String, color: Color)
    ensures
        final(out)@ == old(out)@ + color_text(color),
{
    match color {
        Color::Reset => {},
        Color::Indexed(n) => {
            out.append("\u{1b}[38;5;");
            push_decimal(out, n as u64);
            out.append("m");
        },
        Color::Rgb(r, g, b) => {
            out.append("\u{1b}[38;2;");
            push_decimal(out, r as u64);
            out.append(";");
            push_decimal(out, g as u64);
            out.append(";");
            push_decimal(out, b as u64);
            out.append("m");
        },
    }
    proof {
        assert(out@ =~= old(out)@ + color_text(color));
    }
}

/// Append the SGR sequence of a style.
fn write_style(out: &mut String, style: CellStyle)
    ensures
        final(out)@ == old(out)@ + style_text(style),
{
    out.append("\u{1b}[0m");
    if style.bold {
        out.append("\u{1b}[1m");
    }
    write_sgr_color(out, style.fg);
    proof {
        assert(out@ =~= old(out)@ + style_text(style));
    }
}

proof fn lemma_ops_push(ops: Seq<PaintOp>, op: PaintOp)
    ensures
        ops_text(ops.push(op)) == ops_text(ops) + op_text(op),
{
    assert(ops.push(op).drop_last() =~= ops);
}

/// Append the cursor move to `(x, y)`.
fn write_move(out: &mut String, x: u16, y: u16)
    ensures
        final(out)@ == old(out)@ + op_text(PaintOp::MoveTo((x as int, y as int))),
{
    out.append("\u{1b}[");
    push_decimal(out, y.saturating_add(1) as u64);
    out.append(";");
    push_decimal(out, x.saturating_add(1) as u64);
    out.append("H");
    proof {
        assert(out@ =~= old(out)@ + op_text(PaintOp::MoveTo((x as int, y as int))));
    }
}

/// Append the cells of the buffer that are not skipped, row by row, a run of
/// same-styled cells under one cursor move, between two resets. The cells a wide
/// symbol reaches over are its own and are not written again.
fn emit_buffer(out: &mut String, buf: &Buffer, viewport: (u16, u16))
    requires
        covers_viewport(buffer_cells(*buf), viewport),
    ensures
        final(out)@ == old(out)@ + emitted(buffer_cells(*buf), viewport.0, viewport.1),
{
    let ghost screen = buffer_cells(*buf);
    let ghost reset = "\u{1b}[0m"@;
    let ghost was = out@;
    let (cols, rows) = viewport;
    out.append("\u{1b}[0m");
    let mut style: Option<CellStyle> = None;
    let mut y: u16 = 0;
    let ghost mut st: EmitState = EmitState {
        ops: Seq::empty(),
        style: None,
        next: 0,
        open: false,
    };
    proof {
        assert(was + reset + ops_text(st.ops) =~= was + reset);
    }
    while y < rows
        invariant
            y <= rows,
            viewport == (cols, rows),
            screen == buffer_cells(*buf),
            covers_viewport(screen, viewport),
            st == emit_rows(screen, cols, y as nat),
            style == st.style,
            out@ == was + reset + ops_text(st.ops),
        decreases rows - y,
    {
        let ghost row_start = st;
        let mut next: usize = 0;
        let mut open = false;
        let mut x: u16 = 0;
        proof {
            st = EmitState { next: 0, open: false, ..st };
        }
        while x < cols
            invariant
                x <= cols,
                y < rows,
                viewport == (cols, rows),
                screen == buffer_cells(*buf),
                covers_viewport(screen, viewport),
                st == emit_row(screen, y as int, row_start, x as nat),
                style == st.style,
                next == min_of(st.next, usize::MAX as int),
                open == st.open,
                out@ == was + reset + ops_text(st.ops),
            decreases cols - x,
        {
            let ghost spot: Spot = (x as int, y as int);
            let ghost before = st;
            proof {
                assert(screen.contains_key(spot));
                assert(emit_row(screen, y as int, row_start, (x + 1) as nat) == emit_cell(
                    screen[spot],
                    spot,
                    st,
                ));
            }
            let symbol = symbol_at(buf, x, y);
            if (x as usize) < next {
                proof {
                    st = emit_cell(screen[spot], spot, before);
                }
            } else if skip_at(buf, x, y) || symbol.is_empty() {
                open = false;
                proof {
                    st = emit_cell(screen[spot], spot, before);
                }
            } else {
                let ghost mut ops = st.ops;
                let cell_style = style_at(buf, x, y);
                let styled = match style {
                    Some(s) => s == cell_style,
                    None => false,
                };
                if !styled {
                    write_style(out, cell_style);
                    style = Some(cell_style);
                    open = false;
                    proof {
                        lemma_ops_push(ops, PaintOp::Style(cell_style));
                        ops = ops.push(PaintOp::Style(cell_style));
                        assert(out@ =~= was + reset + ops_text(ops));
                    }
                }
                if !(open && next == x as usize) {
                    write_move(out, x, y);
                    proof {
                        lemma_ops_push(ops, PaintOp::MoveTo(spot));
                        ops = ops.push(PaintOp::MoveTo(spot));
                        assert(out@ =~= was + reset + ops_text(ops));
                    }
                }
                out.append(symbol);
                next = (x as usize).saturating_add(width_of(&chars_of(symbol)));
                open = true;
                proof {
                    lemma_ops_push(ops, PaintOp::Print(symbol@));
                    ops = ops.push(PaintOp::Print(symbol@));
                    assert(out@ =~= was + reset + ops_text(ops));
                    st = emit_cell(screen[spot], spot, before);
                    assert(st.ops == ops);
                }
            }
            x = x + 1;
        }
        y = y + 1;
    }
    out.append("\u{1b}[0m");
    proof {
        assert(out@ =~= was + emitted(screen, cols, rows));
    }
}

/// Append the divider layer of a frame with the given labels, one entry per
/// pane of the layout.
pub fn render_labelled(
    out: &mut String,
    layout: &PaneLayout,
    content: Rect,
    focused: Option<TerminalId>,
    theme: &Theme,
    labels: &Vec<Option<PaneLabel>>,
)
    requires
        titles_start_in_u16(layout.rects@, layout.viewport.1),
        labels@.len() == layout.rects@.len(),
    ensures
        final(out)@ == old(out)@ + rendered(
            layout.viewport,
            layout.rects@,
            layout.dividers@,
            content@,
            focused,
            *theme,
            labels@,
        ),
{
    proof {
        assert(out@ + Seq::<char>::empty() =~= out@);
    }
    if no_chrome(layout, content) {
        return;
    }
    let buf = compose_labelled(layout, content, focused, theme, labels);
    emit_buffer(out, &buf, layout.viewport);
}

/// Whether the frame has no chrome at all.
fn no_chrome(layout: &PaneLayout, content: Rect) -> (b: bool)
    ensures
        b == nothing_to_draw(layout.viewport, layout.dividers@, content@),
{
    let (cols, rows) = layout.viewport;
    if cols == 0 || rows == 0 {
        return true;
    }
    layout.dividers.len() == 0 && match rail_row(content) {
        Some(y) => y >= rows,
        None => true,
    }
}

/// Append the divider layer of a frame to `out`.
///
/// `content` is the pane area the layout was tiled into; the rail is drawn on
/// the row above it. `focused` is the pane whose frame is emphasised. `label_of`
/// gives each pane's title, `None` for a pane that stays unlabelled; it is asked
/// only where there is chrome to draw, and only for panes whose title has a
/// place.
pub fn render_dividers<'p, F: Fn(&TerminalId) -> Option<PaneLabel<'p>>>(
    out: &mut String,
    layout: &PaneLayout,
    content: Rect,
    focused: Option<&TerminalId>,
    theme: &Theme,
    label_of: F,
)
    requires
        titles_start_in_u16(layout.rects@, layout.viewport.1),
        forall|id: TerminalId| call_requires(label_of, (&id,)),
    ensures
        nothing_to_draw(layout.viewport, layout.dividers@, content@) ==> final(out)@ == old(out)@,
        !nothing_to_draw(layout.viewport, layout.dividers@, content@) ==> exists|
            labels: Seq<Option<PaneLabel<'p>>>,
        |
            labels_from(label_of, layout.rects@, layout.viewport.1, labels) && final(out)@ == old(
                out,
            )@ + #[trigger] rendered(
                layout.viewport,
                layout.rects@,
                layout.dividers@,
                content@,
                focus_of(focused),
                *theme,
                labels,
            ),
{
    if no_chrome(layout, content) {
        return;
    }
    let labels = collect_labels(layout, &label_of);
    let focus = match focused {
        Some(id) => Some(*id),
        None => None,
    };
    render_labelled(out, layout, content, focus, theme, &labels);
}

} // verus!
