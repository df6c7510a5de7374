//! The cell buffer the chrome is composed in: ratatui's `Buffer`, seen as a map
//! from cells to what they hold.
use vstd::prelude::*;

use ratatui::buffer::Buffer;

use crate::grid::Spot;
use crate::theme::{CellStyle, Color};

verus! {

/// ratatui's cell buffer.
#[verifier::external_type_specification]
#[verifier::external_body]
pub struct ExBuffer(Buffer);

/// What one buffer cell holds, as far as this library writes it.
#[verifier::ext_equal]
pub struct CellView {
    pub symbol: Seq<char>,
    pub style: CellStyle,
    /// The cell belongs to somebody else and must not be emitted.
    pub skip: bool,
}

/// The cells of a buffer.
pub type Screen = Map<Spot, CellView>;

/// The cells of a ratatui buffer: for every position of its area the symbol,
/// the foreground (any but an indexed or a direct one counts as the terminal's
/// default), whether the bold modifier is set, and whether the diff option is
/// `Skip`.
pub uninterp spec fn buffer_cells(buf: Buffer) -> Map<(int, int), CellView>;

/// The positions of a `cols` by `rows` buffer.
pub open spec fn in_screen(cols: u16, rows: u16, spot: Spot) -> bool {
    0 <= spot.0 < cols && 0 <= spot.1 < rows
}

/// A fresh buffer's cells: blank, unstyled, not skipped.
pub open spec fn empty_screen(cols: u16, rows: u16) -> Screen {
    Map::new(
        |s: Spot| in_screen(cols, rows, s),
        |s: Spot|
            CellView {
                symbol: seq![' '],
                style: CellStyle { fg: Color::Reset, bold: false },
                skip: false,
            },
    )
}

/// `ratatui::buffer::Buffer::empty` over the area from `(0, 0)`: every cell of
/// the area is a space without style or diff option.
#[verifier::external_body]
pub(crate) fn empty_buffer(cols: u16, rows: u16) -> (buf: Buffer)
    ensures
        buffer_cells(buf) == empty_screen(cols, rows),
{
    Buffer::empty(ratatui::layout::Rect::new(0, 0, cols, rows))
}

/// `ratatui::buffer::Cell::set_symbol` on the cell at `(x, y)`: replaces the
/// symbol of that cell and nothing else.
#[verifier::external_body]
pub(crate) fn set_symbol(buf: &mut Buffer, x: u16, y: u16, symbol: &str)
    requires
        buffer_cells(*old(buf)).contains_key((x as int, y as int)),
    ensures
        buffer_cells(*final(buf)) == buffer_cells(*old(buf)).insert(
            (x as int, y as int),
            (CellView { symbol: symbol@, ..buffer_cells(*old(buf))[(x as int, y as int)] }),
        ),
{
    buf[(x, y)].set_symbol(symbol);
}

/// `ratatui::buffer::Cell::set_style` on the cell at `(x, y)` with a style that
/// sets a foreground and adds bold or nothing: the foreground is replaced, and
/// bold is added but never taken away.
#[verifier::external_body]
pub(crate) fn set_style(buf: &mut Buffer, x: u16, y: u16, style: CellStyle)
    requires
        buffer_cells(*old(buf)).contains_key((x as int, y as int)),
    ensures
        buffer_cells(*final(buf)) == buffer_cells(*old(buf)).insert(
            (x as int, y as int),
            (CellView {
                style: CellStyle {
                    fg: style.fg,
                    bold: style.bold || buffer_cells(*old(buf))[(x as int, y as int)].style.bold,
                },
                ..buffer_cells(*old(buf))[(x as int, y as int)]
            }),
        ),
{
    let fg = match style.fg {
        Color::Reset => ratatui::style::Color::Reset,
        Color::Indexed(n) => ratatui::style::Color::Indexed(n),
        Color::Rgb(r, g, b) => ratatui::style::Color::Rgb(r, g, b),
    };
    let bold = match style.bold {
        true => ratatui::style::Modifier::BOLD,
        false => ratatui::style::Modifier::empty(),
    };
    buf[(x, y)].set_style(ratatui::style::Style::new().fg(fg).add_modifier(bold));
}

/// `ratatui::buffer::Cell::set_diff_option` on the cell at `(x, y)`, with `Skip`
/// or `None`: sets whether that cell is skipped and nothing else.
#[verifier::external_body]
pub(crate) fn set_skip(buf: &mut Buffer, x: u16, y: u16, skip: bool)
    requires
        buffer_cells(*old(buf)).contains_key((x as int, y as int)),
    ensures
        buffer_cells(*final(buf)) == buffer_cells(*old(buf)).insert(
            (x as int, y as int),
            (CellView { skip, ..buffer_cells(*old(buf))[(x as int, y as int)] }),
        ),
{
    let option = match skip {
        true => ratatui::buffer::CellDiffOption::Skip,
        false => ratatui::buffer::CellDiffOption::None,
    };
    buf[(x, y)].set_diff_option(option);
}

/// `ratatui::buffer::Cell::symbol` of the cell at `(x, y)`.
#[verifier::external_body]
pub(crate) fn symbol_at(buf: &Buffer, x: u16, y: u16) -> (symbol: &str)
    requires
        buffer_cells(*buf).contains_key((x as int, y as int)),
    ensures
        symbol@ == buffer_cells(*buf)[(x as int, y as int)].symbol,
{
    buf[(x, y)].symbol()
}

/// `ratatui::buffer::Cell::style` of the cell at `(x, y)`: its foreground, where
/// any but an indexed or a direct one counts as the terminal's default, and
/// whether bold is among its modifiers.
#[verifier::external_body]
pub(crate) fn style_at(buf: &Buffer, x: u16, y: u16) -> (style: CellStyle)
    requires
        buffer_cells(*buf).contains_key((x as int, y as int)),
    ensures
        style == buffer_cells(*buf)[(x as int, y as int)].style,
{
    let style = buf[(x, y)].style();
    let fg = match style.fg {
        Some(ratatui::style::Color::Indexed(n)) => Color::Indexed(n),
        Some(ratatui::style::Color::Rgb(r, g, b)) => Color::Rgb(r, g, b),
        _ => Color::Reset,
    };
    CellStyle { fg, bold: style.add_modifier.contains(ratatui::style::Modifier::BOLD) }
}

/// The `diff_option` field of the `ratatui::buffer::Cell` at `(x, y)`: whether
/// it is `Skip`.
#[verifier::external_body]
pub(crate) fn skip_at(buf: &Buffer, x: u16, y: u16) -> (skip: bool)
    requires
        buffer_cells(*buf).contains_key((x as int, y as int)),
    ensures
        skip == buffer_cells(*buf)[(x as int, y as int)].skip,
{
    buf[(x, y)].diff_option == ratatui::buffer::CellDiffOption::Skip
}

} // verus!
