//! The `spacer` status-bar widget: elastic blank space that pushes its
//! neighbours apart.
//!
//! A spacer has no content and wants no width of its own. It is then handed a
//! share of the columns nothing else claimed, and on a full row that is none.
use vstd::prelude::*;
use vstd::string::*;

use crate::theme::CellStyle;

verus! {

/// One cell of a widget: its symbol, blank while it has none, and its style.
#[derive(Debug, PartialEq, Eq)]
pub struct Cell {
    pub text: Vec<char>,
    pub style: Option<CellStyle>,
}

/// A blank cell without a style.
pub open spec fn is_blank(cell: Cell) -> bool {
    cell.text@.len() == 0 && cell.style is None
}

impl Default for Cell {
    fn default() -> (c: Cell)
        ensures
            is_blank(c),
    {
        Cell { text: Vec::new(), style: None }
    }
}

/// What a widget renders.
#[derive(Debug, PartialEq, Eq)]
pub struct WidgetCells {
    pub cells: Vec<Cell>,
}

/// Why a widget could not be built.
#[derive(Debug, PartialEq, Eq)]
pub enum WidgetError {
    /// An option the widget does not take, or not in that form.
    InvalidOption { kind: String, message: String },
}

/// The `spacer` widget.
#[derive(Debug, Clone, Copy)]
pub struct SpacerWidget;

impl Default for SpacerWidget {
    fn default() -> (s: SpacerWidget)
        ensures
            s == SpacerWidget,
    {
        SpacerWidget
    }
}

impl SpacerWidget {
    /// The natural rendering: no cells.
    pub fn render(&self) -> (w: WidgetCells)
        ensures
            w.cells@.len() == 0,
    {
        WidgetCells { cells: Vec::new() }
    }

    /// The elastic payout: exactly `budget` blank cells. They carry no style, so
    /// that a style of the widget can fill the gap.
    pub fn render_within(&self, budget: usize) -> (w: WidgetCells)
        ensures
            w.cells@.len() == budget,
            forall|i: int| 0 <= i < budget ==> is_blank(#[trigger] w.cells@[i]),
    {
        let mut cells: Vec<Cell> = Vec::new();
        while cells.len() < budget
            invariant
                cells@.len() <= budget,
                forall|i: int| 0 <= i < cells@.len() ==> is_blank(#[trigger] cells@[i]),
            decreases budget - cells@.len(),
        {
            cells.push(Cell::default());
        }
        WidgetCells { cells }
    }

    /// A spacer absorbs slack.
    pub fn elastic(&self) -> (b: bool)
        ensures
            b,
    {
        true
    }
}

/// Build a spacer from the names of its options. It takes none: the first one,
/// in the order of their names, is refused.
pub fn factory(options: &Vec<String>) -> (r: Result<SpacerWidget, WidgetError>)
    ensures
        options@.len() == 0 ==> r is Ok,
        options@.len() > 0 ==> {
            &&& r matches Err(WidgetError::InvalidOption { kind, message }) && kind@ == "spacer"@
                && message@ == "unknown option `"@ + options@[0]@ + "`"@
        },
{
    if options.len() == 0 {
        return Ok(SpacerWidget);
    }
    let mut message = "unknown option `".to_owned();
    message.append(options[0].as_str());
    message.append("`");
    Err(WidgetError::InvalidOption { kind: "spacer".to_owned(), message })
}

} // verus!
