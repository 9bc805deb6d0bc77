//! Cell values and the one rendering that both the previews and the
//! extracted output go through.

use vstd::prelude::*;
use crate::text::{render_signed, signed_text};

verus! {

/// The typed content of one sheet position.
///
/// A sheet reader produces these and nothing here ever changes one. A
/// fractional number is carried as the decimal text that the reader formatted
/// it to, so that rendering needs no arithmetic on it.
#[derive(Debug, PartialEq, Eq)]
pub enum CellValue {
    /// Nothing in the cell.
    Empty,
    /// Text, kept verbatim.
    Text(String),
    /// A fractional number, as its locale-free decimal text.
    Float(String),
    /// A whole number.
    Integer(i64),
    /// A truth value.
    Boolean(bool),
    /// An error marker; which error it was is not kept.
    Error,
}

impl Clone for CellValue {
    /// A cell that holds the same.
    fn clone(&self) -> (copy: CellValue)
        ensures
            copy == *self,
    {
        match self {
            CellValue::Empty => CellValue::Empty,
            CellValue::Text(s) => CellValue::Text(s.clone()),
            CellValue::Float(s) => CellValue::Float(s.clone()),
            CellValue::Integer(n) => CellValue::Integer(*n),
            CellValue::Boolean(b) => CellValue::Boolean(*b),
            CellValue::Error => CellValue::Error,
        }
    }
}

/// The text that stands for a truth value.
pub open spec fn boolean_text(b: bool) -> Seq<char> {
    if b {
        "true"@
    } else {
        "false"@
    }
}

/// The text that a cell is shown as and extracted as.
pub open spec fn rendered(cell: CellValue) -> Seq<char> {
    match cell {
        CellValue::Empty => Seq::empty(),
        CellValue::Text(s) => s@,
        CellValue::Float(s) => s@,
        CellValue::Integer(n) => signed_text(n as int),
        CellValue::Boolean(b) => boolean_text(b),
        CellValue::Error => "Error"@,
    }
}

/// Renders a cell as text. Total: every cell has a rendering.
pub fn render(cell: &CellValue) -> (text: String)
    ensures
        text@ == rendered(*cell),
{
    match cell {
        CellValue::Empty => String::new(),
        CellValue::Text(s) => s.clone(),
        CellValue::Float(s) => s.clone(),
        CellValue::Integer(n) => render_signed(*n),
        CellValue::Boolean(b) => {
            if *b {
                String::from_str("true")
            } else {
                String::from_str("false")
            }
        },
        CellValue::Error => String::from_str("Error"),
    }
}

/// The number of characters in a cell's rendering.
pub fn rendered_width(cell: &CellValue) -> (width: usize)
    ensures
        width == rendered(*cell).len(),
{
    let text = render(cell);
    text.as_str().unicode_len()
}

} // verus!
