//! The step from an assembled output to a worksheet of the spreadsheet
//! writer, `rust_xlsxwriter`.
//!
//! The writer refuses a cell outside a worksheet's bounds and a text above a
//! fixed length. [`write_sheet`] tests both before it writes anything, so a
//! worksheet is either complete or not made at all.
//!
//! What the writer does is not proved here. It is stated in the contracts of
//! the four items that call it (`blank_sheet`, `name_sheet`, `write_texts`)
//! or speak of its worksheet (`sheet_cells`, `sheet_name`), and everything
//! else in this file is proved from those.

use vstd::prelude::*;
use rust_xlsxwriter::Worksheet;
use crate::assemble::{sheet_title, OutputWorkbook};
use crate::text::texts;

verus! {

/// The number of rows that a worksheet can hold.
pub const MAX_ROWS: usize = 1_048_576;

/// The number of columns that a worksheet can hold.
pub const MAX_COLS: usize = 16_384;

/// The number of characters that the text of one cell can have.
pub const MAX_TEXT: usize = 32_767;

/// The number of characters that a worksheet's name can have.
pub const MAX_NAME: usize = 31;

/// `rust_xlsxwriter::Worksheet`, carried as it is: nothing inside it is read
/// here.
#[verifier::external_type_specification]
#[verifier::external_body]
pub struct ExWorksheet(rust_xlsxwriter::Worksheet);

/// The texts that a `rust_xlsxwriter::Worksheet` holds in its cells, by row
/// and column. A position without a text is not in the map.
pub uninterp spec fn sheet_cells(sheet: rust_xlsxwriter::Worksheet) -> Map<(int, int), Seq<char>>;

/// The name of a `rust_xlsxwriter::Worksheet`.
pub uninterp spec fn sheet_name(sheet: rust_xlsxwriter::Worksheet) -> Seq<char>;

/// Why an output cannot be written as a worksheet.
#[derive(Clone, Copy, Debug, PartialEq, Eq, Structural)]
pub enum ExportError {
    /// There are more than `MAX_COLS` columns.
    TooManyColumns,
    /// A column has more than `MAX_ROWS` entries.
    TooManyRows,
    /// A text has more than `MAX_TEXT` characters.
    TextTooLong,
}

/// Whether a character can stand in a worksheet's name.
pub open spec fn name_char(c: char) -> bool {
    c != '*' && c != '?' && c != ':' && c != '[' && c != ']' && c != '\\' && c != '/'
}

/// Whether the writer takes `name` as a worksheet's name: it is not empty,
/// has at most `MAX_NAME` characters, none of them one of `* ? : [ ] \ /`,
/// and it neither starts nor ends with an apostrophe.
pub open spec fn nameable(name: Seq<char>) -> bool {
    &&& 0 < name.len() <= MAX_NAME
    &&& forall|i: int| 0 <= i < name.len() ==> name_char(#[trigger] name[i])
    &&& name.first() != '\''
    &&& name.last() != '\''
}

/// Whether the writer takes `column` at `row` and `col`: every text that is
/// not empty lies inside the worksheet and is short enough. An empty text is
/// never written, so nothing is asked of it.
pub open spec fn writable(row: int, col: int, column: Seq<Seq<char>>) -> bool {
    forall|i: int|
        0 <= i < column.len() && (#[trigger] column[i]).len() > 0 ==> {
            &&& row + i < MAX_ROWS
            &&& col < MAX_COLS
            &&& column[i].len() <= MAX_TEXT
        }
}

/// The cells of a worksheet that nothing was written to.
pub open spec fn no_cells() -> Map<(int, int), Seq<char>> {
    Map::empty()
}

/// Whether writing `column` at `row` and `col` puts a text at `at`.
pub open spec fn written_at(row: int, col: int, column: Seq<Seq<char>>, at: (int, int)) -> bool {
    &&& at.1 == col
    &&& row <= at.0 < row + column.len()
    &&& column[at.0 - row].len() > 0
}

/// The cells after `column` was written at `row` and `col`: each text that
/// is not empty now stands at its position, and every other position is as
/// it was.
pub open spec fn with_column(
    cells: Map<(int, int), Seq<char>>,
    row: int,
    col: int,
    column: Seq<Seq<char>>,
) -> Map<(int, int), Seq<char>> {
    Map::new(
        |at: (int, int)| cells.dom().contains(at) || written_at(row, col, column, at),
        |at: (int, int)|
            if written_at(row, col, column, at) {
                column[at.0 - row]
            } else {
                cells[at]
            },
    )
}

/// `rust_xlsxwriter::Worksheet::new`: a worksheet that holds no text yet.
#[verifier::external_body]
fn blank_sheet() -> (sheet: Worksheet)
    ensures
        sheet_cells(sheet) == no_cells(),
{
    Worksheet::new()
}

/// `rust_xlsxwriter::Worksheet::set_name`. It refuses a name that is not
/// `nameable` and otherwise stores it; the cells are not touched.
#[verifier::external_body]
fn name_sheet(sheet: &mut Worksheet, name: &str)
    requires
        nameable(name@),
    ensures
        sheet_name(*final(sheet)) == name@,
        sheet_cells(*final(sheet)) == sheet_cells(*old(sheet)),
{
    let _ = sheet.set_name(name);
}

/// `rust_xlsxwriter::Worksheet::write_column`, for a column of texts. It
/// writes the texts downwards from `row` in column `col`, passes over each
/// empty one, and stops with an error at the first text that is outside the
/// worksheet or too long: there is none in a column that is `writable`. The
/// name is not touched. The writer counts the rows in 32 bits, one past the
/// last text, which is why the column has to end below that.
#[verifier::external_body]
fn write_texts(sheet: &mut Worksheet, row: u32, col: u16, column: &Vec<String>)
    requires
        row + column@.len() < u32::MAX,
        writable(row as int, col as int, texts(column@)),
    ensures
        sheet_name(*final(sheet)) == sheet_name(*old(sheet)),
        sheet_cells(*final(sheet)) == with_column(
            sheet_cells(*old(sheet)),
            row as int,
            col as int,
            texts(column@),
        ),
{
    let _ = sheet.write_column(row, col, column);
}

/// The first limit that an output breaks, if it breaks one: the number of
/// columns is looked at first, then the height of each column, then the
/// length of each text.
pub open spec fn export_error(output: Seq<Seq<Seq<char>>>) -> Option<ExportError> {
    if output.len() > MAX_COLS {
        Some(ExportError::TooManyColumns)
    } else if exists|c: int| 0 <= c < output.len() && (#[trigger] output[c]).len() > MAX_ROWS {
        Some(ExportError::TooManyRows)
    } else if exists|c: int, r: int|
        0 <= c < output.len() && 0 <= r < output[c].len() && (#[trigger] output[c][r]).len()
            > MAX_TEXT {
        Some(ExportError::TextTooLong)
    } else {
        None
    }
}

/// The cells of the worksheet that an output is written as: the text of
/// row `r` in column `c` at `(r, c)`, and nothing where the text is empty.
pub open spec fn output_cells(output: Seq<Seq<Seq<char>>>) -> Map<(int, int), Seq<char>> {
    Map::new(
        |at: (int, int)|
            0 <= at.1 < output.len() && 0 <= at.0 < output[at.1].len() && output[at.1][at.0].len()
                > 0,
        |at: (int, int)| output[at.1][at.0],
    )
}

/// Tests an output against the limits of a worksheet.
pub fn check_limits(output: &OutputWorkbook) -> (found: Option<ExportError>)
    ensures
        found == export_error(output@),
{
    let count = output.columns.len();
    if count > MAX_COLS {
        return Some(ExportError::TooManyColumns);
    }
    let mut c: usize = 0;
    while c < count
        invariant
            c <= count <= MAX_COLS,
            count == output.columns@.len(),
            forall|j: int| 0 <= j < c ==> (#[trigger] output@[j]).len() <= MAX_ROWS,
        decreases count - c,
    {
        if output.columns[c].len() > MAX_ROWS {
            proof {
                assert(output@[c as int].len() > MAX_ROWS);
            }
            return Some(ExportError::TooManyRows);
        }
        c = c + 1;
    }
    let mut c: usize = 0;
    while c < count
        invariant
            c <= count <= MAX_COLS,
            count == output.columns@.len(),
            forall|j: int| 0 <= j < count ==> (#[trigger] output@[j]).len() <= MAX_ROWS,
            forall|j: int, r: int|
                0 <= j < c && 0 <= r < output@[j].len() ==> (#[trigger] output@[j][r]).len()
                    <= MAX_TEXT,
        decreases count - c,
    {
        let column = &output.columns[c];
        let mut r: usize = 0;
        while r < column.len()
            invariant
                r <= column@.len(),
                c < count <= MAX_COLS,
                count == output.columns@.len(),
                column@ == output.columns@[c as int]@,
                forall|j: int| 0 <= j < count ==> (#[trigger] output@[j]).len() <= MAX_ROWS,
                forall|i: int| 0 <= i < r ==> (#[trigger] output@[c as int][i]).len() <= MAX_TEXT,
            decreases column@.len() - r,
        {
            if column[r].as_str().unicode_len() > MAX_TEXT {
                proof {
                    assert(output@[c as int][r as int].len() > MAX_TEXT);
                }
                return Some(ExportError::TextTooLong);
            }
            r = r + 1;
        }
        c = c + 1;
    }
    None
}

/// Writes an output as a worksheet named `Data`.
///
/// The worksheet is made when the output keeps within the limits, and then
/// holds every text of the output at its row and column; a blank entry
/// leaves its cell unwritten. Otherwise the first limit that is broken is
/// reported and nothing is made.
pub fn write_sheet(output: &OutputWorkbook) -> (made: Result<Worksheet, ExportError>)
    ensures
        match made {
            Ok(sheet) => {
                &&& export_error(output@) is None
                &&& sheet_name(sheet) == sheet_title()
                &&& sheet_cells(sheet) == output_cells(output@)
            },
            Err(error) => export_error(output@) == Some(error),
        },
{
    match check_limits(output) {
        Some(error) => {
            return Err(error);
        },
        None => {},
    }
    let mut sheet = blank_sheet();
    proof {
        reveal_strlit("Data");
        assert(nameable("Data"@));
    }
    name_sheet(&mut sheet, OutputWorkbook::title());
    let count = output.columns.len();
    let mut c: usize = 0;
    while c < count
        invariant
            c <= count <= MAX_COLS,
            count == output.columns@.len(),
            export_error(output@) is None,
            sheet_name(sheet) == sheet_title(),
            sheet_cells(sheet) == output_cells(output@.take(c as int)),
        decreases count - c,
    {
        let column = &output.columns[c];
        proof {
            let wanted = texts(column@);
            assert(wanted == output@[c as int]);
            assert(wanted.len() <= MAX_ROWS);
            assert forall|i: int| 0 <= i < wanted.len() implies (#[trigger] wanted[i]).len()
                <= MAX_TEXT by {
                assert(output@[c as int][i].len() <= MAX_TEXT);
            }
            assert(with_column(output_cells(output@.take(c as int)), 0, c as int, wanted)
                =~= output_cells(output@.take(c + 1)));
        }
        write_texts(&mut sheet, 0, c as u16, column);
        c = c + 1;
    }
    proof {
        assert(output@.take(count as int) =~= output@);
    }
    Ok(sheet)
}

} // verus!
