//! Normalises spreadsheet exports of varying layout into one canonical
//! table, with an operator who says which raw column is which field.
//!
//! The library is the part that decides and computes; it neither reads a
//! file nor prints a line.
//!
//! - [`cell`] and [`range`] hold a sheet: typed cells in a rectangular grid,
//!   and the one rendering of a cell as text.
//! - [`preview`] builds what the operator is shown, [`entry`] reads what the
//!   operator types.
//! - [`resolver`] is the sequence of questions for one workbook: sheet,
//!   header row, one column or a skip for each field, and the split. It ends
//!   in a [`mapping::ResolvedMapping`].
//! - [`extract`] takes one column out of a range, [`assemble`] puts the
//!   output together, and [`xlsx`] writes it as a worksheet.
//! - [`ledger`] words the line that records a saved file.
//! - [`driver`] takes a batch of files through all of this, one at a time.
//!
//! A program around the library carries out what [`driver`] and
//! [`resolver`] ask for and reports back what came of it.

pub mod assemble;
pub mod cell;
pub mod driver;
pub mod entry;
pub mod extract;
pub mod ledger;
pub mod mapping;
pub mod preview;
pub mod range;
pub mod resolver;
pub mod text;
pub mod xlsx;
