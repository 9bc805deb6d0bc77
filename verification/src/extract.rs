//! The column extractor: one output column from one resolved offset.

use vstd::prelude::*;
use crate::cell::{render, rendered};
use crate::mapping::Offset;
use crate::range::Range;
use crate::text::texts;

verus! {

/// How many rows an extracted column has: those from `header_row` to the
/// last row of the range, and none when the header row is past the end.
pub open spec fn extracted_len(range: Range, header_row: int) -> nat {
    if 0 <= header_row < range.rows() {
        (range.rows() - header_row) as nat
    } else {
        0
    }
}

/// The column that `offset` yields: one text for each row from `header_row`
/// to the last. A column index yields the rendering of that column's cell in
/// each row; `Skip` yields the empty text in every row, the header's row
/// included.
pub open spec fn extracted(range: Range, header_row: int, offset: Offset) -> Seq<Seq<char>> {
    Seq::new(
        extracted_len(range, header_row),
        |i: int|
            match offset {
                Offset::Column(c) => rendered(range.at(header_row + i, c as int)),
                Offset::Skip => Seq::empty(),
            },
    )
}

/// Extracts the column that `offset` yields, from `header_row` down.
pub fn extract(range: &Range, header_row: usize, offset: Offset) -> (column: Vec<String>)
    requires
        offset.within(range.cols()),
    ensures
        texts(column@) == extracted(*range, header_row as int, offset),
{
    let rows = range.row_count();
    let mut column: Vec<String> = Vec::new();
    if header_row >= rows {
        proof {
            assert(texts(column@) =~= extracted(*range, header_row as int, offset));
        }
        return column;
    }
    let mut r: usize = header_row;
    while r < rows
        invariant
            header_row <= r <= rows,
            rows == range.rows(),
            offset.within(range.cols()),
            column@.len() == r - header_row,
            forall|i: int|
                0 <= i < r - header_row ==> (#[trigger] column@[i])@ == extracted(
                    *range,
                    header_row as int,
                    offset,
                )[i],
        decreases rows - r,
    {
        let text = match offset {
            Offset::Column(c) => render(range.cell(r, c)),
            Offset::Skip => String::new(),
        };
        column.push(text);
        r = r + 1;
    }
    proof {
        assert(texts(column@) =~= extracted(*range, header_row as int, offset));
    }
    column
}

/// A column index yields exactly one entry for each row from the header row
/// to the last, and the first of them is the rendering of the header cell.
pub proof fn lemma_extracted_column(range: Range, header_row: int, col: usize)
    requires
        0 <= header_row < range.rows(),
        col < range.cols(),
    ensures
        extracted(range, header_row, Offset::Column(col)).len() == range.rows() - header_row,
        extracted(range, header_row, Offset::Column(col))[0] == rendered(
            range.at(header_row, col as int),
        ),
        forall|i: int|
            0 <= i < range.rows() - header_row ==> #[trigger] extracted(
                range,
                header_row,
                Offset::Column(col),
            )[i] == rendered(range.at(header_row + i, col as int)),
{
}

/// `Skip` yields one empty text for each row from the header row to the
/// last, whatever the cells of the range hold.
pub proof fn lemma_extracted_skip(range: Range, header_row: int)
    requires
        0 <= header_row < range.rows(),
    ensures
        extracted(range, header_row, Offset::Skip).len() == range.rows() - header_row,
        forall|i: int|
            0 <= i < range.rows() - header_row ==> (#[trigger] extracted(
                range,
                header_row,
                Offset::Skip,
            )[i]).len() == 0,
{
}

/// What `Skip` yields depends on the number of rows alone: two ranges of
/// the same height give the same column.
pub proof fn lemma_skip_ignores_content(first: Range, second: Range, header_row: int)
    requires
        first.rows() == second.rows(),
    ensures
        extracted(first, header_row, Offset::Skip) == extracted(second, header_row, Offset::Skip),
{
    assert(extracted(first, header_row, Offset::Skip) =~= extracted(
        second,
        header_row,
        Offset::Skip,
    ));
}

/// When the header row is the last row, whatever is extracted has the
/// header's entry and nothing below it.
pub proof fn lemma_header_in_last_row(range: Range, offset: Offset)
    requires
        range.rows() >= 1,
    ensures
        extracted(range, range.rows() - 1, offset).len() == 1,
{
}

} // verus!
