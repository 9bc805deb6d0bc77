//! What the operator is shown before choosing: a bounded preview of the
//! sheet, a short vertical sample of each column, and numbered lists.
//!
//! Everything here builds text and prints nothing.

use vstd::prelude::*;
use crate::cell::{render, rendered, rendered_width, CellValue};
use crate::range::Range;
use crate::text::{decimal_text, join, joined, pad_right, padded, render_index, texts};

verus! {

/// How many rows a preview shows at most.
pub const PREVIEW_ROWS: usize = 10;

/// How many cells of a row a preview shows at most.
pub const PREVIEW_COLS: usize = 10;

/// How many rows are measured for the preview's cell width.
pub const WIDTH_ROWS: usize = 15;

/// How many rows, from the header row on, a column sample shows at most.
pub const SAMPLE_ROWS: usize = 3;

/// The smaller of two numbers.
pub open spec fn least(a: int, b: int) -> int {
    if a <= b {
        a
    } else {
        b
    }
}

/// The larger of two lengths.
pub open spec fn larger(a: nat, b: nat) -> nat {
    if a >= b {
        a
    } else {
        b
    }
}

/// The length of the longest rendering among `cells`; zero when there are
/// none.
pub open spec fn widest_in(cells: Seq<CellValue>) -> nat
    decreases cells.len(),
{
    if cells.len() == 0 {
        0
    } else {
        larger(widest_in(cells.drop_last()), rendered(cells.last()).len())
    }
}

/// The length of the longest rendering among all cells of `grid`.
pub open spec fn widest(grid: Seq<Seq<CellValue>>) -> nat
    decreases grid.len(),
{
    if grid.len() == 0 {
        0
    } else {
        larger(widest(grid.drop_last()), widest_in(grid.last()))
    }
}

/// The width that every previewed cell is padded to: the longest rendering
/// among all cells of the first `WIDTH_ROWS` rows.
pub open spec fn preview_width(range: Range) -> nat {
    widest(range@.take(least(WIDTH_ROWS as int, range.rows() as int)))
}

/// The cells of one previewed row, each padded to `width` and followed by
/// a column rule.
pub open spec fn preview_cells(cells: Seq<CellValue>, width: nat) -> Seq<char>
    decreases cells.len(),
{
    if cells.len() == 0 {
        Seq::empty()
    } else {
        preview_cells(cells.drop_last(), width) + padded(rendered(cells.last()), width) + " | "@
    }
}

/// One line of the preview: the row's index, then its first `PREVIEW_COLS`
/// cells.
pub open spec fn preview_line(index: nat, cells: Seq<CellValue>, width: nat) -> Seq<char> {
    decimal_text(index) + ": | "@ + preview_cells(
        cells.take(least(PREVIEW_COLS as int, cells.len() as int)),
        width,
    )
}

/// The preview of a range: one line for each of its first `PREVIEW_ROWS`
/// rows, and none for a range without rows.
pub open spec fn preview_lines(range: Range) -> Seq<Seq<char>> {
    Seq::new(
        least(PREVIEW_ROWS as int, range.rows() as int) as nat,
        |i: int| preview_line(i as nat, range@[i], preview_width(range)),
    )
}

/// What a column sample shows of column `col`: the renderings of the cells
/// in up to `SAMPLE_ROWS` rows from `header_row` on.
pub open spec fn sample_parts(range: Range, header_row: int, col: int) -> Seq<Seq<char>> {
    Seq::new(
        if header_row < range.rows() {
            least(SAMPLE_ROWS as int, range.rows() - header_row) as nat
        } else {
            0
        },
        |k: int| rendered(range.at(header_row + k, col)),
    )
}

/// The sample line of one column.
pub open spec fn column_sample(range: Range, header_row: int, col: int) -> Seq<char> {
    joined(sample_parts(range, header_row, col), " ---- "@)
}

/// The sample lines of a range, one for each column.
pub open spec fn column_sample_lines(range: Range, header_row: int) -> Seq<Seq<char>> {
    Seq::new(range.cols(), |c: int| column_sample(range, header_row, c))
}

/// One line of a numbered list.
pub open spec fn numbered_line(index: nat, item: Seq<char>) -> Seq<char> {
    decimal_text(index) + ": "@ + item
}

/// The lines of a numbered list, counted from zero.
pub open spec fn numbered_lines(items: Seq<Seq<char>>) -> Seq<Seq<char>> {
    Seq::new(items.len(), |i: int| numbered_line(i as nat, items[i]))
}

/// No rendering among `cells` is longer than `widest_in(cells)`.
pub proof fn lemma_widest_in_bounds(cells: Seq<CellValue>, col: int)
    requires
        0 <= col < cells.len(),
    ensures
        rendered(cells[col]).len() <= widest_in(cells),
    decreases cells.len(),
{
    if col < cells.len() - 1 {
        lemma_widest_in_bounds(cells.drop_last(), col);
    }
}

/// No rendering in `grid` is longer than `widest(grid)`.
pub proof fn lemma_widest_bounds(grid: Seq<Seq<CellValue>>, row: int, col: int)
    requires
        0 <= row < grid.len(),
        0 <= col < grid[row].len(),
    ensures
        rendered(grid[row][col]).len() <= widest(grid),
    decreases grid.len(),
{
    if row < grid.len() - 1 {
        lemma_widest_bounds(grid.drop_last(), row, col);
    } else {
        lemma_widest_in_bounds(grid.last(), col);
    }
}

/// The preview is aligned: every cell that it shows is padded to exactly the
/// preview's width, so the column rules of all lines stand below each other.
pub proof fn lemma_preview_aligned(range: Range, row: int, col: int)
    requires
        0 <= row < range.rows(),
        row < PREVIEW_ROWS,
        0 <= col < range@[row].len(),
    ensures
        padded(rendered(range.at(row, col)), preview_width(range)).len() == preview_width(range),
{
    let measured = range@.take(least(WIDTH_ROWS as int, range.rows() as int));
    assert(measured[row] == range@[row]);
    lemma_widest_bounds(measured, row, col);
}

/// The width that the preview of `range` pads to.
pub fn measure(range: &Range) -> (width: usize)
    ensures
        width == preview_width(*range),
{
    let cols = range.col_count();
    let rows = if range.row_count() < WIDTH_ROWS {
        range.row_count()
    } else {
        WIDTH_ROWS
    };
    let mut width: usize = 0;
    let mut r: usize = 0;
    while r < rows
        invariant
            r <= rows <= range.rows(),
            cols == range.cols(),
            range.well_formed(),
            width == widest(range@.take(r as int)),
        decreases rows - r,
    {
        let ghost line = range@[r as int];
        let mut best: usize = 0;
        let mut c: usize = 0;
        while c < cols
            invariant
                c <= cols,
                r < range.rows(),
                cols == range.cols(),
                line == range@[r as int],
                line.len() == cols,
                best == widest_in(line.take(c as int)),
            decreases cols - c,
        {
            let w = rendered_width(range.cell(r, c));
            proof {
                assert(line.take(c + 1).drop_last() =~= line.take(c as int));
                assert(line.take(c + 1).last() == range.at(r as int, c as int));
            }
            if w > best {
                best = w;
            }
            c = c + 1;
        }
        proof {
            assert(line.take(cols as int) =~= line);
            assert(range@.take(r + 1).drop_last() =~= range@.take(r as int));
            assert(range@.take(r + 1).last() == line);
        }
        if best > width {
            width = best;
        }
        r = r + 1;
    }
    width
}

/// Builds the preview of a range: at most `PREVIEW_ROWS` lines of at most
/// `PREVIEW_COLS` cells, every cell padded to one width.
pub fn preview(range: &Range) -> (lines: Vec<String>)
    ensures
        texts(lines@) == preview_lines(*range),
{
    let width = measure(range);
    let cols = range.col_count();
    let shown_cols = if cols < PREVIEW_COLS {
        cols
    } else {
        PREVIEW_COLS
    };
    let shown_rows = if range.row_count() < PREVIEW_ROWS {
        range.row_count()
    } else {
        PREVIEW_ROWS
    };
    let mut lines: Vec<String> = Vec::new();
    let mut r: usize = 0;
    while r < shown_rows
        invariant
            r <= shown_rows <= range.rows(),
            shown_rows == least(PREVIEW_ROWS as int, range.rows() as int),
            shown_cols == least(PREVIEW_COLS as int, range.cols() as int),
            shown_cols <= range.cols(),
            range.well_formed(),
            width == preview_width(*range),
            lines@.len() == r,
            forall|i: int|
                0 <= i < r ==> (#[trigger] lines@[i])@ == preview_line(
                    i as nat,
                    range@[i],
                    width as nat,
                ),
        decreases shown_rows - r,
    {
        let ghost shown = range@[r as int].take(shown_cols as int);
        let mut line = render_index(r);
        line.append(": | ");
        let ghost head = line@;
        let mut c: usize = 0;
        while c < shown_cols
            invariant
                c <= shown_cols <= range.cols(),
                r < range.rows(),
                range@[r as int].len() == range.cols(),
                shown == range@[r as int].take(shown_cols as int),
                line@ == head + preview_cells(shown.take(c as int), width as nat),
            decreases shown_cols - c,
        {
            let text = render(range.cell(r, c));
            let cell = pad_right(text.as_str(), width);
            proof {
                assert(shown.take(c + 1).drop_last() =~= shown.take(c as int));
                assert(shown.take(c + 1).last() == range.at(r as int, c as int));
            }
            line.append(cell.as_str());
            line.append(" | ");
            proof {
                assert(line@ =~= head + preview_cells(shown.take(c + 1), width as nat));
            }
            c = c + 1;
        }
        proof {
            assert(shown.take(shown_cols as int) =~= shown);
        }
        lines.push(line);
        r = r + 1;
    }
    proof {
        assert(texts(lines@) =~= preview_lines(*range));
    }
    lines
}

/// Builds the sample line of every column: the renderings of the column's
/// cells in up to `SAMPLE_ROWS` rows from `header_row` on, joined by
/// `" ---- "`.
pub fn column_samples(range: &Range, header_row: usize) -> (lines: Vec<String>)
    ensures
        texts(lines@) == column_sample_lines(*range, header_row as int),
{
    let cols = range.col_count();
    let rows = range.row_count();
    let depth = if header_row >= rows {
        0
    } else if rows - header_row < SAMPLE_ROWS {
        rows - header_row
    } else {
        SAMPLE_ROWS
    };
    let mut lines: Vec<String> = Vec::new();
    let mut c: usize = 0;
    while c < cols
        invariant
            c <= cols,
            cols == range.cols(),
            rows == range.rows(),
            depth <= SAMPLE_ROWS,
            depth == 0 || header_row + depth <= rows,
            depth == sample_parts(*range, header_row as int, c as int).len(),
            lines@.len() == c,
            forall|j: int|
                0 <= j < c ==> (#[trigger] lines@[j])@ == column_sample(
                    *range,
                    header_row as int,
                    j,
                ),
        decreases cols - c,
    {
        let ghost wanted = sample_parts(*range, header_row as int, c as int);
        let mut parts: Vec<String> = Vec::new();
        let mut k: usize = 0;
        while k < depth
            invariant
                k <= depth,
                c < cols,
                cols == range.cols(),
                rows == range.rows(),
                depth == 0 || header_row + depth <= rows,
                wanted == sample_parts(*range, header_row as int, c as int),
                wanted.len() == depth,
                parts@.len() == k,
                forall|i: int| 0 <= i < k ==> (#[trigger] parts@[i])@ == wanted[i],
            decreases depth - k,
        {
            parts.push(render(range.cell(header_row + k, c)));
            k = k + 1;
        }
        proof {
            assert(texts(parts@) =~= wanted);
        }
        lines.push(join(&parts, " ---- "));
        c = c + 1;
    }
    proof {
        assert(texts(lines@) =~= column_sample_lines(*range, header_row as int));
    }
    lines
}

/// Numbers the items of a list from zero: each line is the index, a colon,
/// a space and the item.
pub fn numbered(items: &Vec<String>) -> (lines: Vec<String>)
    ensures
        texts(lines@) == numbered_lines(texts(items@)),
{
    let mut lines: Vec<String> = Vec::new();
    let mut i: usize = 0;
    while i < items.len()
        invariant
            i <= items.len(),
            lines@.len() == i,
            forall|j: int|
                0 <= j < i ==> (#[trigger] lines@[j])@ == numbered_line(j as nat, items@[j]@),
        decreases items.len() - i,
    {
        let mut line = render_index(i);
        line.append(": ");
        line.append(items[i].as_str());
        lines.push(line);
        i = i + 1;
    }
    proof {
        assert(texts(lines@) =~= numbered_lines(texts(items@)));
    }
    lines
}

} // verus!
