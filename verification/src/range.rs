//! A rectangular view of one sheet.

use vstd::prelude::*;
use crate::cell::CellValue;

verus! {

/// A rectangular grid of cells, addressed by zero-based row and column.
///
/// Every row has exactly `cols()` cells; the type keeps that true, so no
/// function that takes a range has to ask for it.
pub struct Range {
    width: usize,
    lines: Vec<Vec<CellValue>>,
}

impl View for Range {
    type V = Seq<Seq<CellValue>>;

    /// The cells, row by row.
    closed spec fn view(&self) -> Seq<Seq<CellValue>> {
        Seq::new(self.lines@.len(), |r: int| self.lines@[r]@)
    }
}

impl Range {
    /// The number of columns, which an empty range has too.
    pub closed spec fn cols(&self) -> nat {
        self.width as nat
    }

    /// The number of rows.
    pub open spec fn rows(&self) -> nat {
        self@.len()
    }

    /// The cell at `row` and `col`.
    pub open spec fn at(&self, row: int, col: int) -> CellValue
        recommends
            0 <= row < self.rows(),
            0 <= col < self.cols(),
    {
        self@[row][col]
    }

    /// Every row is `cols()` wide. This holds of every range that exists at
    /// run time.
    #[verifier::type_invariant]
    pub open spec fn well_formed(&self) -> bool {
        forall|r: int| 0 <= r < self.rows() ==> (#[trigger] self@[r]).len() == self.cols()
    }

    /// A range of `rows` by `cols` empty cells.
    pub fn new(rows: usize, cols: usize) -> (range: Range)
        ensures
            range.rows() == rows,
            range.cols() == cols,
            range.well_formed(),
            forall|r: int, c: int|
                0 <= r < rows && 0 <= c < cols ==> #[trigger] range.at(r, c) == CellValue::Empty,
    {
        let mut lines: Vec<Vec<CellValue>> = Vec::new();
        let mut r: usize = 0;
        while r < rows
            invariant
                r <= rows,
                lines@.len() == r,
                forall|i: int| 0 <= i < r ==> (#[trigger] lines@[i]).len() == cols,
                forall|i: int, c: int|
                    0 <= i < r && 0 <= c < cols ==> #[trigger] lines@[i]@[c] == CellValue::Empty,
            decreases rows - r,
        {
            let mut line: Vec<CellValue> = Vec::new();
            let mut c: usize = 0;
            while c < cols
                invariant
                    c <= cols,
                    line@.len() == c,
                    forall|j: int| 0 <= j < c ==> #[trigger] line@[j] == CellValue::Empty,
                decreases cols - c,
            {
                line.push(CellValue::Empty);
                c = c + 1;
            }
            lines.push(line);
            r = r + 1;
        }
        Range { width: cols, lines }
    }

    /// The number of rows.
    pub fn row_count(&self) -> (n: usize)
        ensures
            n == self.rows(),
    {
        self.lines.len()
    }

    /// The number of columns.
    pub fn col_count(&self) -> (n: usize)
        ensures
            n == self.cols(),
            self.well_formed(),
    {
        proof {
            use_type_invariant(self);
        }
        self.width
    }

    /// The cell at `row` and `col`.
    pub fn cell(&self, row: usize, col: usize) -> (cell: &CellValue)
        requires
            row < self.rows(),
            col < self.cols(),
        ensures
            *cell == self.at(row as int, col as int),
    {
        proof {
            use_type_invariant(self);
        }
        &self.lines[row][col]
    }

    /// The same range with `value` at `row` and `col`; every other cell is
    /// left alone.
    pub fn with_cell(self, row: usize, col: usize, value: CellValue) -> (range: Range)
        requires
            row < self.rows(),
            col < self.cols(),
        ensures
            range.rows() == self.rows(),
            range.cols() == self.cols(),
            range.well_formed(),
            range.at(row as int, col as int) == value,
            forall|r: int, c: int|
                0 <= r < self.rows() && 0 <= c < self.cols() && (r != row || c != col)
                    ==> #[trigger] range.at(r, c) == self.at(r, c),
    {
        proof {
            use_type_invariant(&self);
            assert forall|r: int| 0 <= r < self.lines@.len() implies (#[trigger] self.lines@[r]).len()
                == self.width by {
                assert(self@[r].len() == self.cols());
            }
        }
        let Range { width, lines } = self;
        let mut lines = lines;
        let mut line: Vec<CellValue> = Vec::new();
        std::mem::swap(&mut line, &mut lines[row]);
        line.set(col, value);
        lines.set(row, line);
        let range = Range { width, lines };
        proof {
            assert forall|r: int| 0 <= r < range.rows() implies (#[trigger] range@[r]).len()
                == range.cols() by {
                assert(range.lines@[r].len() == width);
            }
        }
        range
    }

    /// The range whose rows are `lines`, each `cols` wide; `None` when some
    /// row has another width.
    pub fn from_rows(cols: usize, lines: Vec<Vec<CellValue>>) -> (made: Option<Range>)
        ensures
            made is Some <==> forall|r: int|
                0 <= r < lines@.len() ==> (#[trigger] lines@[r]).len() == cols,
            made matches Some(range) ==> {
                &&& range.cols() == cols
                &&& range.well_formed()
                &&& range@ == Seq::new(lines@.len(), |r: int| lines@[r]@)
            },
    {
        let mut r: usize = 0;
        while r < lines.len()
            invariant
                r <= lines@.len(),
                forall|i: int| 0 <= i < r ==> (#[trigger] lines@[i]).len() == cols,
            decreases lines@.len() - r,
        {
            if lines[r].len() != cols {
                return None;
            }
            r = r + 1;
        }
        Some(Range { width: cols, lines })
    }
}

} // verus!
