//! The output assembler: the columns of the new worksheet, in order.
//!
//! The named fields come first, in their fixed order and each under its
//! canonical label, a skipped one as a blank column. The raw columns from the
//! split on follow, each under the header that it had.

use vstd::prelude::*;
use crate::cell::rendered;
use crate::extract::{extract, extracted, extracted_len};
use crate::mapping::{FieldName, Offset, ResolvedMapping, FIELD_COUNT};
use crate::range::Range;
use crate::text::texts;

verus! {

/// The one worksheet of an output workbook, as columns of text.
///
/// Every value is text: the types that the cells had in the source are not
/// carried over.
#[derive(Debug, PartialEq, Eq)]
pub struct OutputWorkbook {
    /// The columns from left to right, each from its header down.
    pub columns: Vec<Vec<String>>,
}

impl View for OutputWorkbook {
    type V = Seq<Seq<Seq<char>>>;

    /// The texts of the columns, from left to right and from the header
    /// down.
    open spec fn view(&self) -> Seq<Seq<Seq<char>>> {
        Seq::new(self.columns@.len(), |c: int| texts(self.columns@[c]@))
    }
}

/// The name of the output's worksheet.
pub open spec fn sheet_title() -> Seq<char> {
    "Data"@
}

/// A column under another header: its first entry is replaced by `label`.
pub open spec fn relabelled(column: Seq<Seq<char>>, label: Seq<char>) -> Seq<Seq<char>> {
    if column.len() > 0 {
        column.update(0, label)
    } else {
        column
    }
}

/// The output column of a named field.
pub open spec fn field_column(range: Range, mapping: ResolvedMapping, field: FieldName) -> Seq<
    Seq<char>,
> {
    relabelled(
        extracted(range, mapping.header_row as int, mapping.fields.of(field)),
        field.label(),
    )
}

/// How many raw columns are passed through: those from the split to the
/// last, and none when the split is at or past the end.
pub open spec fn passed_count(range: Range, mapping: ResolvedMapping) -> nat {
    if mapping.split < range.cols() {
        (range.cols() - mapping.split) as nat
    } else {
        0
    }
}

/// The `k`-th passed-through column.
pub open spec fn passed_column(range: Range, mapping: ResolvedMapping, k: int) -> Seq<Seq<char>> {
    extracted(range, mapping.header_row as int, Offset::Column((mapping.split + k) as usize))
}

/// The columns of the output: the named fields in their fixed order, then
/// the passed-through columns in the order of the source.
pub open spec fn assembled(range: Range, mapping: ResolvedMapping) -> Seq<Seq<Seq<char>>> {
    Seq::new(
        FIELD_COUNT as nat + passed_count(range, mapping),
        |k: int|
            if k < FIELD_COUNT {
                field_column(range, mapping, FieldName::nth(k))
            } else {
                passed_column(range, mapping, k - FIELD_COUNT)
            },
    )
}

/// Puts `label` in place of a column's header.
fn relabel(column: &mut Vec<String>, label: &str)
    ensures
        texts(final(column)@) == relabelled(texts(old(column)@), label@),
{
    if column.len() > 0 {
        column.set(0, String::from_str(label));
    }
    proof {
        assert(texts(column@) =~= relabelled(texts(old(column)@), label@));
    }
}

impl OutputWorkbook {
    /// The name of the worksheet.
    pub fn title() -> (name: &'static str)
        ensures
            name@ == sheet_title(),
    {
        "Data"
    }

    /// The number of columns.
    pub fn column_count(&self) -> (n: usize)
        ensures
            n == self@.len(),
    {
        self.columns.len()
    }
}

/// Assembles the output from a range and the mapping resolved for it.
pub fn assemble(range: &Range, mapping: &ResolvedMapping) -> (output: OutputWorkbook)
    requires
        mapping.fits(range.rows(), range.cols()),
    ensures
        output@ == assembled(*range, *mapping),
{
    let cols = range.col_count();
    let mut columns: Vec<Vec<String>> = Vec::new();
    let mut k: usize = 0;
    while k < FIELD_COUNT
        invariant
            k <= FIELD_COUNT,
            mapping.fields.within(range.cols()),
            columns@.len() == k,
            forall|j: int|
                0 <= j < k ==> texts((#[trigger] columns@[j])@) == field_column(
                    *range,
                    *mapping,
                    FieldName::nth(j),
                ),
        decreases FIELD_COUNT - k,
    {
        let field = FieldName::from_index(k);
        proof {
            assert(mapping.fields.of(field).within(range.cols()));
        }
        let mut column = extract(range, mapping.header_row, mapping.fields.get(field));
        relabel(&mut column, field.name());
        columns.push(column);
        k = k + 1;
    }
    let mut c: usize = mapping.split;
    while c < cols
        invariant
            cols == range.cols(),
            mapping.split <= c,
            c <= cols || c == mapping.split,
            columns@.len() == FIELD_COUNT + (c - mapping.split),
            forall|j: int|
                0 <= j < FIELD_COUNT ==> texts((#[trigger] columns@[j])@) == field_column(
                    *range,
                    *mapping,
                    FieldName::nth(j),
                ),
            forall|j: int|
                FIELD_COUNT <= j < columns@.len() ==> texts((#[trigger] columns@[j])@)
                    == passed_column(*range, *mapping, j - FIELD_COUNT),
        decreases cols - c,
    {
        let column = extract(range, mapping.header_row, Offset::Column(c));
        columns.push(column);
        c = c + 1;
    }
    let output = OutputWorkbook { columns };
    proof {
        assert(output@ =~= assembled(*range, *mapping));
    }
    output
}

/// The output depends on nothing but the cells, the width of the range and
/// the mapping: two ranges that hold the same cells give the same output.
pub proof fn lemma_assembled_is_determined(first: Range, second: Range, mapping: ResolvedMapping)
    requires
        first@ == second@,
        first.cols() == second.cols(),
    ensures
        assembled(first, mapping) == assembled(second, mapping),
{
    let h = mapping.header_row as int;
    assert forall|offset: Offset| extracted(first, h, offset) == extracted(second, h, offset) by {
        assert(extracted(first, h, offset) =~= extracted(second, h, offset));
    }
    assert(assembled(first, mapping) =~= assembled(second, mapping));
}

/// The shape of the output: every column has one entry for each row from the
/// header row to the last, and each named column has its label on top, a
/// skipped one too.
pub proof fn lemma_assembled_shape(range: Range, mapping: ResolvedMapping)
    requires
        mapping.fits(range.rows(), range.cols()),
    ensures
        assembled(range, mapping).len() == FIELD_COUNT + passed_count(range, mapping),
        forall|k: int|
            0 <= k < assembled(range, mapping).len() ==> (#[trigger] assembled(
                range,
                mapping,
            )[k]).len() == range.rows() - mapping.header_row,
        forall|field: FieldName| #[trigger]
            assembled(range, mapping)[field.ordinal() as int][0] == field.label(),
{
    assert forall|field: FieldName| #[trigger]
        assembled(range, mapping)[field.ordinal() as int][0] == field.label() by {
        assert(FieldName::nth(field.ordinal() as int) == field);
    }
}

/// A skipped field gives a column that is blank below its label.
pub proof fn lemma_skipped_field_is_blank(
    range: Range,
    mapping: ResolvedMapping,
    field: FieldName,
    row: int,
)
    requires
        mapping.fits(range.rows(), range.cols()),
        mapping.fields.of(field) == Offset::Skip,
        1 <= row < range.rows() - mapping.header_row,
    ensures
        assembled(range, mapping)[field.ordinal() as int][row].len() == 0,
{
    assert(FieldName::nth(field.ordinal() as int) == field);
}

/// Nothing is lost on the way: with no field skipped and the split at the
/// end of the sheet, the output is the named columns alone, and each equals
/// the source column that the mapping selects, row for row, but for the
/// header, which is the field's label.
pub proof fn lemma_round_trip(range: Range, mapping: ResolvedMapping, field: FieldName, row: int)
    requires
        mapping.fits(range.rows(), range.cols()),
        mapping.fields.all_present(),
        mapping.split == range.cols(),
        0 <= row < range.rows() - mapping.header_row,
    ensures
        assembled(range, mapping).len() == FIELD_COUNT,
        assembled(range, mapping)[field.ordinal() as int].len() == range.rows()
            - mapping.header_row,
        mapping.fields.of(field) matches Offset::Column(c) && assembled(
            range,
            mapping,
        )[field.ordinal() as int][row] == if row == 0 {
            field.label()
        } else {
            rendered(range.at(mapping.header_row + row, c as int))
        },
{
    assert(FieldName::nth(field.ordinal() as int) == field);
    assert(mapping.fields.of(field) is Column);
}

/// The two boundaries: a header in the last row gives columns of the header
/// alone, and a split at the end of the sheet passes no column through.
pub proof fn lemma_boundaries(range: Range, mapping: ResolvedMapping)
    requires
        mapping.fits(range.rows(), range.cols()),
    ensures
        mapping.header_row == range.rows() - 1 ==> forall|k: int|
            0 <= k < assembled(range, mapping).len() ==> (#[trigger] assembled(
                range,
                mapping,
            )[k]).len() == 1,
        mapping.split >= range.cols() ==> assembled(range, mapping).len() == FIELD_COUNT,
{
    lemma_assembled_shape(range, mapping);
}

/// A raw column at or past the split comes out unchanged, header included,
/// behind the named columns.
pub proof fn lemma_passed_through(range: Range, mapping: ResolvedMapping, col: usize, row: int)
    requires
        mapping.fits(range.rows(), range.cols()),
        mapping.split <= col < range.cols(),
        0 <= row < range.rows() - mapping.header_row,
    ensures
        assembled(range, mapping)[FIELD_COUNT + (col - mapping.split)][row] == rendered(
            range.at(mapping.header_row + row, col as int),
        ),
{
}

} // verus!
