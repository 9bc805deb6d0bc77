//! The operator's choices for one sheet: which raw column each canonical
//! field comes from, where the header row is, and where the pass-through
//! columns begin.

use vstd::prelude::*;
use crate::text::{decimal_text, render_index};

verus! {

/// The canonical output fields, in the order in which they are asked for and
/// written.
#[derive(Clone, Copy, Debug, PartialEq, Eq, Structural)]
pub enum FieldName {
    Vendor,
    Description,
    Mapping,
    Label,
}

/// How many canonical fields there are.
pub const FIELD_COUNT: usize = 4;

impl FieldName {
    /// The position of the field in the fixed order.
    pub open spec fn ordinal(self) -> nat {
        match self {
            FieldName::Vendor => 0,
            FieldName::Description => 1,
            FieldName::Mapping => 2,
            FieldName::Label => 3,
        }
    }

    /// The field at position `k` of the fixed order.
    pub open spec fn nth(k: int) -> FieldName
        recommends
            0 <= k < FIELD_COUNT,
    {
        if k == 0 {
            FieldName::Vendor
        } else if k == 1 {
            FieldName::Description
        } else if k == 2 {
            FieldName::Mapping
        } else {
            FieldName::Label
        }
    }

    /// The header text that the field's output column gets.
    pub open spec fn label(self) -> Seq<char> {
        match self {
            FieldName::Vendor => "vendor"@,
            FieldName::Description => "description"@,
            FieldName::Mapping => "mapping"@,
            FieldName::Label => "label"@,
        }
    }

    /// The field after this one, if it is not the last.
    pub open spec fn successor(self) -> Option<FieldName> {
        match self {
            FieldName::Vendor => Some(FieldName::Description),
            FieldName::Description => Some(FieldName::Mapping),
            FieldName::Mapping => Some(FieldName::Label),
            FieldName::Label => None,
        }
    }

    /// The position of the field in the fixed order.
    pub fn index(self) -> (k: usize)
        ensures
            k == self.ordinal(),
            k < FIELD_COUNT,
            FieldName::nth(k as int) == self,
    {
        match self {
            FieldName::Vendor => 0,
            FieldName::Description => 1,
            FieldName::Mapping => 2,
            FieldName::Label => 3,
        }
    }

    /// The field at position `k` of the fixed order.
    pub fn from_index(k: usize) -> (field: FieldName)
        requires
            k < FIELD_COUNT,
        ensures
            field == FieldName::nth(k as int),
            field.ordinal() == k,
    {
        if k == 0 {
            FieldName::Vendor
        } else if k == 1 {
            FieldName::Description
        } else if k == 2 {
            FieldName::Mapping
        } else {
            FieldName::Label
        }
    }

    /// The header text that the field's output column gets.
    pub fn name(self) -> (text: &'static str)
        ensures
            text@ == self.label(),
    {
        match self {
            FieldName::Vendor => "vendor",
            FieldName::Description => "description",
            FieldName::Mapping => "mapping",
            FieldName::Label => "label",
        }
    }

    /// The field after this one, if it is not the last.
    pub fn next(self) -> (after: Option<FieldName>)
        ensures
            after == self.successor(),
            after matches Some(f) ==> f.ordinal() == self.ordinal() + 1,
            after is None <==> self.ordinal() + 1 == FIELD_COUNT,
    {
        match self {
            FieldName::Vendor => Some(FieldName::Description),
            FieldName::Description => Some(FieldName::Mapping),
            FieldName::Mapping => Some(FieldName::Label),
            FieldName::Label => None,
        }
    }
}

/// Where a field comes from: a raw column, or nowhere.
#[derive(Clone, Copy, Debug, PartialEq, Eq, Structural)]
pub enum Offset {
    /// The zero-based index of a raw column.
    Column(usize),
    /// The field is absent from this sheet; its output column is blank.
    Skip,
}

impl Offset {
    /// Whether the offset can be used on a sheet of `cols` columns: a
    /// column index has to exist, `Skip` always can.
    pub open spec fn within(self, cols: nat) -> bool {
        match self {
            Offset::Column(c) => c < cols,
            Offset::Skip => true,
        }
    }

    /// How the offset is written down: the column's numeral, or the token
    /// `Skip`.
    pub open spec fn text(self) -> Seq<char> {
        match self {
            Offset::Column(c) => decimal_text(c as nat),
            Offset::Skip => "Skip"@,
        }
    }

    /// Writes the offset down: the column's numeral, or the token `Skip`.
    pub fn to_text(self) -> (out: String)
        ensures
            out@ == self.text(),
    {
        match self {
            Offset::Column(c) => render_index(c),
            Offset::Skip => String::from_str("Skip"),
        }
    }
}

/// One offset for each canonical field.
#[derive(Clone, Copy, Debug, PartialEq, Eq, Structural)]
pub struct FieldOffsets {
    pub vendor: Offset,
    pub description: Offset,
    pub mapping: Offset,
    pub label: Offset,
}

impl FieldOffsets {
    /// The offset chosen for `field`.
    pub open spec fn of(self, field: FieldName) -> Offset {
        match field {
            FieldName::Vendor => self.vendor,
            FieldName::Description => self.description,
            FieldName::Mapping => self.mapping,
            FieldName::Label => self.label,
        }
    }

    /// These offsets with `offset` for `field` and the others unchanged.
    pub open spec fn updated(self, field: FieldName, offset: Offset) -> FieldOffsets {
        match field {
            FieldName::Vendor => FieldOffsets { vendor: offset, ..self },
            FieldName::Description => FieldOffsets { description: offset, ..self },
            FieldName::Mapping => FieldOffsets { mapping: offset, ..self },
            FieldName::Label => FieldOffsets { label: offset, ..self },
        }
    }

    /// Every field is skipped.
    pub open spec fn all_skipped() -> FieldOffsets {
        FieldOffsets {
            vendor: Offset::Skip,
            description: Offset::Skip,
            mapping: Offset::Skip,
            label: Offset::Skip,
        }
    }

    /// Every offset can be used on a sheet of `cols` columns.
    pub open spec fn within(self, cols: nat) -> bool {
        forall|field: FieldName| #[trigger] self.of(field).within(cols)
    }

    /// No field is skipped.
    pub open spec fn all_present(self) -> bool {
        forall|field: FieldName| #[trigger] self.of(field) is Column
    }

    /// Offsets that skip every field.
    pub fn skipped() -> (offsets: FieldOffsets)
        ensures
            offsets == FieldOffsets::all_skipped(),
    {
        FieldOffsets {
            vendor: Offset::Skip,
            description: Offset::Skip,
            mapping: Offset::Skip,
            label: Offset::Skip,
        }
    }

    /// The offset chosen for `field`.
    pub fn get(&self, field: FieldName) -> (offset: Offset)
        ensures
            offset == self.of(field),
    {
        match field {
            FieldName::Vendor => self.vendor,
            FieldName::Description => self.description,
            FieldName::Mapping => self.mapping,
            FieldName::Label => self.label,
        }
    }

    /// These offsets with `offset` for `field` and the others unchanged.
    pub fn with(self, field: FieldName, offset: Offset) -> (offsets: FieldOffsets)
        ensures
            offsets == self.updated(field, offset),
            offsets.of(field) == offset,
            forall|other: FieldName| other != field ==> offsets.of(other) == self.of(other),
    {
        match field {
            FieldName::Vendor => FieldOffsets { vendor: offset, ..self },
            FieldName::Description => FieldOffsets { description: offset, ..self },
            FieldName::Mapping => FieldOffsets { mapping: offset, ..self },
            FieldName::Label => FieldOffsets { label: offset, ..self },
        }
    }
}

/// What the operator resolved for one sheet.
#[derive(Clone, Copy, Debug, PartialEq, Eq, Structural)]
pub struct ResolvedMapping {
    /// The row whose cells become the output's headers.
    pub header_row: usize,
    /// Where each canonical field comes from.
    pub fields: FieldOffsets,
    /// The first raw column that is passed through unchanged.
    pub split: usize,
}

impl ResolvedMapping {
    /// Whether the mapping can be extracted from a sheet of `rows` by `cols`
    /// cells: the header row exists and so does every column that a field
    /// names. Nothing is asked of `split`: a split at or past the last column
    /// passes nothing through.
    pub open spec fn fits(self, rows: nat, cols: nat) -> bool {
        &&& self.header_row < rows
        &&& self.fields.within(cols)
    }

    /// Whether the mapping is one that an operator can have resolved on a
    /// sheet of `rows` by `cols` cells: it fits, and the split names a
    /// column of the sheet.
    pub open spec fn resolved_on(self, rows: nat, cols: nat) -> bool {
        &&& self.fits(rows, cols)
        &&& self.split < cols
    }

    /// Tests whether the mapping can be extracted from a sheet of `rows` by
    /// `cols` cells.
    pub fn check_fits(&self, rows: usize, cols: usize) -> (ok: bool)
        ensures
            ok == self.fits(rows as nat, cols as nat),
    {
        let mut ok = self.header_row < rows;
        let mut k: usize = 0;
        while k < FIELD_COUNT
            invariant
                k <= FIELD_COUNT,
                ok == (self.header_row < rows && forall|j: int|
                    0 <= j < k ==> (#[trigger] self.fields.of(FieldName::nth(j))).within(
                        cols as nat,
                    )),
            decreases FIELD_COUNT - k,
        {
            let field = FieldName::from_index(k);
            match self.fields.get(field) {
                Offset::Column(c) => {
                    if c >= cols {
                        ok = false;
                    }
                },
                Offset::Skip => {},
            }
            k = k + 1;
        }
        proof {
            if ok {
                assert forall|field: FieldName| #[trigger]
                    self.fields.of(field).within(cols as nat) by {
                    assert(FieldName::nth(field.ordinal() as int) == field);
                    assert(self.fields.of(FieldName::nth(field.ordinal() as int)).within(
                        cols as nat,
                    ));
                }
            } else if self.header_row < rows {
                let j = choose|j: int|
                    0 <= j < FIELD_COUNT && !(#[trigger] self.fields.of(FieldName::nth(j))).within(
                        cols as nat,
                    );
                assert(!self.fields.of(FieldName::nth(j)).within(cols as nat));
            }
        }
        ok
    }
}

} // verus!
