//! The offset resolver: the questions that are put to the operator for one
//! workbook, and what each answer leads to.
//!
//! The resolver decides and never reads or prints. A caller shows what the
//! pending request asks for, reads a line, hands it to [`ResolverState::enter`]
//! and goes on from the reply. A state is left only on an entry that is
//! valid for it; any other entry leaves it exactly as it was, however often
//! that happens. Nothing here waits or counts attempts: a caller that wants
//! to give up after some number of them stops asking.

use vstd::prelude::*;
use crate::entry::{entry_of, parse_entry, Entry};
use crate::mapping::{FieldName, FieldOffsets, Offset, ResolvedMapping, FIELD_COUNT};

verus! {

/// Where the resolver stands.
#[derive(Clone, Copy, Debug, PartialEq, Eq, Structural)]
pub enum ResolverState {
    /// Waiting for the index of one of `sheet_count` sheets.
    ChooseSheet { sheet_count: usize },
    /// A sheet was chosen; waiting for its dimensions.
    OpenSheet { sheet: usize },
    /// Waiting for the index of the header row.
    ChooseHeaderRow { rows: usize, cols: usize },
    /// Waiting for the column of `field`, or the skip token. `chosen` holds
    /// the fields before it; `field` and those after it are still skipped.
    ChooseField { rows: usize, cols: usize, header_row: usize, field: FieldName, chosen: FieldOffsets },
    /// Waiting for the first pass-through column.
    ChooseSplit { rows: usize, cols: usize, header_row: usize, fields: FieldOffsets },
    /// Everything is resolved.
    Done { rows: usize, cols: usize, mapping: ResolvedMapping },
}

/// What the caller has to do next.
#[derive(Clone, Copy, Debug, PartialEq, Eq, Structural)]
pub enum Request {
    /// List the sheets, numbered from zero, and ask for one.
    AskSheet,
    /// Read the chosen sheet and report its dimensions.
    LoadSheet(usize),
    /// Show the sheet's preview and ask for the header row.
    AskHeaderRow,
    /// Show the column samples and ask for the column of a field.
    AskField(FieldName),
    /// Show the column samples and ask for the first pass-through column.
    AskSplit,
    /// Nothing more to ask: this is the mapping.
    Finish(ResolvedMapping),
}

/// What became of one event.
#[derive(Clone, Copy, Debug, PartialEq, Eq, Structural)]
pub struct Reply {
    /// The state after the event.
    pub state: ResolverState,
    /// Whether the event moved the resolver on. When it did not, the caller
    /// says that the input was invalid and puts the same request again.
    pub accepted: bool,
    /// What the state after the event asks for.
    pub request: Request,
}

impl ResolverState {
    /// How far along the fixed order of questions the state is.
    pub open spec fn progress(self) -> nat {
        match self {
            ResolverState::ChooseSheet { .. } => 0,
            ResolverState::OpenSheet { .. } => 1,
            ResolverState::ChooseHeaderRow { .. } => 2,
            ResolverState::ChooseField { field, .. } => 3 + field.ordinal(),
            ResolverState::ChooseSplit { .. } => 3 + FIELD_COUNT as nat,
            ResolverState::Done { .. } => 4 + FIELD_COUNT as nat,
        }
    }

    /// What holds of every state that the resolver reaches: whatever has
    /// been chosen so far exists in the sheet.
    pub open spec fn valid(self) -> bool {
        match self {
            ResolverState::ChooseSheet { .. } => true,
            ResolverState::OpenSheet { .. } => true,
            ResolverState::ChooseHeaderRow { .. } => true,
            ResolverState::ChooseField { rows, cols, header_row, field, chosen } => {
                &&& header_row < rows
                &&& chosen.within(cols as nat)
                &&& forall|later: FieldName|
                    later.ordinal() >= field.ordinal() ==> #[trigger] chosen.of(later)
                        == Offset::Skip
            },
            ResolverState::ChooseSplit { rows, cols, header_row, fields } => {
                &&& header_row < rows
                &&& fields.within(cols as nat)
            },
            ResolverState::Done { rows, cols, mapping } => mapping.resolved_on(
                rows as nat,
                cols as nat,
            ),
        }
    }

    /// The state that follows once `offset` is settled for `field`.
    pub open spec fn after_field(
        rows: usize,
        cols: usize,
        header_row: usize,
        field: FieldName,
        chosen: FieldOffsets,
        offset: Offset,
    ) -> ResolverState {
        let settled = chosen.updated(field, offset);
        match field.successor() {
            Some(next) => ResolverState::ChooseField {
                rows,
                cols,
                header_row,
                field: next,
                chosen: settled,
            },
            None => ResolverState::ChooseSplit { rows, cols, header_row, fields: settled },
        }
    }

    /// The state after the operator's entry.
    pub open spec fn after_entry(self, entry: Entry) -> ResolverState {
        match self {
            ResolverState::ChooseSheet { sheet_count } => match entry {
                Entry::Index(i) if i < sheet_count => ResolverState::OpenSheet { sheet: i },
                _ => self,
            },
            ResolverState::ChooseHeaderRow { rows, cols } => match entry {
                Entry::Index(r) if r < rows => ResolverState::ChooseField {
                    rows,
                    cols,
                    header_row: r,
                    field: FieldName::Vendor,
                    chosen: FieldOffsets::all_skipped(),
                },
                _ => self,
            },
            ResolverState::ChooseField { rows, cols, header_row, field, chosen } => match entry {
                Entry::Index(c) if c < cols => Self::after_field(
                    rows,
                    cols,
                    header_row,
                    field,
                    chosen,
                    Offset::Column(c),
                ),
                Entry::Skip => Self::after_field(
                    rows,
                    cols,
                    header_row,
                    field,
                    chosen,
                    Offset::Skip,
                ),
                _ => self,
            },
            ResolverState::ChooseSplit { rows, cols, header_row, fields } => match entry {
                Entry::Index(c) if c < cols => ResolverState::Done {
                    rows,
                    cols,
                    mapping: ResolvedMapping { header_row, fields, split: c },
                },
                _ => self,
            },
            ResolverState::OpenSheet { .. } => self,
            ResolverState::Done { .. } => self,
        }
    }

    /// The state after the chosen sheet was read and found to be `rows` by
    /// `cols` cells. Only a state that waits for a sheet takes note.
    pub open spec fn after_open(self, rows: usize, cols: usize) -> ResolverState {
        match self {
            ResolverState::OpenSheet { .. } => ResolverState::ChooseHeaderRow { rows, cols },
            _ => self,
        }
    }

    /// What the state asks of the caller.
    pub open spec fn request(self) -> Request {
        match self {
            ResolverState::ChooseSheet { .. } => Request::AskSheet,
            ResolverState::OpenSheet { sheet } => Request::LoadSheet(sheet),
            ResolverState::ChooseHeaderRow { .. } => Request::AskHeaderRow,
            ResolverState::ChooseField { field, .. } => Request::AskField(field),
            ResolverState::ChooseSplit { .. } => Request::AskSplit,
            ResolverState::Done { mapping, .. } => Request::Finish(mapping),
        }
    }

    /// The state in which resolving a workbook of `sheet_count` sheets
    /// begins.
    pub fn start(sheet_count: usize) -> (state: ResolverState)
        ensures
            state == (ResolverState::ChooseSheet { sheet_count }),
            state.valid(),
    {
        ResolverState::ChooseSheet { sheet_count }
    }

    /// What the state asks of the caller.
    pub fn pending(self) -> (request: Request)
        ensures
            request == self.request(),
    {
        match self {
            ResolverState::ChooseSheet { .. } => Request::AskSheet,
            ResolverState::OpenSheet { sheet } => Request::LoadSheet(sheet),
            ResolverState::ChooseHeaderRow { .. } => Request::AskHeaderRow,
            ResolverState::ChooseField { field, .. } => Request::AskField(field),
            ResolverState::ChooseSplit { .. } => Request::AskSplit,
            ResolverState::Done { mapping, .. } => Request::Finish(mapping),
        }
    }

    fn settle_field(
        rows: usize,
        cols: usize,
        header_row: usize,
        field: FieldName,
        chosen: FieldOffsets,
        offset: Offset,
    ) -> (next: ResolverState)
        ensures
            next == Self::after_field(rows, cols, header_row, field, chosen, offset),
    {
        let settled = chosen.with(field, offset);
        match field.next() {
            Some(following) => ResolverState::ChooseField {
                rows,
                cols,
                header_row,
                field: following,
                chosen: settled,
            },
            None => ResolverState::ChooseSplit { rows, cols, header_row, fields: settled },
        }
    }

    /// Takes an entry that was read already.
    ///
    /// An index is valid where it is below the number of sheets, of rows or
    /// of columns that the state asks about; the skip token is valid for a
    /// field and for nothing else. A valid entry moves the resolver on by
    /// one question; any other leaves the state as it was.
    pub fn submit(self, entry: Entry) -> (reply: Reply)
        ensures
            reply.state == self.after_entry(entry),
            reply.accepted == (reply.state != self),
            reply.request == reply.state.request(),
            self.valid() ==> reply.state.valid(),
            reply.accepted ==> reply.state.progress() == self.progress() + 1,
    {
        let next = match self {
            ResolverState::ChooseSheet { sheet_count } => match entry {
                Entry::Index(i) => {
                    if i < sheet_count {
                        ResolverState::OpenSheet { sheet: i }
                    } else {
                        self
                    }
                },
                _ => self,
            },
            ResolverState::ChooseHeaderRow { rows, cols } => match entry {
                Entry::Index(r) => {
                    if r < rows {
                        ResolverState::ChooseField {
                            rows,
                            cols,
                            header_row: r,
                            field: FieldName::Vendor,
                            chosen: FieldOffsets::skipped(),
                        }
                    } else {
                        self
                    }
                },
                _ => self,
            },
            ResolverState::ChooseField { rows, cols, header_row, field, chosen } => match entry {
                Entry::Index(c) => {
                    if c < cols {
                        Self::settle_field(rows, cols, header_row, field, chosen, Offset::Column(c))
                    } else {
                        self
                    }
                },
                Entry::Skip => Self::settle_field(
                    rows,
                    cols,
                    header_row,
                    field,
                    chosen,
                    Offset::Skip,
                ),
                Entry::Invalid => self,
            },
            ResolverState::ChooseSplit { rows, cols, header_row, fields } => match entry {
                Entry::Index(c) => {
                    if c < cols {
                        ResolverState::Done {
                            rows,
                            cols,
                            mapping: ResolvedMapping { header_row, fields, split: c },
                        }
                    } else {
                        self
                    }
                },
                _ => self,
            },
            ResolverState::OpenSheet { .. } => self,
            ResolverState::Done { .. } => self,
        };
        proof {
            if self.valid() {
                lemma_entry_keeps_valid(self, entry);
            }
            lemma_entry_moves_one_step(self, entry);
        }
        Reply { state: next, accepted: next != self, request: next.pending() }
    }

    /// Takes the line that the operator typed.
    pub fn enter(self, line: &str) -> (reply: Reply)
        ensures
            reply.state == self.after_entry(entry_of(line@)),
            reply.accepted == (reply.state != self),
            reply.request == reply.state.request(),
            self.valid() ==> reply.state.valid(),
            reply.accepted ==> reply.state.progress() == self.progress() + 1,
    {
        self.submit(parse_entry(line))
    }

    /// Takes the dimensions of the sheet that the resolver asked for.
    pub fn sheet_opened(self, rows: usize, cols: usize) -> (reply: Reply)
        ensures
            reply.state == self.after_open(rows, cols),
            reply.accepted == (self is OpenSheet),
            reply.request == reply.state.request(),
            self.valid() ==> reply.state.valid(),
            reply.accepted ==> reply.state.progress() == self.progress() + 1,
    {
        match self {
            ResolverState::OpenSheet { .. } => {
                let next = ResolverState::ChooseHeaderRow { rows, cols };
                Reply { state: next, accepted: true, request: Request::AskHeaderRow }
            },
            _ => Reply { state: self, accepted: false, request: self.pending() },
        }
    }
}

/// An entry that is no index and not the skip token changes nothing, in
/// whatever state it arrives.
pub proof fn lemma_invalid_entry_changes_nothing(state: ResolverState)
    ensures
        state.after_entry(Entry::Invalid) == state,
{
}

/// The skip token is taken for a field and nowhere else: in particular the
/// split is never skipped.
pub proof fn lemma_skip_only_for_fields(state: ResolverState)
    ensures
        state.after_entry(Entry::Skip) != state <==> state is ChooseField,
{
    if let ResolverState::ChooseField { rows, cols, header_row, field, chosen } = state {
        lemma_entry_moves_one_step(state, Entry::Skip);
    }
}

/// An entry either leaves the state as it was or moves it on by exactly one
/// question: no question is skipped and none is put again once answered.
pub proof fn lemma_entry_moves_one_step(state: ResolverState, entry: Entry)
    ensures
        state.after_entry(entry) == state || state.after_entry(entry).progress()
            == state.progress() + 1,
{
}

/// Whatever has been chosen exists in the sheet, and an entry keeps it so.
pub proof fn lemma_entry_keeps_valid(state: ResolverState, entry: Entry)
    requires
        state.valid(),
    ensures
        state.after_entry(entry).valid(),
{
    let next = state.after_entry(entry);
    match state {
        ResolverState::ChooseHeaderRow { rows, cols } => {
            if next != state {
                let chosen = FieldOffsets::all_skipped();
                assert forall|f: FieldName| #[trigger] chosen.of(f).within(cols as nat) by {}
            }
        },
        ResolverState::ChooseField { rows, cols, header_row, field, chosen } => {
            if next != state {
                let offset = match entry {
                    Entry::Index(c) => Offset::Column(c),
                    _ => Offset::Skip,
                };
                let settled = chosen.updated(field, offset);
                assert(next == ResolverState::after_field(
                    rows,
                    cols,
                    header_row,
                    field,
                    chosen,
                    offset,
                ));
                assert forall|f: FieldName| #[trigger] settled.of(f).within(cols as nat) by {
                    if f != field {
                        assert(settled.of(f) == chosen.of(f));
                        assert(chosen.of(f).within(cols as nat));
                    }
                }
                if let Some(following) = field.successor() {
                    assert forall|later: FieldName|
                        later.ordinal() >= following.ordinal() implies #[trigger] settled.of(later)
                        == Offset::Skip by {
                        assert(later != field);
                        assert(settled.of(later) == chosen.of(later));
                    }
                }
            }
        },
        _ => {},
    }
}

/// Opening a sheet keeps every state valid.
pub proof fn lemma_open_keeps_valid(state: ResolverState, rows: usize, cols: usize)
    requires
        state.valid(),
    ensures
        state.after_open(rows, cols).valid(),
{
}

/// When the resolver is done, the mapping is one that the sheet admits: the
/// header row exists, every field's column exists, and so does the split.
pub proof fn lemma_done_is_resolved(state: ResolverState)
    requires
        state.valid(),
    ensures
        state matches ResolverState::Done { rows, cols, mapping } ==> {
            &&& mapping.header_row < rows
            &&& forall|field: FieldName|
                (#[trigger] mapping.fields.of(field) matches Offset::Column(c) ==> c < cols)
            &&& mapping.split < cols
        },
{
    if let ResolverState::Done { rows, cols, mapping } = state {
        assert forall|field: FieldName|
            (#[trigger] mapping.fields.of(field) matches Offset::Column(c) ==> c < cols) by {
            assert(mapping.fields.of(field).within(cols as nat));
        }
    }
}

} // verus!
