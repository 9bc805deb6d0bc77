//! The reproducibility ledger: one line of structured text for each file
//! that was saved, saying which offsets were chosen for it.
//!
//! A line is a flat JSON object of texts whose members stand in a fixed
//! order: the file's name, the header row, each field in the fixed order of
//! the fields and, in the longer variant, the split. The ledger only grows:
//! nothing here looks an entry up, replaces one or removes one.

use vstd::prelude::*;
use crate::mapping::{FieldName, FieldOffsets, Offset, ResolvedMapping, FIELD_COUNT};
use crate::text::{decimal_text, join, joined, render_index, texts};

verus! {

/// Which of the two forms of a line is written.
#[derive(Clone, Copy, Debug, PartialEq, Eq, Structural)]
pub enum LedgerVariant {
    /// The file, the header row and the fields.
    FieldsOnly,
    /// The same, and the split behind them.
    WithSplit,
}

/// One record of the ledger: its members in the order in which they are
/// written, each a key and a text.
#[derive(Debug, PartialEq, Eq)]
pub struct LedgerEntry {
    pub members: Vec<(String, String)>,
}

impl View for LedgerEntry {
    type V = Seq<(Seq<char>, Seq<char>)>;

    open spec fn view(&self) -> Seq<(Seq<char>, Seq<char>)> {
        Seq::new(self.members@.len(), |i: int| (self.members@[i].0@, self.members@[i].1@))
    }
}

/// The lower-case numeral of a hexadecimal digit.
pub open spec fn hex_digit(d: nat) -> char
    recommends
        d < 16,
{
    if d < 10 {
        crate::text::digit_char(d)
    } else if d == 10 {
        'a'
    } else if d == 11 {
        'b'
    } else if d == 12 {
        'c'
    } else if d == 13 {
        'd'
    } else if d == 14 {
        'e'
    } else {
        'f'
    }
}

/// How one character stands inside a JSON string: the quotation mark and the
/// backslash behind a backslash, a control character below the space as its
/// short escape or as `\u00` and two hexadecimal digits, every other
/// character as itself.
pub open spec fn escaped_char(c: char) -> Seq<char> {
    if c == '"' {
        seq!['\\', '"']
    } else if c == '\\' {
        seq!['\\', '\\']
    } else if c == '\u{08}' {
        seq!['\\', 'b']
    } else if c == '\u{09}' {
        seq!['\\', 't']
    } else if c == '\u{0A}' {
        seq!['\\', 'n']
    } else if c == '\u{0C}' {
        seq!['\\', 'f']
    } else if c == '\u{0D}' {
        seq!['\\', 'r']
    } else if (c as u32) < 0x20 {
        seq!['\\', 'u', '0', '0', hex_digit((c as u32 / 16) as nat), hex_digit((c as u32 % 16) as nat)]
    } else {
        seq![c]
    }
}

/// The characters of a text as they stand inside a JSON string.
pub open spec fn escaped(text: Seq<char>) -> Seq<char>
    decreases text.len(),
{
    if text.len() == 0 {
        Seq::empty()
    } else {
        escaped(text.drop_last()) + escaped_char(text.last())
    }
}

/// A text as a JSON string: escaped, between quotation marks.
pub open spec fn quoted(text: Seq<char>) -> Seq<char> {
    seq!['"'] + escaped(text) + seq!['"']
}

/// One member of a record: the key and the text, both as JSON strings, with
/// a colon between them.
pub open spec fn member_text(member: (Seq<char>, Seq<char>)) -> Seq<char> {
    quoted(member.0) + seq![':'] + quoted(member.1)
}

/// The line of a record: its members in order, with commas between them,
/// inside braces, and a line feed at the end.
pub open spec fn record_line(members: Seq<(Seq<char>, Seq<char>)>) -> Seq<char> {
    seq!['{'] + joined(Seq::new(members.len(), |i: int| member_text(members[i])), seq![','])
        + seq!['}', '\n']
}

/// The member that says where `field` comes from.
pub open spec fn field_member(fields: FieldOffsets, field: FieldName) -> (Seq<char>, Seq<char>) {
    (field.label(), fields.of(field).text())
}

/// The members of the record of one saved file.
pub open spec fn entry_members(
    file_name: Seq<char>,
    mapping: ResolvedMapping,
    variant: LedgerVariant,
) -> Seq<(Seq<char>, Seq<char>)> {
    let head = seq![
        ("file_name"@, file_name),
        ("row_offset"@, decimal_text(mapping.header_row as nat)),
    ];
    let fields = Seq::new(
        FIELD_COUNT as nat,
        |k: int| field_member(mapping.fields, FieldName::nth(k)),
    );
    match variant {
        LedgerVariant::FieldsOnly => head + fields,
        LedgerVariant::WithSplit => head + fields + seq![
            ("split"@, decimal_text(mapping.split as nat)),
        ],
    }
}

/// The line that is appended for one saved file.
pub open spec fn ledger_line(
    file_name: Seq<char>,
    mapping: ResolvedMapping,
    variant: LedgerVariant,
) -> Seq<char> {
    record_line(entry_members(file_name, mapping, variant))
}

/// Where the output of a file goes: the output directory, a slash and the
/// file's name.
pub open spec fn output_path_text(output_dir: Seq<char>, file_name: Seq<char>) -> Seq<char> {
    output_dir + seq!['/'] + file_name
}

/// `serde_json::to_string` on a text: the text as a JSON string. The encoder
/// puts it between quotation marks and escapes the quotation mark, the
/// backslash and the control characters below the space, as `quoted` says;
/// encoding a text into memory has no way to fail.
#[verifier::external_body]
fn encode_text(text: &str) -> (out: String)
    ensures
        out@ == quoted(text@),
{
    serde_json::to_string(text).unwrap_or_default()
}

impl LedgerEntry {
    /// The record of one saved file: its name, the header row, where each
    /// field comes from (a column's numeral, or `Skip`) and, in the longer
    /// variant, the split.
    pub fn new(file_name: &str, mapping: &ResolvedMapping, variant: LedgerVariant) -> (entry:
        LedgerEntry)
        ensures
            entry@ == entry_members(file_name@, *mapping, variant),
    {
        let mut members: Vec<(String, String)> = Vec::new();
        members.push((String::from_str("file_name"), String::from_str(file_name)));
        members.push((String::from_str("row_offset"), render_index(mapping.header_row)));
        let mut k: usize = 0;
        while k < FIELD_COUNT
            invariant
                k <= FIELD_COUNT,
                members@.len() == 2 + k,
                members@[0].0@ == "file_name"@,
                members@[0].1@ == file_name@,
                members@[1].0@ == "row_offset"@,
                members@[1].1@ == decimal_text(mapping.header_row as nat),
                forall|j: int|
                    0 <= j < k ==> ((#[trigger] members@[2 + j]).0@, members@[2 + j].1@)
                        == field_member(mapping.fields, FieldName::nth(j)),
            decreases FIELD_COUNT - k,
        {
            let field = FieldName::from_index(k);
            members.push((String::from_str(field.name()), mapping.fields.get(field).to_text()));
            k = k + 1;
        }
        match variant {
            LedgerVariant::FieldsOnly => {},
            LedgerVariant::WithSplit => {
                members.push((String::from_str("split"), render_index(mapping.split)));
            },
        }
        let entry = LedgerEntry { members };
        proof {
            let wanted = entry_members(file_name@, *mapping, variant);
            let head = seq![
                ("file_name"@, file_name@),
                ("row_offset"@, decimal_text(mapping.header_row as nat)),
            ];
            let fields = Seq::new(
                FIELD_COUNT as nat,
                |k: int| field_member(mapping.fields, FieldName::nth(k)),
            );
            assert(head.len() == 2);
            assert(wanted.len() == entry@.len());
            assert forall|i: int| 0 <= i < wanted.len() implies entry@[i] == wanted[i] by {
                if i < 2 {
                    assert(wanted[i] == head[i]);
                } else if i < 2 + FIELD_COUNT {
                    assert(wanted[i] == fields[i - 2]);
                    assert(entry.members@[2 + (i - 2)] == entry.members@[i]);
                }
            }
            assert(entry@ =~= wanted);
        }
        entry
    }

    /// The line of the record.
    pub fn to_line(&self) -> (line: String)
        ensures
            line@ == record_line(self@),
    {
        let ghost wanted = Seq::new(self@.len(), |i: int| member_text(self@[i]));
        let mut parts: Vec<String> = Vec::new();
        let mut i: usize = 0;
        while i < self.members.len()
            invariant
                i <= self.members@.len(),
                wanted == Seq::new(self@.len(), |i: int| member_text(self@[i])),
                parts@.len() == i,
                forall|j: int| 0 <= j < i ==> (#[trigger] parts@[j])@ == wanted[j],
            decreases self.members@.len() - i,
        {
            let mut part = encode_text(self.members[i].0.as_str());
            part.append(":");
            part.append(encode_text(self.members[i].1.as_str()).as_str());
            proof {
                reveal_strlit(":");
                assert(part@ =~= member_text(self@[i as int]));
            }
            parts.push(part);
            i = i + 1;
        }
        let mut line = String::from_str("{");
        line.append(join(&parts, ",").as_str());
        line.append("}\n");
        proof {
            reveal_strlit("{");
            reveal_strlit(",");
            reveal_strlit("}\n");
            assert(texts(parts@) =~= wanted);
            assert(","@ =~= seq![',']);
            assert(line@ =~= record_line(self@));
        }
        line
    }
}

/// The lines that were appended to the ledger, oldest first.
#[derive(Debug, PartialEq, Eq)]
pub struct Ledger {
    pub lines: Vec<String>,
}

impl View for Ledger {
    type V = Seq<Seq<char>>;

    open spec fn view(&self) -> Seq<Seq<char>> {
        texts(self.lines@)
    }
}

impl Ledger {
    /// A ledger without lines.
    pub fn new() -> (ledger: Ledger)
        ensures
            ledger@ == Seq::<Seq<char>>::empty(),
    {
        let ledger = Ledger { lines: Vec::new() };
        proof {
            assert(ledger@ =~= Seq::<Seq<char>>::empty());
        }
        ledger
    }

    /// Appends the line of `entry` and hands it back, so that the caller can
    /// write it out. Every line that was there stays where it was, also one
    /// that says the same.
    pub fn append(&mut self, entry: &LedgerEntry) -> (line: String)
        ensures
            line@ == record_line(entry@),
            final(self)@ == old(self)@.push(record_line(entry@)),
    {
        let line = entry.to_line();
        self.lines.push(line.clone());
        proof {
            assert(self@ =~= old(self)@.push(record_line(entry@)));
        }
        line
    }
}

/// Builds the path of a file's output: the output directory, a slash and the
/// file's name.
pub fn output_path(output_dir: &str, file_name: &str) -> (path: String)
    ensures
        path@ == output_path_text(output_dir@, file_name@),
{
    let mut path = String::from_str(output_dir);
    path.append("/");
    path.append(file_name);
    proof {
        reveal_strlit("/");
        assert(path@ =~= output_path_text(output_dir@, file_name@));
    }
    path
}

/// The ledger does not deduplicate: when the same file is saved again with
/// the same choices, its line stands in the ledger twice, the second behind
/// the first, and every earlier line is still there.
pub proof fn lemma_saving_again_duplicates(ledger: Seq<Seq<char>>, entry: Seq<(Seq<char>, Seq<char>)>)
    ensures
        ({
            let once = ledger.push(record_line(entry));
            let twice = once.push(record_line(entry));
            &&& twice.len() == ledger.len() + 2
            &&& twice[ledger.len() as int] == record_line(entry)
            &&& twice[ledger.len() as int + 1] == record_line(entry)
            &&& twice.take(ledger.len() as int) == ledger
        }),
{
    let once = ledger.push(record_line(entry));
    let twice = once.push(record_line(entry));
    assert(twice.take(ledger.len() as int) =~= ledger);
}

/// Whether a text holds no line feed.
pub open spec fn on_one_line(text: Seq<char>) -> bool {
    forall|i: int| 0 <= i < text.len() ==> #[trigger] text[i] != '\n'
}

proof fn lemma_escaped_on_one_line(text: Seq<char>)
    ensures
        on_one_line(escaped(text)),
    decreases text.len(),
{
    if text.len() > 0 {
        lemma_escaped_on_one_line(text.drop_last());
        assert(on_one_line(escaped_char(text.last())));
    }
}

proof fn lemma_joined_on_one_line(parts: Seq<Seq<char>>, sep: Seq<char>)
    requires
        on_one_line(sep),
        forall|i: int| 0 <= i < parts.len() ==> on_one_line(#[trigger] parts[i]),
    ensures
        on_one_line(joined(parts, sep)),
    decreases parts.len(),
{
    if parts.len() >= 2 {
        let front = parts.drop_last();
        assert forall|i: int| 0 <= i < front.len() implies on_one_line(#[trigger] front[i]) by {
            assert(front[i] == parts[i]);
        }
        lemma_joined_on_one_line(front, sep);
        assert(on_one_line(parts.last()));
    } else if parts.len() == 1 {
        assert(on_one_line(parts[0]));
    }
}

/// A line is one line: it ends in a line feed and holds none before its
/// end, whatever the texts of the record hold.
pub proof fn lemma_line_is_one_line(members: Seq<(Seq<char>, Seq<char>)>)
    ensures
        record_line(members).last() == '\n',
        on_one_line(record_line(members).drop_last()),
{
    let parts = Seq::new(members.len(), |i: int| member_text(members[i]));
    assert forall|i: int| 0 <= i < parts.len() implies on_one_line(#[trigger] parts[i]) by {
        lemma_escaped_on_one_line(members[i].0);
        lemma_escaped_on_one_line(members[i].1);
    }
    lemma_joined_on_one_line(parts, seq![',']);
    assert(record_line(members).drop_last() =~= seq!['{'] + joined(parts, seq![',']) + seq!['}']);
}

} // verus!
