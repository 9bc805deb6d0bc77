//! What the operator types: a line of text that is read as an index, as the
//! skip token, or as a yes / no / skip answer.
//!
//! A line is trimmed of surrounding white space first, so the line break
//! that a terminal hands over with the text never matters.

use vstd::prelude::*;

verus! {

/// A line read at a prompt that asks for an index.
#[derive(Clone, Copy, Debug, PartialEq, Eq, Structural)]
pub enum Entry {
    /// A non-negative whole number.
    Index(usize),
    /// The skip token `s`.
    Skip,
    /// Anything else, a number too large for the machine included.
    Invalid,
}

/// An answer to a yes / no / skip question.
#[derive(Clone, Copy, Debug, PartialEq, Eq, Structural)]
pub enum Answer {
    Yes,
    No,
    Skip,
}

/// The characters that trimming removes: the white space of Unicode.
pub open spec fn is_space(c: char) -> bool {
    let u = c as u32;
    ||| 0x09 <= u <= 0x0D
    ||| u == 0x20
    ||| u == 0x85
    ||| u == 0xA0
    ||| u == 0x1680
    ||| 0x2000 <= u <= 0x200A
    ||| u == 0x2028
    ||| u == 0x2029
    ||| u == 0x202F
    ||| u == 0x205F
    ||| u == 0x3000
}

/// `s` without the white space at its start.
pub open spec fn trim_start(s: Seq<char>) -> Seq<char>
    decreases s.len(),
{
    if s.len() > 0 && is_space(s[0]) {
        trim_start(s.drop_first())
    } else {
        s
    }
}

/// `s` without the white space at its end.
pub open spec fn trim_end(s: Seq<char>) -> Seq<char>
    decreases s.len(),
{
    if s.len() > 0 && is_space(s.last()) {
        trim_end(s.drop_last())
    } else {
        s
    }
}

/// `s` without the white space at either end.
pub open spec fn trimmed(s: Seq<char>) -> Seq<char> {
    trim_end(trim_start(s))
}

/// Whether `c` is one of the ten decimal digits.
pub open spec fn is_digit(c: char) -> bool {
    '0' <= c <= '9'
}

/// The number that a digit stands for.
pub open spec fn digit_value(c: char) -> nat
    recommends
        is_digit(c),
{
    (c as u32 - '0' as u32) as nat
}

/// Whether `s` holds decimal digits and nothing else.
pub open spec fn all_digits(s: Seq<char>) -> bool {
    forall|i: int| 0 <= i < s.len() ==> is_digit(#[trigger] s[i])
}

/// The number that a run of digits stands for; zero for the empty run.
pub open spec fn digits_value(s: Seq<char>) -> nat
    decreases s.len(),
{
    if s.len() == 0 {
        0
    } else {
        digits_value(s.drop_last()) * 10 + digit_value(s.last())
    }
}

/// A numeral without the plus sign that may stand in front of it.
pub open spec fn unsigned_part(s: Seq<char>) -> Seq<char> {
    if s.len() > 0 && s[0] == '+' {
        s.drop_first()
    } else {
        s
    }
}

/// Whether `s` is a numeral: at least one digit, with at most a plus sign in
/// front.
pub open spec fn is_numeral(s: Seq<char>) -> bool {
    unsigned_part(s).len() > 0 && all_digits(unsigned_part(s))
}

/// The number that a numeral stands for.
pub open spec fn numeral_value(s: Seq<char>) -> nat
    recommends
        is_numeral(s),
{
    digits_value(unsigned_part(s))
}

/// How a line is read at a prompt that asks for an index.
pub open spec fn entry_of(line: Seq<char>) -> Entry {
    let t = trimmed(line);
    if t == seq!['s'] {
        Entry::Skip
    } else if is_numeral(t) && numeral_value(t) <= usize::MAX {
        Entry::Index(numeral_value(t) as usize)
    } else {
        Entry::Invalid
    }
}

/// How a line is read at a yes / no / skip question; `None` when it is none
/// of the three.
pub open spec fn answer_of(line: Seq<char>) -> Option<Answer> {
    let t = trimmed(line);
    if t == seq!['y'] {
        Some(Answer::Yes)
    } else if t == seq!['n'] {
        Some(Answer::No)
    } else if t == seq!['s'] {
        Some(Answer::Skip)
    } else {
        None
    }
}

/// Trimming the start drops exactly the leading run of white space.
proof fn lemma_trim_start(s: Seq<char>, k: int)
    requires
        0 <= k <= s.len(),
        forall|i: int| 0 <= i < k ==> is_space(#[trigger] s[i]),
        k == s.len() || !is_space(s[k]),
    ensures
        trim_start(s) == s.subrange(k, s.len() as int),
    decreases k,
{
    if k == 0 {
        assert(s.subrange(0, s.len() as int) =~= s);
    } else {
        let rest = s.drop_first();
        assert forall|i: int| 0 <= i < k - 1 implies is_space(#[trigger] rest[i]) by {
            assert(rest[i] == s[i + 1]);
        }
        lemma_trim_start(rest, k - 1);
        assert(rest.subrange(k - 1, rest.len() as int) =~= s.subrange(k, s.len() as int));
    }
}

/// Trimming the end drops exactly the trailing run of white space.
proof fn lemma_trim_end(s: Seq<char>, k: int)
    requires
        0 <= k <= s.len(),
        forall|i: int| k <= i < s.len() ==> is_space(#[trigger] s[i]),
        k == 0 || !is_space(s[k - 1]),
    ensures
        trim_end(s) == s.subrange(0, k),
    decreases s.len() - k,
{
    if k == s.len() {
        assert(s.subrange(0, k) =~= s);
    } else {
        let front = s.drop_last();
        lemma_trim_end(front, k);
        assert(front.subrange(0, k) =~= s.subrange(0, k));
    }
}

/// A run of digits stands for at least what any of its prefixes stands for.
proof fn lemma_prefix_value(s: Seq<char>, k: int)
    requires
        0 <= k <= s.len(),
    ensures
        digits_value(s.take(k)) <= digits_value(s),
    decreases s.len() - k,
{
    if k == s.len() {
        assert(s.take(k) =~= s);
    } else {
        lemma_prefix_value(s.drop_last(), k);
        assert(s.drop_last().take(k) =~= s.take(k));
    }
}

/// The characters of a text, in order.
pub fn chars_of(text: &str) -> (out: Vec<char>)
    ensures
        out@ == text@,
{
    broadcast use vstd::string::group_string_axioms;

    let mut out: Vec<char> = Vec::new();
    for c in it: text.chars()
        invariant
            it.seq() == text@,
            out@ == text@.take(it.index()),
    {
        out.push(c);
        assert(text@.take(it.index() + 1) =~= text@.take(it.index()).push(c));
    }
    assert(text@.take(text@.len() as int) =~= text@);
    out
}

/// Tests whether trimming removes `c`.
pub fn char_is_space(c: char) -> (b: bool)
    ensures
        b == is_space(c),
{
    let u = c as u32;
    (0x09 <= u && u <= 0x0D) || u == 0x20 || u == 0x85 || u == 0xA0 || u == 0x1680 || (0x2000 <= u
        && u <= 0x200A) || u == 0x2028 || u == 0x2029 || u == 0x202F || u == 0x205F || u
        == 0x3000
}

/// The bounds of what trimming keeps of `chars`: the kept part runs from
/// `start` up to, not including, `end`.
pub fn trim_bounds(chars: &Vec<char>) -> (bounds: (usize, usize))
    ensures
        bounds.0 <= bounds.1 <= chars@.len(),
        trimmed(chars@) == chars@.subrange(bounds.0 as int, bounds.1 as int),
{
    let n = chars.len();
    let mut start: usize = 0;
    while start < n && char_is_space(chars[start])
        invariant
            n == chars@.len(),
            start <= n,
            forall|i: int| 0 <= i < start ==> is_space(#[trigger] chars@[i]),
        decreases n - start,
    {
        start = start + 1;
    }
    let mut end: usize = n;
    while end > start && char_is_space(chars[end - 1])
        invariant
            n == chars@.len(),
            start <= end <= n,
            forall|i: int| end <= i < n ==> is_space(#[trigger] chars@[i]),
        decreases end,
    {
        end = end - 1;
    }
    proof {
        let s = chars@;
        let kept = s.subrange(start as int, n as int);
        lemma_trim_start(s, start as int);
        assert forall|i: int| end - start <= i < kept.len() implies is_space(#[trigger] kept[i]) by {
            assert(kept[i] == s[i + start]);
        }
        if end > start {
            assert(kept[end - start - 1] == s[end - 1]);
        }
        lemma_trim_end(kept, end - start);
        assert(kept.subrange(0, end - start) =~= s.subrange(start as int, end as int));
    }
    (start, end)
}

/// Reads the digits `chars[from..to]` as a number; `None` when one of them
/// is no digit, when there is none, or when the number does not fit.
fn parse_digits(chars: &Vec<char>, from: usize, to: usize) -> (value: Option<usize>)
    requires
        from <= to <= chars@.len(),
    ensures
        ({
            let run = chars@.subrange(from as int, to as int);
            value == if run.len() > 0 && all_digits(run) && digits_value(run) <= usize::MAX {
                Some(digits_value(run) as usize)
            } else {
                None
            }
        }),
{
    let ghost run = chars@.subrange(from as int, to as int);
    if from == to {
        return None;
    }
    let mut total: usize = 0;
    let mut i: usize = from;
    while i < to
        invariant
            from <= i <= to <= chars@.len(),
            run == chars@.subrange(from as int, to as int),
            all_digits(run.take(i - from)),
            total == digits_value(run.take(i - from)),
        decreases to - i,
    {
        let c = chars[i];
        let ghost before = run.take(i - from);
        let ghost after = run.take(i - from + 1);
        proof {
            assert(run[i - from] == c);
            assert(after.drop_last() =~= before);
            assert(after.last() == c);
        }
        if !('0' <= c && c <= '9') {
            proof {
                assert(!is_digit(run[i - from]));
            }
            return None;
        }
        let d: usize = (c as u32 - '0' as u32) as usize;
        if total > (usize::MAX - d) / 10 {
            proof {
                assert(digits_value(after) == total * 10 + d);
                assert(total * 10 + d > usize::MAX) by (nonlinear_arith)
                    requires
                        total > (usize::MAX - d) / 10,
                        0 <= d < 10,
                ;
                lemma_prefix_value(run, i - from + 1);
            }
            return None;
        }
        assert(total * 10 + d <= usize::MAX) by (nonlinear_arith)
            requires
                total <= (usize::MAX - d) / 10,
                0 <= d < 10,
        ;
        total = total * 10 + d;
        proof {
            assert forall|j: int| 0 <= j < after.len() implies is_digit(#[trigger] after[j]) by {
                if j < before.len() {
                    assert(after[j] == before[j]);
                }
            }
        }
        i = i + 1;
    }
    proof {
        assert(run.take(to - from) =~= run);
    }
    Some(total)
}

/// Reads a line at a prompt that asks for an index.
pub fn parse_entry(line: &str) -> (entry: Entry)
    ensures
        entry == entry_of(line@),
{
    let chars = chars_of(line);
    let (start, end) = trim_bounds(&chars);
    let ghost t = trimmed(line@);
    if end - start == 1 && chars[start] == 's' {
        proof {
            assert(t =~= seq!['s']);
        }
        return Entry::Skip;
    }
    proof {
        if t == seq!['s'] {
            assert(t.len() == 1);
            assert(t[0] == 's');
        }
    }
    let from = if start < end && chars[start] == '+' {
        start + 1
    } else {
        start
    };
    proof {
        assert(unsigned_part(t) =~= chars@.subrange(from as int, end as int));
    }
    match parse_digits(&chars, from, end) {
        Some(n) => Entry::Index(n),
        None => Entry::Invalid,
    }
}

/// Reads a line at a yes / no / skip question; `None` when it is none of the
/// three.
pub fn parse_answer(line: &str) -> (answer: Option<Answer>)
    ensures
        answer == answer_of(line@),
{
    let chars = chars_of(line);
    let (start, end) = trim_bounds(&chars);
    let ghost t = trimmed(line@);
    if end - start != 1 {
        proof {
            assert(t.len() != 1);
        }
        return None;
    }
    let c = chars[start];
    proof {
        assert(t.len() == 1);
        assert(t[0] == c);
        assert(t =~= seq![c]);
        assert(seq!['y'][0] == 'y');
        assert(seq!['n'][0] == 'n');
        assert(seq!['s'][0] == 's');
    }
    if c == 'y' {
        Some(Answer::Yes)
    } else if c == 'n' {
        Some(Answer::No)
    } else if c == 's' {
        Some(Answer::Skip)
    } else {
        None
    }
}

} // verus!
