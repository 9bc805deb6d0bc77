use clean_data::entry::{char_is_space, chars_of, parse_answer, parse_entry, trim_bounds, Answer, Entry};

fn trimmed_by_library(text: &str) -> String {
    let chars = chars_of(text);
    let (start, end) = trim_bounds(&chars);
    chars[start..end].iter().collect()
}

#[test]
fn entry_plain_index() {
    assert_eq!(parse_entry("0"), Entry::Index(0));
    assert_eq!(parse_entry("3"), Entry::Index(3));
    assert_eq!(parse_entry("120"), Entry::Index(120));
}

#[test]
fn entry_is_trimmed_first() {
    assert_eq!(parse_entry("  4\n"), Entry::Index(4));
    assert_eq!(parse_entry("4\r\n"), Entry::Index(4));
    assert_eq!(parse_entry("\t s \n"), Entry::Skip);
    assert_eq!(parse_entry("\u{3000}5\u{a0}"), Entry::Index(5));
}

#[test]
fn entry_takes_leading_zeros_and_one_plus_sign() {
    assert_eq!(parse_entry("007"), Entry::Index(7));
    assert_eq!(parse_entry("+7"), Entry::Index(7));
    assert_eq!(parse_entry("++7"), Entry::Invalid);
    assert_eq!(parse_entry("+"), Entry::Invalid);
}

#[test]
fn entry_skip_token() {
    assert_eq!(parse_entry("s"), Entry::Skip);
    assert_eq!(parse_entry("S"), Entry::Invalid);
    assert_eq!(parse_entry("ss"), Entry::Invalid);
    assert_eq!(parse_entry("skip"), Entry::Invalid);
}

#[test]
fn entry_rejects_what_is_no_number() {
    assert_eq!(parse_entry(""), Entry::Invalid);
    assert_eq!(parse_entry("   "), Entry::Invalid);
    assert_eq!(parse_entry("abc"), Entry::Invalid);
    assert_eq!(parse_entry("-1"), Entry::Invalid);
    assert_eq!(parse_entry("1.5"), Entry::Invalid);
    assert_eq!(parse_entry("1 2"), Entry::Invalid);
    assert_eq!(parse_entry("12a"), Entry::Invalid);
    assert_eq!(parse_entry("١٢"), Entry::Invalid);
}

#[test]
fn entry_largest_index_and_overflow() {
    assert_eq!(parse_entry(&usize::MAX.to_string()), Entry::Index(usize::MAX));
    let mut beyond = usize::MAX.to_string();
    beyond.push('0');
    assert_eq!(parse_entry(&beyond), Entry::Invalid);
    assert_eq!(parse_entry("340282366920938463463374607431768211456"), Entry::Invalid);
    let just_beyond = (usize::MAX as u128 + 1).to_string();
    assert_eq!(parse_entry(&just_beyond), Entry::Invalid);
}

#[test]
fn entry_agrees_with_std_parsing() {
    let samples = [
        "0", "1", " 12 ", "+3", "-3", "", " ", "s", " s", "x", "4x", "0004", "18446744073709551615",
        "18446744073709551616", "99999999999999999999999999", "+", "+-1", "1+", "٣",
    ];
    for sample in samples {
        let trimmed = sample.trim();
        let expected = if trimmed == "s" {
            Entry::Skip
        } else {
            match trimmed.parse::<usize>() {
                Ok(n) => Entry::Index(n),
                Err(_) => Entry::Invalid,
            }
        };
        assert_eq!(parse_entry(sample), expected, "for {:?}", sample);
    }
}

#[test]
fn answer_yes_no_skip() {
    assert_eq!(parse_answer("y"), Some(Answer::Yes));
    assert_eq!(parse_answer("n"), Some(Answer::No));
    assert_eq!(parse_answer("s"), Some(Answer::Skip));
    assert_eq!(parse_answer(" y \r\n"), Some(Answer::Yes));
}

#[test]
fn answer_rejects_everything_else() {
    assert_eq!(parse_answer(""), None);
    assert_eq!(parse_answer("yes"), None);
    assert_eq!(parse_answer("Y"), None);
    assert_eq!(parse_answer("N"), None);
    assert_eq!(parse_answer("abc"), None);
    assert_eq!(parse_answer("y n"), None);
    assert_eq!(parse_answer("1"), None);
}

#[test]
fn white_space_is_what_std_calls_white_space() {
    let mut code: u32 = 0;
    while code <= 0x10FFFF {
        if let Some(c) = char::from_u32(code) {
            assert_eq!(char_is_space(c), c.is_whitespace(), "for U+{:04X}", code);
        }
        code += 1;
    }
}

#[test]
fn chars_of_gives_every_character() {
    assert_eq!(chars_of(""), Vec::<char>::new());
    assert_eq!(chars_of("aé日"), vec!['a', 'é', '日']);
}

#[test]
fn trimming_agrees_with_std() {
    let samples = [
        "", " ", "a", " a", "a ", "  a b  ", "\n\t x \r\n", "\u{2003}wide\u{2003}", "   \n",
        "\u{85}next line\u{85}", "no space", " \u{200B}zero width is kept\u{200B} ",
    ];
    for sample in samples {
        assert_eq!(trimmed_by_library(sample), sample.trim(), "for {:?}", sample);
    }
}

#[test]
fn trim_bounds_of_blank_text_are_empty() {
    let chars = chars_of("    ");
    let (start, end) = trim_bounds(&chars);
    assert_eq!(start, end);
}
