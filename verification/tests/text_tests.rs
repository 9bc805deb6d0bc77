use clean_data::text::{join, pad_right, render_index, render_signed, render_unsigned};

#[test]
fn unsigned_numerals() {
    assert_eq!(render_unsigned(0), "0");
    assert_eq!(render_unsigned(7), "7");
    assert_eq!(render_unsigned(10), "10");
    assert_eq!(render_unsigned(1_048_576), "1048576");
    assert_eq!(render_unsigned(u64::MAX), "18446744073709551615");
}

#[test]
fn signed_numerals() {
    assert_eq!(render_signed(0), "0");
    assert_eq!(render_signed(-1), "-1");
    assert_eq!(render_signed(305), "305");
    assert_eq!(render_signed(i64::MIN), "-9223372036854775808");
}

#[test]
fn index_numerals() {
    assert_eq!(render_index(0), "0");
    assert_eq!(render_index(16_383), "16383");
}

#[test]
fn pad_right_fills_with_spaces() {
    assert_eq!(pad_right("ab", 5), "ab   ");
    assert_eq!(pad_right("", 3), "   ");
    assert_eq!(pad_right("", 0), "");
}

#[test]
fn pad_right_leaves_wide_text_alone() {
    assert_eq!(pad_right("abcdef", 3), "abcdef");
    assert_eq!(pad_right("abc", 3), "abc");
}

#[test]
fn pad_right_counts_characters_not_bytes() {
    assert_eq!(pad_right("né", 4), "né  ");
    assert_eq!(pad_right("日本", 3), "日本 ");
}

#[test]
fn join_puts_the_separator_between() {
    let parts = vec!["a".to_string(), "b".to_string(), "c".to_string()];
    assert_eq!(join(&parts, " ---- "), "a ---- b ---- c");
    assert_eq!(join(&parts, ""), "abc");
}

#[test]
fn join_of_one_and_of_none() {
    assert_eq!(join(&vec!["only".to_string()], ","), "only");
    assert_eq!(join(&Vec::new(), ","), "");
}

#[test]
fn join_keeps_empty_parts() {
    let parts = vec![String::new(), "x".to_string(), String::new()];
    assert_eq!(join(&parts, "|"), "|x|");
}
