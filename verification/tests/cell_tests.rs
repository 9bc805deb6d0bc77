use clean_data::cell::{render, rendered_width, CellValue};

#[test]
fn render_empty_cell_is_empty_text() {
    assert_eq!(render(&CellValue::Empty), "");
}

#[test]
fn render_text_is_verbatim() {
    assert_eq!(render(&CellValue::Text("  Acme, Inc. ".to_string())), "  Acme, Inc. ");
    assert_eq!(render(&CellValue::Text(String::new())), "");
}

#[test]
fn render_float_is_its_decimal_text() {
    let quarter: f64 = 0.25;
    let whole: f64 = 1200.0;
    assert_eq!(render(&CellValue::Float(quarter.to_string())), "0.25");
    assert_eq!(render(&CellValue::Float(whole.to_string())), "1200");
}

#[test]
fn render_integers() {
    assert_eq!(render(&CellValue::Integer(0)), "0");
    assert_eq!(render(&CellValue::Integer(9)), "9");
    assert_eq!(render(&CellValue::Integer(10)), "10");
    assert_eq!(render(&CellValue::Integer(42)), "42");
    assert_eq!(render(&CellValue::Integer(-7)), "-7");
    assert_eq!(render(&CellValue::Integer(1_000_000)), "1000000");
    assert_eq!(render(&CellValue::Integer(i64::MAX)), "9223372036854775807");
    assert_eq!(render(&CellValue::Integer(i64::MIN)), "-9223372036854775808");
}

#[test]
fn render_integers_as_std_formats_them() {
    let samples: [i64; 9] = [0, 1, -1, 99, 100, -100, 123_456_789, i64::MAX, i64::MIN];
    for n in samples {
        assert_eq!(render(&CellValue::Integer(n)), format!("{}", n));
    }
}

#[test]
fn render_booleans_and_errors() {
    assert_eq!(render(&CellValue::Boolean(true)), "true");
    assert_eq!(render(&CellValue::Boolean(false)), "false");
    assert_eq!(render(&CellValue::Error), "Error");
}

#[test]
fn rendered_width_counts_characters() {
    assert_eq!(rendered_width(&CellValue::Empty), 0);
    assert_eq!(rendered_width(&CellValue::Error), 5);
    assert_eq!(rendered_width(&CellValue::Integer(-120)), 4);
    assert_eq!(rendered_width(&CellValue::Text("żółć".to_string())), 4);
}
