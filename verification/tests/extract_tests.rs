use clean_data::cell::{render, CellValue};
use clean_data::extract::extract;
use clean_data::mapping::Offset;
use clean_data::range::Range;

fn text(s: &str) -> CellValue {
    CellValue::Text(s.to_string())
}

fn sample() -> Range {
    Range::from_rows(
        3,
        vec![
            vec![text("Invoices 2023"), CellValue::Empty, CellValue::Empty],
            vec![text("Vendor"), text("What"), text("Total")],
            vec![text("Acme"), text("bolts"), CellValue::Integer(12)],
            vec![text("Bolt & Co"), CellValue::Error, CellValue::Boolean(false)],
        ],
    )
    .unwrap()
}

#[test]
fn extract_column_from_header_row_down() {
    let range = sample();
    assert_eq!(
        extract(&range, 1, Offset::Column(0)),
        vec!["Vendor".to_string(), "Acme".to_string(), "Bolt & Co".to_string()]
    );
    assert_eq!(
        extract(&range, 1, Offset::Column(2)),
        vec!["Total".to_string(), "12".to_string(), "false".to_string()]
    );
    assert_eq!(
        extract(&range, 1, Offset::Column(1)),
        vec!["What".to_string(), "bolts".to_string(), "Error".to_string()]
    );
}

#[test]
fn extract_has_one_entry_for_each_row_and_starts_with_the_header_cell() {
    let range = sample();
    for header_row in 0..range.row_count() {
        for col in 0..range.col_count() {
            let column = extract(&range, header_row, Offset::Column(col));
            assert_eq!(column.len(), range.row_count() - header_row);
            assert_eq!(column[0], render(range.cell(header_row, col)));
            for (i, entry) in column.iter().enumerate() {
                assert_eq!(*entry, render(range.cell(header_row + i, col)));
            }
        }
    }
}

#[test]
fn extract_skip_is_blank_whatever_the_cells_hold() {
    let range = sample();
    assert_eq!(extract(&range, 1, Offset::Skip), vec![String::new(); 3]);
    assert_eq!(extract(&range, 0, Offset::Skip), vec![String::new(); 4]);
    let blank = Range::new(4, 3);
    assert_eq!(extract(&blank, 1, Offset::Skip), extract(&range, 1, Offset::Skip));
}

#[test]
fn extract_with_header_in_last_row_gives_the_header_alone() {
    let range = sample();
    assert_eq!(extract(&range, 3, Offset::Column(0)), vec!["Bolt & Co".to_string()]);
    assert_eq!(extract(&range, 3, Offset::Skip), vec![String::new()]);
}

#[test]
fn extract_past_the_last_row_gives_nothing() {
    let range = sample();
    assert_eq!(extract(&range, 4, Offset::Column(0)), Vec::<String>::new());
    assert_eq!(extract(&range, 9, Offset::Skip), Vec::<String>::new());
}
