use clean_data::mapping::{FieldName, FieldOffsets, Offset, FIELD_COUNT};

#[test]
fn fields_stand_in_their_fixed_order() {
    let names: Vec<&str> = (0..FIELD_COUNT).map(|k| FieldName::from_index(k).name()).collect();
    assert_eq!(names, vec!["vendor", "description", "mapping", "label"]);
    for k in 0..FIELD_COUNT {
        assert_eq!(FieldName::from_index(k).index(), k);
    }
}

#[test]
fn field_next_walks_the_order() {
    assert_eq!(FieldName::Vendor.next(), Some(FieldName::Description));
    assert_eq!(FieldName::Description.next(), Some(FieldName::Mapping));
    assert_eq!(FieldName::Mapping.next(), Some(FieldName::Label));
    assert_eq!(FieldName::Label.next(), None);
}

#[test]
fn offset_text_is_numeral_or_skip() {
    assert_eq!(Offset::Column(0).to_text(), "0");
    assert_eq!(Offset::Column(17).to_text(), "17");
    assert_eq!(Offset::Skip.to_text(), "Skip");
}

#[test]
fn field_offsets_get_and_with() {
    let offsets = FieldOffsets::skipped();
    for k in 0..FIELD_COUNT {
        assert_eq!(offsets.get(FieldName::from_index(k)), Offset::Skip);
    }
    let offsets = offsets.with(FieldName::Mapping, Offset::Column(4));
    assert_eq!(offsets.get(FieldName::Mapping), Offset::Column(4));
    assert_eq!(offsets.get(FieldName::Vendor), Offset::Skip);
    assert_eq!(offsets.get(FieldName::Description), Offset::Skip);
    assert_eq!(offsets.get(FieldName::Label), Offset::Skip);
    let offsets = offsets.with(FieldName::Mapping, Offset::Skip);
    assert_eq!(offsets, FieldOffsets::skipped());
}
