use clean_data::entry::Entry;
use clean_data::mapping::{FieldName, FieldOffsets, Offset, ResolvedMapping};
use clean_data::resolver::{Request, ResolverState};

fn enter_all(mut state: ResolverState, lines: &[&str]) -> ResolverState {
    for line in lines {
        let reply = state.enter(line);
        assert!(reply.accepted, "{:?} was refused in {:?}", line, state);
        state = reply.state;
    }
    state
}

#[test]
fn sheet_prompt_ignores_text_that_is_no_number() {
    let state = ResolverState::start(3);
    assert_eq!(state.pending(), Request::AskSheet);
    let reply = state.enter("abc");
    assert!(!reply.accepted);
    assert_eq!(reply.state, state);
    assert_eq!(reply.state, ResolverState::ChooseSheet { sheet_count: 3 });
    assert_eq!(reply.request, Request::AskSheet);
}

#[test]
fn sheet_prompt_refuses_an_index_out_of_range_and_the_skip_token() {
    let state = ResolverState::start(3);
    for line in ["3", "17", "s", "", "-1"] {
        let reply = state.enter(line);
        assert!(!reply.accepted, "{:?}", line);
        assert_eq!(reply.state, state);
        assert_eq!(reply.request, Request::AskSheet);
    }
}

#[test]
fn sheet_prompt_without_sheets_accepts_nothing() {
    let state = ResolverState::start(0);
    assert!(!state.enter("0").accepted);
}

#[test]
fn sheet_choice_asks_for_the_sheet() {
    let reply = ResolverState::start(3).enter("2\n");
    assert!(reply.accepted);
    assert_eq!(reply.state, ResolverState::OpenSheet { sheet: 2 });
    assert_eq!(reply.request, Request::LoadSheet(2));
}

#[test]
fn entries_wait_until_the_sheet_is_open() {
    let state = ResolverState::OpenSheet { sheet: 1 };
    let reply = state.enter("0");
    assert!(!reply.accepted);
    assert_eq!(reply.state, state);
    let reply = state.sheet_opened(6, 4);
    assert!(reply.accepted);
    assert_eq!(reply.state, ResolverState::ChooseHeaderRow { rows: 6, cols: 4 });
    assert_eq!(reply.request, Request::AskHeaderRow);
}

#[test]
fn sheet_opened_is_ignored_elsewhere() {
    let state = ResolverState::ChooseHeaderRow { rows: 6, cols: 4 };
    let reply = state.sheet_opened(1, 1);
    assert!(!reply.accepted);
    assert_eq!(reply.state, state);
    assert_eq!(reply.request, Request::AskHeaderRow);
}

#[test]
fn header_row_has_to_exist() {
    let state = ResolverState::ChooseHeaderRow { rows: 6, cols: 4 };
    for line in ["6", "100", "s", "row"] {
        let reply = state.enter(line);
        assert!(!reply.accepted, "{:?}", line);
        assert_eq!(reply.state, state);
    }
    let reply = state.enter("5");
    assert!(reply.accepted);
    assert_eq!(
        reply.state,
        ResolverState::ChooseField {
            rows: 6,
            cols: 4,
            header_row: 5,
            field: FieldName::Vendor,
            chosen: FieldOffsets::skipped(),
        }
    );
    assert_eq!(reply.request, Request::AskField(FieldName::Vendor));
}

#[test]
fn fields_are_asked_in_order_and_may_be_skipped() {
    let start = ResolverState::ChooseHeaderRow { rows: 6, cols: 4 };
    let mut state = enter_all(start, &["1"]);
    assert_eq!(state.pending(), Request::AskField(FieldName::Vendor));
    state = enter_all(state, &["0"]);
    assert_eq!(state.pending(), Request::AskField(FieldName::Description));
    state = enter_all(state, &["s"]);
    assert_eq!(state.pending(), Request::AskField(FieldName::Mapping));
    state = enter_all(state, &["3"]);
    assert_eq!(state.pending(), Request::AskField(FieldName::Label));
    state = enter_all(state, &["3"]);
    assert_eq!(state.pending(), Request::AskSplit);
    assert_eq!(
        state,
        ResolverState::ChooseSplit {
            rows: 6,
            cols: 4,
            header_row: 1,
            fields: FieldOffsets {
                vendor: Offset::Column(0),
                description: Offset::Skip,
                mapping: Offset::Column(3),
                label: Offset::Column(3),
            },
        }
    );
}

#[test]
fn field_column_has_to_exist() {
    let state = enter_all(ResolverState::ChooseHeaderRow { rows: 6, cols: 4 }, &["0"]);
    for line in ["4", "40", "x", "", "S"] {
        let reply = state.enter(line);
        assert!(!reply.accepted, "{:?}", line);
        assert_eq!(reply.state, state);
        assert_eq!(reply.request, Request::AskField(FieldName::Vendor));
    }
}

#[test]
fn split_cannot_be_skipped() {
    let state = enter_all(
        ResolverState::ChooseHeaderRow { rows: 6, cols: 4 },
        &["0", "s", "s", "s", "s"],
    );
    assert_eq!(state.pending(), Request::AskSplit);
    for line in ["s", "4", "", "split"] {
        let reply = state.enter(line);
        assert!(!reply.accepted, "{:?}", line);
        assert_eq!(reply.state, state);
        assert_eq!(reply.request, Request::AskSplit);
    }
    let reply = state.enter("3");
    assert!(reply.accepted);
}

#[test]
fn full_walk_gives_the_mapping() {
    let mut state = ResolverState::start(2);
    state = enter_all(state, &["1"]);
    let opened = state.sheet_opened(4, 3);
    assert!(opened.accepted);
    state = enter_all(opened.state, &["1", "0", "1", "s", "s", "2"]);
    let mapping = ResolvedMapping {
        header_row: 1,
        fields: FieldOffsets {
            vendor: Offset::Column(0),
            description: Offset::Column(1),
            mapping: Offset::Skip,
            label: Offset::Skip,
        },
        split: 2,
    };
    assert_eq!(state, ResolverState::Done { rows: 4, cols: 3, mapping });
    assert_eq!(state.pending(), Request::Finish(mapping));
    assert!(mapping.check_fits(4, 3));
}

#[test]
fn done_takes_no_more_entries() {
    let mapping = ResolvedMapping { header_row: 0, fields: FieldOffsets::skipped(), split: 0 };
    let state = ResolverState::Done { rows: 1, cols: 1, mapping };
    let reply = state.enter("0");
    assert!(!reply.accepted);
    assert_eq!(reply.state, state);
    assert_eq!(reply.request, Request::Finish(mapping));
}

#[test]
fn invalid_entries_can_repeat_without_end() {
    let state = ResolverState::start(1);
    let mut current = state;
    for _ in 0..1000 {
        let reply = current.submit(Entry::Invalid);
        assert!(!reply.accepted);
        current = reply.state;
    }
    assert_eq!(current, state);
}

#[test]
fn sheet_without_columns_takes_skips_but_no_split() {
    let state = enter_all(
        ResolverState::ChooseHeaderRow { rows: 2, cols: 0 },
        &["0", "s", "s", "s", "s"],
    );
    assert!(!state.enter("0").accepted);
    assert!(!state.enter("s").accepted);
}

#[test]
fn submit_and_enter_agree() {
    let state = ResolverState::ChooseHeaderRow { rows: 3, cols: 3 };
    assert_eq!(state.submit(Entry::Index(2)), state.enter("2"));
    assert_eq!(state.submit(Entry::Skip), state.enter("s"));
    assert_eq!(state.submit(Entry::Invalid), state.enter("?"));
}
