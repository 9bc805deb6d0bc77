use clean_data::driver::{BatchEvent, BatchRequest, BatchState, Notice};
use clean_data::entry::Answer;

fn probed(regular: bool, output_exists: bool) -> BatchEvent {
    BatchEvent::Probed { regular, output_exists }
}

#[test]
fn empty_batch_is_finished_at_once() {
    let state = BatchState::start(0);
    assert_eq!(state, BatchState::Finished { count: 0 });
    assert_eq!(state.pending(), BatchRequest::Stop);
}

#[test]
fn batch_begins_with_the_first_entry() {
    let state = BatchState::start(3);
    assert_eq!(state, BatchState::Probe { file: 0, count: 3 });
    assert_eq!(state.pending(), BatchRequest::ProbeFile(0));
}

#[test]
fn directories_are_passed_over() {
    let reply = BatchState::start(2).handle(probed(false, false));
    assert_eq!(reply.state, BatchState::Probe { file: 1, count: 2 });
    assert_eq!(reply.request, BatchRequest::ProbeFile(1));
    assert_eq!(reply.notice, Notice::Nothing);
    let reply = reply.state.handle(probed(false, true));
    assert_eq!(reply.state, BatchState::Finished { count: 2 });
    assert_eq!(reply.request, BatchRequest::Stop);
}

#[test]
fn new_file_goes_straight_to_the_resolver() {
    let reply = BatchState::start(1).handle(probed(true, false));
    assert_eq!(reply.state, BatchState::Resolve { file: 0, count: 1 });
    assert_eq!(reply.request, BatchRequest::ResolveFile(0));
}

#[test]
fn existing_output_kept_skips_the_file() {
    let mut requests = Vec::new();
    let reply = BatchState::start(1).handle(probed(true, true));
    assert_eq!(reply.state, BatchState::ConfirmOverwrite { file: 0, count: 1 });
    assert_eq!(reply.request, BatchRequest::AskOverwrite(0));
    requests.push(reply.request);
    let reply = reply.state.answer("n");
    assert_eq!(reply.state, BatchState::Finished { count: 1 });
    assert_eq!(reply.notice, Notice::Nothing);
    requests.push(reply.request);
    assert_eq!(requests, vec![BatchRequest::AskOverwrite(0), BatchRequest::Stop]);
    assert!(!requests.contains(&BatchRequest::WriteFile(0)));
    assert!(!requests.contains(&BatchRequest::ResolveFile(0)));
}

#[test]
fn existing_output_skip_answer_skips_the_file_too() {
    let state = BatchState::ConfirmOverwrite { file: 0, count: 2 };
    let reply = state.answer("s");
    assert_eq!(reply.state, BatchState::Probe { file: 1, count: 2 });
}

#[test]
fn existing_output_overwritten_goes_on() {
    let state = BatchState::ConfirmOverwrite { file: 0, count: 2 };
    let reply = state.answer("y");
    assert_eq!(reply.state, BatchState::Resolve { file: 0, count: 2 });
    assert_eq!(reply.request, BatchRequest::ResolveFile(0));
}

#[test]
fn questions_are_put_again_after_an_invalid_line() {
    for state in [
        BatchState::ConfirmOverwrite { file: 1, count: 2 },
        BatchState::ConfirmSave { file: 1, count: 2 },
    ] {
        for line in ["", "yes", "Y", "maybe", "0"] {
            let reply = state.answer(line);
            assert_eq!(reply.state, state);
            assert_eq!(reply.notice, Notice::InvalidInput);
            assert_eq!(reply.request, state.pending());
        }
    }
}

#[test]
fn save_confirmed_writes_then_moves_on() {
    let state = BatchState::Resolve { file: 0, count: 2 };
    let reply = state.handle(BatchEvent::Resolved);
    assert_eq!(reply.state, BatchState::ConfirmSave { file: 0, count: 2 });
    assert_eq!(reply.request, BatchRequest::AskSave(0));
    let reply = reply.state.answer("y");
    assert_eq!(reply.state, BatchState::Write { file: 0, count: 2 });
    assert_eq!(reply.request, BatchRequest::WriteFile(0));
    let reply = reply.state.handle(BatchEvent::Written);
    assert_eq!(reply.state, BatchState::Probe { file: 1, count: 2 });
    assert_eq!(reply.notice, Notice::Nothing);
}

#[test]
fn save_declined_resolves_the_same_file_again() {
    let state = BatchState::ConfirmSave { file: 3, count: 5 };
    let reply = state.answer("n");
    assert_eq!(reply.state, BatchState::Resolve { file: 3, count: 5 });
    assert_eq!(reply.request, BatchRequest::ResolveFile(3));
    assert_eq!(reply.notice, Notice::FileFailed);
}

#[test]
fn save_skipped_moves_on_without_writing() {
    let state = BatchState::ConfirmSave { file: 3, count: 5 };
    let reply = state.answer("s");
    assert_eq!(reply.state, BatchState::Probe { file: 4, count: 5 });
    assert_eq!(reply.request, BatchRequest::ProbeFile(4));
    assert_eq!(reply.notice, Notice::Nothing);
}

#[test]
fn fault_starts_the_same_file_again() {
    for state in [
        BatchState::Probe { file: 2, count: 4 },
        BatchState::ConfirmOverwrite { file: 2, count: 4 },
        BatchState::Resolve { file: 2, count: 4 },
        BatchState::ConfirmSave { file: 2, count: 4 },
        BatchState::Write { file: 2, count: 4 },
    ] {
        let reply = state.handle(BatchEvent::Failed);
        assert_eq!(reply.state, BatchState::Probe { file: 2, count: 4 });
        assert_eq!(reply.request, BatchRequest::ProbeFile(2));
        assert_eq!(reply.notice, Notice::FileFailed);
    }
}

#[test]
fn fault_can_repeat_without_end() {
    let mut state = BatchState::Write { file: 0, count: 1 };
    for _ in 0..500 {
        state = state.handle(BatchEvent::Failed).state;
        assert_eq!(state, BatchState::Probe { file: 0, count: 1 });
        state = state.handle(probed(true, false)).state;
        state = state.handle(BatchEvent::Resolved).state;
        state = state.handle(BatchEvent::Answered(Some(Answer::Yes))).state;
        assert_eq!(state, BatchState::Write { file: 0, count: 1 });
    }
}

#[test]
fn events_that_are_not_waited_for_change_nothing() {
    let state = BatchState::Probe { file: 0, count: 1 };
    for event in [
        BatchEvent::Resolved,
        BatchEvent::Written,
        BatchEvent::Answered(Some(Answer::Yes)),
        BatchEvent::Answered(None),
    ] {
        let reply = state.handle(event);
        assert_eq!(reply.state, state);
        assert_eq!(reply.notice, Notice::Nothing);
    }
    let state = BatchState::Resolve { file: 0, count: 1 };
    assert_eq!(state.handle(probed(true, true)).state, state);
    assert_eq!(state.handle(BatchEvent::Written).state, state);
    let state = BatchState::Write { file: 0, count: 1 };
    assert_eq!(state.handle(BatchEvent::Resolved).state, state);
}

#[test]
fn finished_batch_stays_finished() {
    let state = BatchState::Finished { count: 2 };
    for event in [
        probed(true, false),
        BatchEvent::Resolved,
        BatchEvent::Written,
        BatchEvent::Failed,
        BatchEvent::Answered(Some(Answer::No)),
    ] {
        let reply = state.handle(event);
        assert_eq!(reply.state, state);
        assert_eq!(reply.request, BatchRequest::Stop);
        assert_eq!(reply.notice, Notice::Nothing);
    }
}

#[test]
fn whole_batch_of_two_files() {
    let mut state = BatchState::start(2);
    let mut written = Vec::new();
    let events = [
        probed(true, false),
        BatchEvent::Resolved,
        BatchEvent::Answered(Some(Answer::No)),
        BatchEvent::Resolved,
        BatchEvent::Answered(Some(Answer::Yes)),
        BatchEvent::Written,
        probed(true, true),
        BatchEvent::Answered(Some(Answer::Yes)),
        BatchEvent::Resolved,
        BatchEvent::Answered(Some(Answer::Yes)),
        BatchEvent::Failed,
        probed(true, true),
        BatchEvent::Answered(Some(Answer::Yes)),
        BatchEvent::Resolved,
        BatchEvent::Answered(Some(Answer::Yes)),
        BatchEvent::Written,
    ];
    for event in events {
        let reply = state.handle(event);
        if let BatchRequest::WriteFile(file) = reply.request {
            written.push(file);
        }
        state = reply.state;
    }
    assert_eq!(state, BatchState::Finished { count: 2 });
    assert_eq!(written, vec![0, 1, 1]);
}
