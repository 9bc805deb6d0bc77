//! The batch driver: what is done with each entry of the input directory,
//! in turn, and when the batch moves on to the next.
//!
//! The driver decides and does no work itself. A caller carries out the
//! pending request (looks at a file, puts a question, runs the resolver,
//! writes the output and the ledger line), reports what came of it as an
//! event, and goes on from the reply. A file is left behind only when it is
//! no regular file, when the operator keeps an output that exists already or
//! skips the file at the save question, or when its output and its ledger
//! line were written. A fault starts the same file again, however often it
//! happens; a caller that wants to abandon a file after some number of
//! faults stops reporting them and ends the batch.

use vstd::prelude::*;
use crate::entry::{answer_of, parse_answer, Answer};

verus! {

/// Where the batch stands.
#[derive(Clone, Copy, Debug, PartialEq, Eq, Structural)]
pub enum BatchState {
    /// Waiting to learn what entry `file` is and whether it has an output.
    Probe { file: usize, count: usize },
    /// The output exists; waiting for the answer to the overwrite question.
    ConfirmOverwrite { file: usize, count: usize },
    /// Waiting for the resolver to finish on the file.
    Resolve { file: usize, count: usize },
    /// The output is assembled; waiting for the answer to the save question.
    ConfirmSave { file: usize, count: usize },
    /// Waiting for the output and the ledger line to be written.
    Write { file: usize, count: usize },
    /// Every entry was dealt with.
    Finished { count: usize },
}

/// What a caller reports.
#[derive(Clone, Copy, Debug, PartialEq, Eq, Structural)]
pub enum BatchEvent {
    /// The entry was looked at: whether it is a regular file, and whether a
    /// file of its name exists in the output directory.
    Probed { regular: bool, output_exists: bool },
    /// The operator answered a yes / no / skip question; `None` stands for
    /// a line that is none of the three.
    Answered(Option<Answer>),
    /// The resolver finished and the output was assembled.
    Resolved,
    /// The output and the ledger line were written.
    Written,
    /// Reading, resolving or writing met a fault.
    Failed,
}

/// What the caller has to do next.
#[derive(Clone, Copy, Debug, PartialEq, Eq, Structural)]
pub enum BatchRequest {
    /// Look at the entry: is it a regular file, and does its output exist?
    ProbeFile(usize),
    /// Ask whether the existing output is to be overwritten.
    AskOverwrite(usize),
    /// Open the file, run the resolver on it and assemble the output.
    ResolveFile(usize),
    /// Ask whether the assembled output is to be saved.
    AskSave(usize),
    /// Write the output under the file's name and append its ledger line.
    WriteFile(usize),
    /// Nothing is left to do.
    Stop,
}

/// What a caller tells the operator before it carries out the next request.
#[derive(Clone, Copy, Debug, PartialEq, Eq, Structural)]
pub enum Notice {
    /// Nothing to tell.
    Nothing,
    /// The line was no answer; the same question follows.
    InvalidInput,
    /// The file was not saved or met a fault; it is started again.
    FileFailed,
}

/// What became of one event.
#[derive(Clone, Copy, Debug, PartialEq, Eq, Structural)]
pub struct BatchReply {
    /// The state after the event.
    pub state: BatchState,
    /// What the operator is told.
    pub notice: Notice,
    /// What the state after the event asks for.
    pub request: BatchRequest,
}

impl BatchState {
    /// The number of entries in the batch.
    pub open spec fn count(self) -> usize {
        match self {
            BatchState::Probe { count, .. } => count,
            BatchState::ConfirmOverwrite { count, .. } => count,
            BatchState::Resolve { count, .. } => count,
            BatchState::ConfirmSave { count, .. } => count,
            BatchState::Write { count, .. } => count,
            BatchState::Finished { count } => count,
        }
    }

    /// The number of entries that were left behind.
    pub open spec fn done(self) -> usize {
        match self {
            BatchState::Probe { file, .. } => file,
            BatchState::ConfirmOverwrite { file, .. } => file,
            BatchState::Resolve { file, .. } => file,
            BatchState::ConfirmSave { file, .. } => file,
            BatchState::Write { file, .. } => file,
            BatchState::Finished { count } => count,
        }
    }

    /// What holds of every state that the driver reaches: the entry in work
    /// is one of the batch.
    pub open spec fn valid(self) -> bool {
        self is Finished || self.done() < self.count()
    }

    /// The state in which a batch of `count` entries begins.
    pub open spec fn initial(count: usize) -> BatchState {
        if count == 0 {
            BatchState::Finished { count }
        } else {
            BatchState::Probe { file: 0, count }
        }
    }

    /// The state in which the entry after `file` begins, or the end of the
    /// batch when `file` is the last.
    pub open spec fn advance(file: usize, count: usize) -> BatchState {
        if file + 1 < count {
            BatchState::Probe { file: (file + 1) as usize, count }
        } else {
            BatchState::Finished { count }
        }
    }

    /// The state after an event. An event that the state does not wait for
    /// changes nothing.
    pub open spec fn after(self, event: BatchEvent) -> BatchState {
        match self {
            BatchState::Probe { file, count } => match event {
                BatchEvent::Probed { regular, output_exists } => if !regular {
                    Self::advance(file, count)
                } else if output_exists {
                    BatchState::ConfirmOverwrite { file, count }
                } else {
                    BatchState::Resolve { file, count }
                },
                _ => self,
            },
            BatchState::ConfirmOverwrite { file, count } => match event {
                BatchEvent::Answered(Some(Answer::Yes)) => BatchState::Resolve { file, count },
                BatchEvent::Answered(Some(Answer::No)) => Self::advance(file, count),
                BatchEvent::Answered(Some(Answer::Skip)) => Self::advance(file, count),
                BatchEvent::Failed => BatchState::Probe { file, count },
                _ => self,
            },
            BatchState::Resolve { file, count } => match event {
                BatchEvent::Resolved => BatchState::ConfirmSave { file, count },
                BatchEvent::Failed => BatchState::Probe { file, count },
                _ => self,
            },
            BatchState::ConfirmSave { file, count } => match event {
                BatchEvent::Answered(Some(Answer::Yes)) => BatchState::Write { file, count },
                BatchEvent::Answered(Some(Answer::No)) => BatchState::Resolve { file, count },
                BatchEvent::Answered(Some(Answer::Skip)) => Self::advance(file, count),
                BatchEvent::Failed => BatchState::Probe { file, count },
                _ => self,
            },
            BatchState::Write { file, count } => match event {
                BatchEvent::Written => Self::advance(file, count),
                BatchEvent::Failed => BatchState::Probe { file, count },
                _ => self,
            },
            BatchState::Finished { .. } => self,
        }
    }

    /// What the operator is told after an event: that a line was no answer,
    /// that the file is started again, or nothing.
    pub open spec fn notice(self, event: BatchEvent) -> Notice {
        match (self, event) {
            (BatchState::Finished { .. }, _) => Notice::Nothing,
            (_, BatchEvent::Failed) => Notice::FileFailed,
            (BatchState::ConfirmSave { .. }, BatchEvent::Answered(Some(Answer::No))) => {
                Notice::FileFailed
            },
            (BatchState::ConfirmOverwrite { .. }, BatchEvent::Answered(None)) => {
                Notice::InvalidInput
            },
            (BatchState::ConfirmSave { .. }, BatchEvent::Answered(None)) => Notice::InvalidInput,
            _ => Notice::Nothing,
        }
    }

    /// What the state asks of the caller.
    pub open spec fn request(self) -> BatchRequest {
        match self {
            BatchState::Probe { file, .. } => BatchRequest::ProbeFile(file),
            BatchState::ConfirmOverwrite { file, .. } => BatchRequest::AskOverwrite(file),
            BatchState::Resolve { file, .. } => BatchRequest::ResolveFile(file),
            BatchState::ConfirmSave { file, .. } => BatchRequest::AskSave(file),
            BatchState::Write { file, .. } => BatchRequest::WriteFile(file),
            BatchState::Finished { .. } => BatchRequest::Stop,
        }
    }

    /// The state in which a batch of `count` entries begins.
    pub fn start(count: usize) -> (state: BatchState)
        ensures
            state == BatchState::initial(count),
            state.valid(),
    {
        if count == 0 {
            BatchState::Finished { count }
        } else {
            BatchState::Probe { file: 0, count }
        }
    }

    /// What the state asks of the caller.
    pub fn pending(self) -> (request: BatchRequest)
        ensures
            request == self.request(),
    {
        match self {
            BatchState::Probe { file, .. } => BatchRequest::ProbeFile(file),
            BatchState::ConfirmOverwrite { file, .. } => BatchRequest::AskOverwrite(file),
            BatchState::Resolve { file, .. } => BatchRequest::ResolveFile(file),
            BatchState::ConfirmSave { file, .. } => BatchRequest::AskSave(file),
            BatchState::Write { file, .. } => BatchRequest::WriteFile(file),
            BatchState::Finished { .. } => BatchRequest::Stop,
        }
    }

    fn next_entry(file: usize, count: usize) -> (state: BatchState)
        ensures
            state == Self::advance(file, count),
    {
        if file < count && count - file > 1 {
            BatchState::Probe { file: file + 1, count }
        } else {
            BatchState::Finished { count }
        }
    }

    /// Takes an event.
    pub fn handle(self, event: BatchEvent) -> (reply: BatchReply)
        ensures
            reply.state == self.after(event),
            reply.notice == self.notice(event),
            reply.request == reply.state.request(),
            self.valid() ==> reply.state.valid(),
    {
        let state = match self {
            BatchState::Probe { file, count } => match event {
                BatchEvent::Probed { regular, output_exists } => {
                    if !regular {
                        Self::next_entry(file, count)
                    } else if output_exists {
                        BatchState::ConfirmOverwrite { file, count }
                    } else {
                        BatchState::Resolve { file, count }
                    }
                },
                _ => self,
            },
            BatchState::ConfirmOverwrite { file, count } => match event {
                BatchEvent::Answered(Some(Answer::Yes)) => BatchState::Resolve { file, count },
                BatchEvent::Answered(Some(Answer::No)) => Self::next_entry(file, count),
                BatchEvent::Answered(Some(Answer::Skip)) => Self::next_entry(file, count),
                BatchEvent::Failed => BatchState::Probe { file, count },
                _ => self,
            },
            BatchState::Resolve { file, count } => match event {
                BatchEvent::Resolved => BatchState::ConfirmSave { file, count },
                BatchEvent::Failed => BatchState::Probe { file, count },
                _ => self,
            },
            BatchState::ConfirmSave { file, count } => match event {
                BatchEvent::Answered(Some(Answer::Yes)) => BatchState::Write { file, count },
                BatchEvent::Answered(Some(Answer::No)) => BatchState::Resolve { file, count },
                BatchEvent::Answered(Some(Answer::Skip)) => Self::next_entry(file, count),
                BatchEvent::Failed => BatchState::Probe { file, count },
                _ => self,
            },
            BatchState::Write { file, count } => match event {
                BatchEvent::Written => Self::next_entry(file, count),
                BatchEvent::Failed => BatchState::Probe { file, count },
                _ => self,
            },
            BatchState::Finished { .. } => self,
        };
        let notice = match (self, event) {
            (BatchState::Finished { .. }, _) => Notice::Nothing,
            (_, BatchEvent::Failed) => Notice::FileFailed,
            (BatchState::ConfirmSave { .. }, BatchEvent::Answered(Some(Answer::No))) => {
                Notice::FileFailed
            },
            (BatchState::ConfirmOverwrite { .. }, BatchEvent::Answered(None)) => {
                Notice::InvalidInput
            },
            (BatchState::ConfirmSave { .. }, BatchEvent::Answered(None)) => Notice::InvalidInput,
            _ => Notice::Nothing,
        };
        BatchReply { state, notice, request: state.pending() }
    }

    /// Takes the line that the operator typed at a yes / no / skip question.
    pub fn answer(self, line: &str) -> (reply: BatchReply)
        ensures
            reply.state == self.after(BatchEvent::Answered(answer_of(line@))),
            reply.notice == self.notice(BatchEvent::Answered(answer_of(line@))),
            reply.request == reply.state.request(),
            self.valid() ==> reply.state.valid(),
    {
        self.handle(BatchEvent::Answered(parse_answer(line)))
    }
}

/// The batch only moves forward: an event leaves the number of entries as
/// it was and leaves at most one more entry behind.
pub proof fn lemma_batch_moves_forward(state: BatchState, event: BatchEvent)
    requires
        state.valid(),
    ensures
        state.after(event).valid(),
        state.after(event).count() == state.count(),
        state.done() <= state.after(event).done() <= state.done() + 1,
{
}

/// Nothing is written unasked: the request to write a file's output and
/// ledger line follows a yes at that file's save question and nothing else.
pub proof fn lemma_write_only_on_yes(state: BatchState, event: BatchEvent)
    ensures
        state.after(event) is Write && !(state is Write) ==> state is ConfirmSave && event
            == BatchEvent::Answered(Some(Answer::Yes)) && state.after(event).done()
            == state.done(),
{
}

/// A file whose output exists is left behind, with no request to resolve or
/// write it, when the operator answers the overwrite question with no or
/// with skip.
pub proof fn lemma_keeping_output_skips_file(file: usize, count: usize, answer: Answer)
    requires
        file < count,
        answer != Answer::Yes,
    ensures
        ({
            let probed = (BatchState::Probe { file, count }).after(
                BatchEvent::Probed { regular: true, output_exists: true },
            );
            let answered = probed.after(BatchEvent::Answered(Some(answer)));
            &&& probed == BatchState::ConfirmOverwrite { file, count }
            &&& answered == BatchState::advance(file, count)
            &&& answered.done() == file + 1
            &&& answered.request() != BatchRequest::WriteFile(file)
            &&& answered.request() != BatchRequest::ResolveFile(file)
        }),
{
}

/// A fault never leaves a file behind: the same file is begun again.
pub proof fn lemma_fault_retries_same_file(state: BatchState)
    requires
        state.valid(),
        !(state is Finished),
    ensures
        state.after(BatchEvent::Failed).request() == BatchRequest::ProbeFile(state.done()),
{
}

/// A line that is no answer changes nothing: the same question is put
/// again.
pub proof fn lemma_invalid_answer_changes_nothing(state: BatchState)
    ensures
        state.after(BatchEvent::Answered(None)) == state,
{
}

} // verus!
