//! The pause for the operator between the merge of new names and the ledger.
//!
//! The caller does the work — it asks, saves, opens the editor, reads the document
//! again — and reports each outcome as an event; [`advance`] says what comes next.

use crate::error::{Error, Failure};
use crate::text::{text_eq, trim, trimmed};
use vstd::prelude::*;

verus! {

/// How far the pause has come.
#[derive(Clone, Copy, PartialEq, Eq, Structural, Debug)]
pub enum EditState {
    /// The rules have not been merged yet.
    Start,
    /// The operator has been asked whether to edit the rules.
    Prompting,
    /// The document is being saved.
    Saving,
    /// The editor is open.
    Editing,
    /// The document is being read again.
    Reloading,
    /// Nothing more is to be done.
    Done,
}

/// What the caller reports.
#[derive(Clone, Debug)]
pub enum EditEvent {
    /// The rules were merged; `dirty` says whether that added a name.
    Merged { dirty: bool },
    /// The operator answered the question.
    Answered { answer: String },
    /// The document was saved.
    Saved,
    /// The editor was closed.
    Edited,
    /// The document was read again.
    Reloaded,
}

/// Mathematical view of an [`EditEvent`].
pub enum Report {
    Merged { dirty: bool },
    Answered { answer: Seq<char> },
    Saved,
    Edited,
    Reloaded,
}

impl View for EditEvent {
    type V = Report;

    open spec fn view(&self) -> Report {
        match self {
            EditEvent::Merged { dirty } => Report::Merged { dirty: *dirty },
            EditEvent::Answered { answer } => Report::Answered { answer: answer@ },
            EditEvent::Saved => Report::Saved,
            EditEvent::Edited => Report::Edited,
            EditEvent::Reloaded => Report::Reloaded,
        }
    }
}

/// What the caller is to do next.
#[derive(Clone, Copy, PartialEq, Eq, Structural, Debug)]
pub enum EditAction {
    /// Ask the operator whether to save and edit the rules.
    Prompt,
    /// Save the document.
    Save,
    /// Open the editor on the document and wait for it.
    OpenEditor,
    /// Read the document again.
    Reload,
    /// Print the ledger.
    Render,
}

/// Whether an answer agrees to the edit: `yes` or `y`, whatever whitespace is
/// around it.
pub open spec fn agrees(answer: Seq<char>) -> bool {
    trimmed(answer) == "yes"@ || trimmed(answer) == "y"@
}

/// The state after `report` in `state`, and what to do next; `None` where the
/// import ends without output: the operator did not agree, or the report is not
/// one that the state waits for.
pub open spec fn next(state: EditState, report: Report) -> Option<(EditState, EditAction)> {
    match (state, report) {
        (EditState::Start, Report::Merged { dirty }) => if dirty {
            Some((EditState::Prompting, EditAction::Prompt))
        } else {
            Some((EditState::Done, EditAction::Render))
        },
        (EditState::Prompting, Report::Answered { answer }) => if agrees(answer) {
            Some((EditState::Saving, EditAction::Save))
        } else {
            None
        },
        (EditState::Saving, Report::Saved) => Some((EditState::Editing, EditAction::OpenEditor)),
        (EditState::Editing, Report::Edited) => Some((EditState::Reloading, EditAction::Reload)),
        (EditState::Reloading, Report::Reloaded) => Some((EditState::Done, EditAction::Render)),
        _ => None,
    }
}

/// Whether `answer` agrees to the edit.
pub fn confirms(answer: &str) -> (r: bool)
    ensures
        r == agrees(answer@),
{
    let word = trim(answer);
    text_eq(word.as_str(), "yes") || text_eq(word.as_str(), "y")
}

/// Takes the caller's report and says what to do next. Fails with
/// [`Error::Aborted`] where the import ends without output.
pub fn advance(state: EditState, event: &EditEvent) -> (r: Result<(EditState, EditAction), Error>)
    ensures
        match r {
            Ok(step) => next(state, event@) == Some(step),
            Err(e) => next(state, event@) is None && e@ == Failure::Aborted,
        },
{
    match state {
        EditState::Start => match event {
            EditEvent::Merged { dirty } => if *dirty {
                Ok((EditState::Prompting, EditAction::Prompt))
            } else {
                Ok((EditState::Done, EditAction::Render))
            },
            _ => Err(Error::Aborted),
        },
        EditState::Prompting => match event {
            EditEvent::Answered { answer } => if confirms(answer.as_str()) {
                Ok((EditState::Saving, EditAction::Save))
            } else {
                Err(Error::Aborted)
            },
            _ => Err(Error::Aborted),
        },
        EditState::Saving => match event {
            EditEvent::Saved => Ok((EditState::Editing, EditAction::OpenEditor)),
            _ => Err(Error::Aborted),
        },
        EditState::Editing => match event {
            EditEvent::Edited => Ok((EditState::Reloading, EditAction::Reload)),
            _ => Err(Error::Aborted),
        },
        EditState::Reloading => match event {
            EditEvent::Reloaded => Ok((EditState::Done, EditAction::Render)),
            _ => Err(Error::Aborted),
        },
        EditState::Done => Err(Error::Aborted),
    }
}

/// The ledger is printed only when the merge added no name, or after the operator
/// agreed and the document was saved, edited and read again, in that order.
pub proof fn lemma_render_is_earned(state: EditState, report: Report)
    ensures
        next(state, report) matches Some(step) ==> {
            &&& step.1 == EditAction::Render ==> (state == EditState::Start && report
                == Report::Merged { dirty: false }) || (state == EditState::Reloading && report
                == Report::Reloaded)
            &&& step.0 == EditState::Reloading ==> state == EditState::Editing
            &&& step.0 == EditState::Editing ==> state == EditState::Saving
            &&& step.0 == EditState::Saving ==> state == EditState::Prompting && report is Answered
                && agrees(report->answer)
        },
{
}

} // verus!
