//! What goes wrong around the router, and what is done about it. No failure
//! stops the bot and none is tried again: a failed action is reported on the
//! diagnostic output, or answered to the user, and the next event is routed.

use crate::event::{Action, ActionView};
use vstd::prelude::*;
use vstd::string::*;

verus! {

/// The kinds of failure.
#[derive(Clone, Copy, Debug, PartialEq, Eq, Structural)]
pub enum ErrorKind {
    /// A response or a private message could not be delivered.
    TransportSendFailure,
    /// The message log did not take an entry.
    StoreWriteFailure,
    /// A voice command came in a state that does not allow it.
    SessionConflict,
    /// The platform did not take the declaration of a command.
    RemoteDeclarationFailure,
    /// A command or an interaction names no known command.
    UnknownCommand,
}

/// Who learns of a failure.
#[derive(Clone, Copy, Debug, PartialEq, Eq, Structural)]
pub enum Disposition {
    /// The operator, on the diagnostic output; the user is told nothing.
    Report,
    /// The user, with a text that explains it.
    Respond,
}

/// Who learns of a failure of this kind.
pub open spec fn disposition_of(kind: ErrorKind) -> Disposition {
    match kind {
        ErrorKind::TransportSendFailure => Disposition::Report,
        ErrorKind::StoreWriteFailure => Disposition::Report,
        ErrorKind::RemoteDeclarationFailure => Disposition::Report,
        ErrorKind::SessionConflict => Disposition::Respond,
        ErrorKind::UnknownCommand => Disposition::Respond,
    }
}

/// The kind of failure that it is when carrying out `action` fails; `None`
/// for an action that reaches no collaborator.
pub open spec fn failure_kind_of(action: ActionView) -> Option<ErrorKind> {
    match action {
        ActionView::Send { .. } => Some(ErrorKind::TransportSendFailure),
        ActionView::SendDirect { .. } => Some(ErrorKind::TransportSendFailure),
        ActionView::Respond { .. } => Some(ErrorKind::TransportSendFailure),
        ActionView::Append { .. } => Some(ErrorKind::StoreWriteFailure),
        ActionView::Declare { .. } => Some(ErrorKind::RemoteDeclarationFailure),
        ActionView::Report { .. } => None,
        ActionView::Join { .. } => None,
        ActionView::Leave { .. } => None,
    }
}

/// The words that a report of a failed `action` begins with.
pub open spec fn report_head(action: ActionView) -> Seq<char> {
    match action {
        ActionView::Respond { .. } => "Cannot respond to slash command: "@,
        ActionView::Declare { .. } => "Cannot declare slash command: "@,
        _ => "Error sending message: "@,
    }
}

/// The diagnostic line for a failed `action`: its head, then the reason.
pub open spec fn failure_line(action: ActionView, why: Seq<char>) -> Option<Seq<char>> {
    if failure_kind_of(action) is Some {
        Some(report_head(action) + why)
    } else {
        None
    }
}

impl ErrorKind {
    /// Who learns of a failure of this kind.
    pub fn disposition(&self) -> (d: Disposition)
        ensures
            d == disposition_of(*self),
    {
        match self {
            ErrorKind::TransportSendFailure => Disposition::Report,
            ErrorKind::StoreWriteFailure => Disposition::Report,
            ErrorKind::RemoteDeclarationFailure => Disposition::Report,
            ErrorKind::SessionConflict => Disposition::Respond,
            ErrorKind::UnknownCommand => Disposition::Respond,
        }
    }
}

/// The kind of failure that it is when carrying out `action` fails.
pub fn failure_kind(action: &Action) -> (kind: Option<ErrorKind>)
    ensures
        kind == failure_kind_of(action@),
{
    match action {
        Action::Send { .. } => Some(ErrorKind::TransportSendFailure),
        Action::SendDirect { .. } => Some(ErrorKind::TransportSendFailure),
        Action::Respond { .. } => Some(ErrorKind::TransportSendFailure),
        Action::Append { .. } => Some(ErrorKind::StoreWriteFailure),
        Action::Declare { .. } => Some(ErrorKind::RemoteDeclarationFailure),
        Action::Report { .. } => None,
        Action::Join { .. } => None,
        Action::Leave { .. } => None,
    }
}

/// The line to write to the diagnostic output when carrying out `action`
/// has failed for the reason `why`.
pub fn failure_report(action: &Action, why: &str) -> (line: Option<String>)
    ensures
        match line {
            Some(text) => failure_line(action@, why@) == Some(text@),
            None => failure_line(action@, why@) is None,
        },
{
    let head = match action {
        Action::Send { .. } | Action::SendDirect { .. } | Action::Append { .. } => {
            "Error sending message: "
        },
        Action::Respond { .. } => "Cannot respond to slash command: ",
        Action::Declare { .. } => "Cannot declare slash command: ",
        _ => {
            return None;
        },
    };
    let mut text = String::from_str(head);
    text.append(why);
    Some(text)
}

/// A failure of an action that the router plans is reported to the operator:
/// the user is told nothing of it.
pub proof fn lemma_failed_actions_are_reported(action: ActionView)
    requires
        failure_kind_of(action) is Some,
    ensures
        disposition_of(failure_kind_of(action)->0) == Disposition::Report,
{
}

} // verus!
