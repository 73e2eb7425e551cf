//! The organizer as a state machine over plain values: what it holds, the
//! events it is told of, the operations it asks for, and the step from one
//! state to the next.

use vstd::prelude::*;
use crate::catalog::{recorded, GroupModel};
use crate::label::label_of;

verus! {

/// Why construction or a run failed.
pub ghost enum ErrorModel {
    NotFound,
    Io { message: Seq<char> },
}

/// Where the organizer stands in a run.
pub ghost enum PhaseModel {
    /// No run was started yet.
    Idle,
    /// A run is under way, and the next entry of the listing is awaited.
    Scanning,
    /// The file `name` awaits the answer whether directory `label` exists.
    Checking { name: Seq<char>, label: Seq<char> },
    /// The file `name` awaits the creation of directory `label`.
    Creating { name: Seq<char>, label: Seq<char> },
    /// The file `name` awaits its move into directory `label`.
    Moving { name: Seq<char>, label: Seq<char> },
    /// The last run went through the whole listing.
    Finished,
    /// The last run was given up.
    Failed,
}

/// What the caller reports.
pub ghost enum EventModel {
    Start,
    Entry { name: Seq<char>, is_dir: bool },
    End,
    DirChecked { exists: bool },
    Done,
    Failed { message: Seq<char> },
}

/// What the organizer asks the caller to do next.
pub ghost enum ActionModel {
    ReadDir,
    NextEntry,
    CheckDir { label: Seq<char> },
    CreateDir { label: Seq<char> },
    Move { name: Seq<char>, label: Seq<char> },
    Finish,
    Abort { error: ErrorModel },
}

/// An organizer: the directory it works on, the files moved in the current
/// run, and the phase of that run.
pub ghost struct OrganizerModel {
    pub source_dir: Seq<char>,
    pub groups: Seq<GroupModel>,
    pub phase: PhaseModel,
}

/// The message of the error that answers an event nobody asked for.
pub open spec fn unexpected_event_message() -> Seq<char> {
    "unexpected event"@
}

/// The message of the error for a path that does not exist.
pub open spec fn not_found_message() -> Seq<char> {
    "Source directory does not exist"@
}

/// The text that describes `error`.
pub open spec fn message_of(error: ErrorModel) -> Seq<char> {
    match error {
        ErrorModel::NotFound => not_found_message(),
        ErrorModel::Io { message } => message,
    }
}

/// The organizer for `source_dir` before its first run.
pub open spec fn fresh(source_dir: Seq<char>) -> OrganizerModel {
    OrganizerModel { source_dir, groups: Seq::empty(), phase: PhaseModel::Idle }
}

/// No run is under way, so that one can start.
pub open spec fn at_rest(phase: PhaseModel) -> bool {
    phase is Idle || phase is Finished || phase is Failed
}

/// A run is under way, and the outcome of some operation is awaited.
pub open spec fn in_run(phase: PhaseModel) -> bool {
    !at_rest(phase)
}

/// `state` in another phase.
pub open spec fn moved_to(state: OrganizerModel, phase: PhaseModel) -> OrganizerModel {
    OrganizerModel { phase, ..state }
}

/// `state` after its run was given up: nothing of the run is reported.
pub open spec fn given_up(state: OrganizerModel) -> OrganizerModel {
    OrganizerModel { groups: Seq::empty(), phase: PhaseModel::Failed, ..state }
}

/// The answer to an event that was not asked for.
pub open spec fn refusal() -> ActionModel {
    ActionModel::Abort { error: ErrorModel::Io { message: unexpected_event_message() } }
}

/// One step of the organizer: the state after `event`, and the operation
/// that the caller is to carry out next.
///
/// A run starts from rest, with an empty record, by asking for the listing.
/// Each entry of the listing is either a directory, which is passed over, or
/// a file, which is moved into the directory named by its label once that
/// directory is known to exist, and then recorded. A failure reported during
/// a run gives the run up with that failure's message; so does an event that
/// was not asked for, with a message of its own.
pub open spec fn next(state: OrganizerModel, event: EventModel) -> (OrganizerModel, ActionModel) {
    match (state.phase, event) {
        (PhaseModel::Idle, EventModel::Start)
        | (PhaseModel::Finished, EventModel::Start)
        | (PhaseModel::Failed, EventModel::Start) => (
            OrganizerModel { groups: Seq::empty(), phase: PhaseModel::Scanning, ..state },
            ActionModel::ReadDir,
        ),
        (PhaseModel::Scanning, EventModel::Entry { name, is_dir }) => if is_dir {
            (state, ActionModel::NextEntry)
        } else {
            let label = label_of(name);
            (moved_to(state, PhaseModel::Checking { name, label }), ActionModel::CheckDir { label })
        },
        (PhaseModel::Scanning, EventModel::End) => (
            moved_to(state, PhaseModel::Finished),
            ActionModel::Finish,
        ),
        (PhaseModel::Checking { name, label }, EventModel::DirChecked { exists }) => if exists {
            (moved_to(state, PhaseModel::Moving { name, label }), ActionModel::Move { name, label })
        } else {
            (
                moved_to(state, PhaseModel::Creating { name, label }),
                ActionModel::CreateDir { label },
            )
        },
        (PhaseModel::Creating { name, label }, EventModel::Done) => (
            moved_to(state, PhaseModel::Moving { name, label }),
            ActionModel::Move { name, label },
        ),
        (PhaseModel::Moving { name, label }, EventModel::Done) => (
            OrganizerModel {
                groups: recorded(state.groups, label, name),
                phase: PhaseModel::Scanning,
                ..state
            },
            ActionModel::NextEntry,
        ),
        (_, EventModel::Failed { message }) => if in_run(state.phase) {
            (given_up(state), ActionModel::Abort { error: ErrorModel::Io { message } })
        } else {
            (given_up(state), refusal())
        },
        _ => (given_up(state), refusal()),
    }
}

} // verus!
