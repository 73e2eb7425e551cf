//! The organizer itself: construction, and the step that turns each event
//! into the next operation.

use vstd::prelude::*;
use vstd::string::*;
use crate::catalog::{well_formed, OrganizedFiles};
use crate::label::extension_label;
use crate::summary::{heading, render, summary_text};
use crate::model::{
    fresh, message_of, next, refusal, ActionModel, ErrorModel, EventModel, OrganizerModel,
    PhaseModel,
};

verus! {

/// Why construction or a run failed.
#[derive(Debug, PartialEq, Eq)]
pub enum OrganizeError {
    /// The source path does not exist.
    NotFound,
    /// An operation on the directory failed; `message` says which and why.
    Io { message: String },
}

impl View for OrganizeError {
    type V = ErrorModel;

    open spec fn view(&self) -> ErrorModel {
        match self {
            OrganizeError::NotFound => ErrorModel::NotFound,
            OrganizeError::Io { message } => ErrorModel::Io { message: message@ },
        }
    }
}

impl OrganizeError {
    /// The text that describes the error to a reader.
    pub fn message(&self) -> (text: String)
        ensures
            text@ == message_of(self@),
    {
        match self {
            OrganizeError::NotFound => String::from_str("Source directory does not exist"),
            OrganizeError::Io { message } => message.clone(),
        }
    }
}

/// What the caller reports to the organizer.
#[derive(Debug, PartialEq, Eq)]
pub enum Event {
    /// A run is to begin.
    Start,
    /// The listing gave its next entry: its file name, and whether it is a
    /// directory.
    Entry { name: String, is_dir: bool },
    /// The listing has no further entry.
    End,
    /// The answer to [`Action::CheckDir`].
    DirChecked { exists: bool },
    /// The directory was created, or the file was moved.
    Done,
    /// The operation asked for failed.
    Failed { message: String },
}

impl View for Event {
    type V = EventModel;

    open spec fn view(&self) -> EventModel {
        match self {
            Event::Start => EventModel::Start,
            Event::Entry { name, is_dir } => EventModel::Entry { name: name@, is_dir: *is_dir },
            Event::End => EventModel::End,
            Event::DirChecked { exists } => EventModel::DirChecked { exists: *exists },
            Event::Done => EventModel::Done,
            Event::Failed { message } => EventModel::Failed { message: message@ },
        }
    }
}

/// What the organizer asks its caller to do. Every name is relative to the
/// source directory. The caller answers each operation with one event.
#[derive(Debug, PartialEq, Eq)]
pub enum Action {
    /// List the source directory and report its first entry: `Entry`, `End`
    /// or `Failed`.
    ReadDir,
    /// Report the next entry of the listing: `Entry`, `End` or `Failed`.
    NextEntry,
    /// Report whether anything called `label` exists in the source
    /// directory: `DirChecked`.
    CheckDir { label: String },
    /// Create the directory `label` in the source directory: `Done` or
    /// `Failed`.
    CreateDir { label: String },
    /// Move the file `name` of the source directory into its subdirectory
    /// `label`, under the same name: `Done` or `Failed`. The organizer does
    /// not look for a file of that name in the subdirectory: whether one
    /// that is there is replaced, or the move fails, is what renaming does
    /// on the platform.
    Move { name: String, label: String },
    /// The run is complete. Nothing is to be reported.
    Finish,
    /// The run was given up with `error`. Nothing is to be reported.
    Abort { error: OrganizeError },
}

impl View for Action {
    type V = ActionModel;

    open spec fn view(&self) -> ActionModel {
        match self {
            Action::ReadDir => ActionModel::ReadDir,
            Action::NextEntry => ActionModel::NextEntry,
            Action::CheckDir { label } => ActionModel::CheckDir { label: label@ },
            Action::CreateDir { label } => ActionModel::CreateDir { label: label@ },
            Action::Move { name, label } => ActionModel::Move { name: name@, label: label@ },
            Action::Finish => ActionModel::Finish,
            Action::Abort { error } => ActionModel::Abort { error: error@ },
        }
    }
}

enum Phase {
    Idle,
    Scanning,
    Checking { name: String, label: String },
    Creating { name: String, label: String },
    Moving { name: String, label: String },
    Finished,
    Failed,
}

impl View for Phase {
    type V = PhaseModel;

    closed spec fn view(&self) -> PhaseModel {
        match self {
            Phase::Idle => PhaseModel::Idle,
            Phase::Scanning => PhaseModel::Scanning,
            Phase::Checking { name, label } => PhaseModel::Checking { name: name@, label: label@ },
            Phase::Creating { name, label } => PhaseModel::Creating { name: name@, label: label@ },
            Phase::Moving { name, label } => PhaseModel::Moving { name: name@, label: label@ },
            Phase::Finished => PhaseModel::Finished,
            Phase::Failed => PhaseModel::Failed,
        }
    }
}

/// Sorts the files of one directory into subdirectories named after their
/// extensions, one step at a time.
pub struct FileOrganizer {
    source_dir: String,
    organized_files: OrganizedFiles,
    phase: Phase,
}

impl View for FileOrganizer {
    type V = OrganizerModel;

    closed spec fn view(&self) -> OrganizerModel {
        OrganizerModel {
            source_dir: self.source_dir@,
            groups: self.organized_files@,
            phase: self.phase@,
        }
    }
}

fn unexpected() -> (action: Action)
    ensures
        action@ == refusal(),
{
    Action::Abort { error: OrganizeError::Io { message: String::from_str("unexpected event") } }
}

impl FileOrganizer {
    /// An organizer for the directory at `path`. `exists` tells whether
    /// anything exists at that path; where nothing does, there is no
    /// organizer.
    pub fn new(path: &str, exists: bool) -> (made: Result<FileOrganizer, OrganizeError>)
        ensures
            exists ==> made is Ok && made->Ok_0@ == fresh(path@),
            !exists ==> made is Err && made->Err_0@ == ErrorModel::NotFound,
    {
        if !exists {
            return Err(OrganizeError::NotFound);
        }
        Ok(
            FileOrganizer {
                source_dir: String::from_str(path),
                organized_files: OrganizedFiles::new(),
                phase: Phase::Idle,
            },
        )
    }

    /// The path of the directory that is organized.
    pub fn source_dir(&self) -> (path: &str)
        ensures
            path@ == self@.source_dir,
    {
        self.source_dir.as_str()
    }

    /// The files moved in the current run so far, or in the last run where
    /// none is under way.
    pub fn organized_files(&self) -> (files: &OrganizedFiles)
        ensures
            files@ == self@.groups,
            well_formed(self@.groups),
    {
        proof {
            use_type_invariant(&self.organized_files);
        }
        &self.organized_files
    }

    /// The summary that is printed after a run: the heading, and for each
    /// label a section that lists the files moved under it.
    pub fn print_summary(&self) -> (text: String)
        ensures
            text@ == summary_text(self@.groups),
            self@.groups.len() == 0 ==> text@ == heading(),
    {
        render(&self.organized_files)
    }

    /// Takes the report of what happened in the directory and answers with
    /// the operation to carry out next, as [`next`] lays down.
    pub fn organize(&mut self, event: Event) -> (action: Action)
        ensures
            final(self)@ == next(old(self)@, event@).0,
            action@ == next(old(self)@, event@).1,
            well_formed(final(self)@.groups),
    {
        let mut phase = Phase::Failed;
        core::mem::swap(&mut self.phase, &mut phase);
        let action = match (phase, event) {
            (Phase::Idle, Event::Start)
            | (Phase::Finished, Event::Start)
            | (Phase::Failed, Event::Start) => {
                self.organized_files = OrganizedFiles::new();
                self.phase = Phase::Scanning;
                Action::ReadDir
            },
            (Phase::Scanning, Event::Entry { name, is_dir }) => {
                if is_dir {
                    self.phase = Phase::Scanning;
                    Action::NextEntry
                } else {
                    let label = extension_label(name.as_str());
                    let asked = label.clone();
                    self.phase = Phase::Checking { name, label };
                    Action::CheckDir { label: asked }
                }
            },
            (Phase::Scanning, Event::End) => {
                self.phase = Phase::Finished;
                Action::Finish
            },
            (Phase::Checking { name, label }, Event::DirChecked { exists }) => {
                if exists {
                    let action = Action::Move { name: name.clone(), label: label.clone() };
                    self.phase = Phase::Moving { name, label };
                    action
                } else {
                    let action = Action::CreateDir { label: label.clone() };
                    self.phase = Phase::Creating { name, label };
                    action
                }
            },
            (Phase::Creating { name, label }, Event::Done) => {
                let action = Action::Move { name: name.clone(), label: label.clone() };
                self.phase = Phase::Moving { name, label };
                action
            },
            (Phase::Moving { name, label }, Event::Done) => {
                self.organized_files.record(label, name);
                self.phase = Phase::Scanning;
                Action::NextEntry
            },
            (Phase::Scanning, Event::Failed { message })
            | (Phase::Checking { .. }, Event::Failed { message })
            | (Phase::Creating { .. }, Event::Failed { message })
            | (Phase::Moving { .. }, Event::Failed { message }) => {
                self.organized_files = OrganizedFiles::new();
                Action::Abort { error: OrganizeError::Io { message } }
            },
            _ => {
                self.organized_files = OrganizedFiles::new();
                unexpected()
            },
        };
        proof {
            use_type_invariant(&self.organized_files);
        }
        action
    }
}

} // verus!
