//! Whole runs of the organizer: what it is told and what it asks for, from
//! the start of a run to its end, when no operation fails.

use vstd::prelude::*;
use crate::catalog::{recorded, GroupModel};
use crate::label::label_of;
use crate::model::{next, ActionModel, EventModel, OrganizerModel};

verus! {

/// One entry of a directory listing.
pub ghost struct EntryModel {
    pub name: Seq<char>,
    pub is_dir: bool,
}

/// The state after the organizer was told `events`, one after the other.
pub open spec fn after(state: OrganizerModel, events: Seq<EventModel>) -> OrganizerModel
    decreases events.len(),
{
    if events.len() == 0 {
        state
    } else {
        next(after(state, events.drop_last()), events.last()).0
    }
}

/// The operations the organizer asked for while it was told `events`, one
/// for each event.
pub open spec fn answers(state: OrganizerModel, events: Seq<EventModel>) -> Seq<ActionModel>
    decreases events.len(),
{
    if events.len() == 0 {
        Seq::empty()
    } else {
        answers(state, events.drop_last()).push(
            next(after(state, events.drop_last()), events.last()).1,
        )
    }
}

/// What a caller reports about one entry when every operation succeeds: the
/// entry itself and, for a file, whether its directory exists, that the
/// directory was created where it did not, and that the file was moved.
pub open spec fn entry_events(entry: EntryModel, exists: bool) -> Seq<EventModel> {
    let found = EventModel::Entry { name: entry.name, is_dir: entry.is_dir };
    if entry.is_dir {
        seq![found]
    } else if exists {
        seq![found, EventModel::DirChecked { exists: true }, EventModel::Done]
    } else {
        seq![found, EventModel::DirChecked { exists: false }, EventModel::Done, EventModel::Done]
    }
}

/// What the organizer asks for in answer to [`entry_events`]: nothing but
/// the next entry for a directory; for a file the check of its directory,
/// the creation of that directory where it is missing, the move, and then
/// the next entry.
pub open spec fn entry_actions(entry: EntryModel, exists: bool) -> Seq<ActionModel> {
    let label = label_of(entry.name);
    let check = ActionModel::CheckDir { label };
    let relocate = ActionModel::Move { name: entry.name, label };
    if entry.is_dir {
        seq![ActionModel::NextEntry]
    } else if exists {
        seq![check, relocate, ActionModel::NextEntry]
    } else {
        seq![check, ActionModel::CreateDir { label }, relocate, ActionModel::NextEntry]
    }
}

/// The reports about all of `entries`, in listing order. `dir_exists(i)`
/// tells whether the directory for entry `i` existed when the organizer
/// asked.
pub open spec fn scan_events(
    entries: Seq<EntryModel>,
    dir_exists: spec_fn(int) -> bool,
) -> Seq<EventModel>
    decreases entries.len(),
{
    if entries.len() == 0 {
        Seq::empty()
    } else {
        scan_events(entries.drop_last(), dir_exists) + entry_events(
            entries.last(),
            dir_exists(entries.len() - 1),
        )
    }
}

/// The operations asked for in answer to [`scan_events`].
pub open spec fn scan_actions(
    entries: Seq<EntryModel>,
    dir_exists: spec_fn(int) -> bool,
) -> Seq<ActionModel>
    decreases entries.len(),
{
    if entries.len() == 0 {
        Seq::empty()
    } else {
        scan_actions(entries.drop_last(), dir_exists) + entry_actions(
            entries.last(),
            dir_exists(entries.len() - 1),
        )
    }
}

/// Everything a caller reports in a run over `entries` in which no
/// operation fails.
pub open spec fn run_events(
    entries: Seq<EntryModel>,
    dir_exists: spec_fn(int) -> bool,
) -> Seq<EventModel> {
    seq![EventModel::Start] + scan_events(entries, dir_exists) + seq![EventModel::End]
}

/// Everything the organizer asks for in answer to [`run_events`].
pub open spec fn run_actions(
    entries: Seq<EntryModel>,
    dir_exists: spec_fn(int) -> bool,
) -> Seq<ActionModel> {
    seq![ActionModel::ReadDir] + scan_actions(entries, dir_exists) + seq![ActionModel::Finish]
}

/// `groups` after every file of `entries` was recorded under its label, in
/// listing order.
pub open spec fn sorted_into(groups: Seq<GroupModel>, entries: Seq<EntryModel>) -> Seq<GroupModel>
    decreases entries.len(),
{
    if entries.len() == 0 {
        groups
    } else {
        let before = sorted_into(groups, entries.drop_last());
        let entry = entries.last();
        if entry.is_dir {
            before
        } else {
            recorded(before, label_of(entry.name), entry.name)
        }
    }
}

/// The test for the entries that are sorted under `label`: the files whose
/// label it is.
pub open spec fn goes_under(label: Seq<char>) -> spec_fn(EntryModel) -> bool {
    |entry: EntryModel| !entry.is_dir && label_of(entry.name) == label
}

/// An entry's name.
pub open spec fn name_of() -> spec_fn(EntryModel) -> Seq<char> {
    |entry: EntryModel| entry.name
}

/// The names of the files of `entries` whose label is `label`, in listing
/// order.
pub open spec fn moved_names(entries: Seq<EntryModel>, label: Seq<char>) -> Seq<Seq<char>> {
    entries.filter(goes_under(label)).map_values(name_of())
}

/// Telling the organizer one more event is one more step.
pub proof fn lemma_one_more(state: OrganizerModel, events: Seq<EventModel>, event: EventModel)
    ensures
        after(state, events.push(event)) == next(after(state, events), event).0,
        answers(state, events.push(event)) == answers(state, events).push(
            next(after(state, events), event).1,
        ),
{
    assert(events.push(event).drop_last() =~= events);
}

/// Telling the organizer two runs of events in a row is telling it the
/// first, and then the second from the state the first has led to.
pub proof fn lemma_in_a_row(state: OrganizerModel, first: Seq<EventModel>, second: Seq<EventModel>)
    ensures
        after(state, first + second) == after(after(state, first), second),
        answers(state, first + second) == answers(state, first) + answers(
            after(state, first),
            second,
        ),
    decreases second.len(),
{
    if second.len() == 0 {
        assert(first + second =~= first);
        assert(answers(state, first) + Seq::<ActionModel>::empty() =~= answers(state, first));
    } else {
        lemma_in_a_row(state, first, second.drop_last());
        assert((first + second).drop_last() =~= first + second.drop_last());
        assert((first + second).last() == second.last());
        let so_far = answers(state, first) + answers(after(state, first), second.drop_last());
        let asked = next(after(after(state, first), second.drop_last()), second.last()).1;
        assert(so_far.push(asked) =~= answers(state, first) + answers(
            after(state, first),
            second,
        ));
    }
}

} // verus!
