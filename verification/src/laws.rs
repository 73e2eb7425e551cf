//! What holds of every run of the organizer.

use vstd::prelude::*;
use crate::catalog::{files_under, has_label, lemma_recorded, slot, well_formed, GroupModel};
use crate::label::{
    extension_of, is_last_dot, label_of, lemma_last_dot_unique, lowercased, unknown_label,
};
use crate::model::{
    at_rest, fresh, given_up, in_run, next, ActionModel, ErrorModel, EventModel, OrganizerModel,
    PhaseModel,
};
use crate::run::{
    after, answers, entry_actions, entry_events, goes_under, lemma_in_a_row, lemma_one_more,
    moved_names, name_of, run_actions, run_events, scan_actions, scan_events, sorted_into,
    EntryModel,
};

verus! {

/// A name that ends in a `.` and an extension without `.` has that
/// extension, in lower case, as its label, whatever stands before the `.`.
pub proof fn law_extension_decides_label(stem: Seq<char>, ext: Seq<char>)
    requires
        !ext.contains('.'),
    ensures
        extension_of(stem + seq!['.'] + ext) == Some(ext),
        label_of(stem + seq!['.'] + ext) == lowercased(ext),
{
    let name = stem + seq!['.'] + ext;
    let dot = stem.len() as int;
    assert(name[dot] == '.');
    assert forall|j: int| dot < j < name.len() implies name[j] != '.' by {
        assert(name[j] == ext[j - dot - 1]);
        assert(ext.contains(ext[j - dot - 1]));
    }
    assert(is_last_dot(name, dot));
    lemma_last_dot_unique(name, dot);
    assert(name.skip(dot + 1) =~= ext);
}

/// A name without `.` has the label `"unknown"`.
pub proof fn law_no_dot_means_unknown(name: Seq<char>)
    requires
        !name.contains('.'),
    ensures
        extension_of(name) is None,
        label_of(name) == unknown_label(),
{
}

proof fn lemma_entry(state: OrganizerModel, entry: EntryModel, exists: bool)
    requires
        state.phase is Scanning,
    ensures
        after(state, entry_events(entry, exists)) == (OrganizerModel {
            groups: sorted_into(state.groups, seq![entry]),
            ..state
        }),
        answers(state, entry_events(entry, exists)) == entry_actions(entry, exists),
{
    let none = Seq::<EventModel>::empty();
    let found = EventModel::Entry { name: entry.name, is_dir: entry.is_dir };
    let checked = EventModel::DirChecked { exists: exists };
    let done = EventModel::Done;
    assert(sorted_into(state.groups, seq![entry].drop_last()) == state.groups);
    lemma_one_more(state, none, found);
    if entry.is_dir {
        assert(entry_events(entry, exists) =~= none.push(found));
        assert(answers(state, none.push(found)) =~= entry_actions(entry, exists));
    } else {
        lemma_one_more(state, none.push(found), checked);
        lemma_one_more(state, none.push(found).push(checked), done);
        if exists {
            assert(entry_events(entry, exists) =~= none.push(found).push(checked).push(done));
            assert(answers(state, none.push(found).push(checked).push(done)) =~= entry_actions(
                entry,
                exists,
            ));
        } else {
            lemma_one_more(state, none.push(found).push(checked).push(done), done);
            assert(entry_events(entry, exists) =~= none.push(found).push(checked).push(
                done,
            ).push(done));
            assert(answers(state, none.push(found).push(checked).push(done).push(done))
                =~= entry_actions(entry, exists));
        }
    }
}

proof fn lemma_scan(
    state: OrganizerModel,
    entries: Seq<EntryModel>,
    dir_exists: spec_fn(int) -> bool,
)
    requires
        state.phase is Scanning,
    ensures
        after(state, scan_events(entries, dir_exists)) == (OrganizerModel {
            groups: sorted_into(state.groups, entries),
            ..state
        }),
        answers(state, scan_events(entries, dir_exists)) == scan_actions(entries, dir_exists),
    decreases entries.len(),
{
    if entries.len() > 0 {
        let earlier = entries.drop_last();
        let there = dir_exists(entries.len() - 1);
        lemma_scan(state, earlier, dir_exists);
        let midway = after(state, scan_events(earlier, dir_exists));
        lemma_in_a_row(
            state,
            scan_events(earlier, dir_exists),
            entry_events(entries.last(), there),
        );
        lemma_entry(midway, entries.last(), there);
        assert(seq![entries.last()].drop_last() =~= Seq::<EntryModel>::empty());
        assert(sorted_into(midway.groups, seq![entries.last()].drop_last()) == midway.groups);
    }
}

/// A run from rest over any listing, in which no operation fails, asks for
/// exactly the operations of [`run_actions`] and ends finished, with the
/// files of the listing recorded and nothing else.
pub proof fn law_run_completes(
    state: OrganizerModel,
    entries: Seq<EntryModel>,
    dir_exists: spec_fn(int) -> bool,
)
    requires
        at_rest(state.phase),
    ensures
        after(state, run_events(entries, dir_exists)) == (OrganizerModel {
            source_dir: state.source_dir,
            groups: sorted_into(Seq::empty(), entries),
            phase: PhaseModel::Finished,
        }),
        answers(state, run_events(entries, dir_exists)) == run_actions(entries, dir_exists),
{
    let start = seq![EventModel::Start];
    let end = seq![EventModel::End];
    let none = Seq::<EventModel>::empty();
    lemma_one_more(state, none, EventModel::Start);
    assert(start =~= none.push(EventModel::Start));
    let begun = after(state, start);
    assert(begun.phase is Scanning);
    assert(answers(state, start) =~= seq![ActionModel::ReadDir]);
    lemma_scan(begun, entries, dir_exists);
    lemma_in_a_row(state, start, scan_events(entries, dir_exists));
    let scanned = after(state, start + scan_events(entries, dir_exists));
    lemma_one_more(scanned, none, EventModel::End);
    assert(end =~= none.push(EventModel::End));
    assert(answers(scanned, end) =~= seq![ActionModel::Finish]);
    lemma_in_a_row(state, start + scan_events(entries, dir_exists), end);
}

proof fn lemma_moved_names_push(entries: Seq<EntryModel>, entry: EntryModel, label: Seq<char>)
    ensures
        moved_names(entries.push(entry), label) == if !entry.is_dir && label_of(entry.name)
            == label {
            moved_names(entries, label).push(entry.name)
        } else {
            moved_names(entries, label)
        },
{
    entries.lemma_filter_push(entry, goes_under(label));
    if !entry.is_dir && label_of(entry.name) == label {
        assert(entries.filter(goes_under(label)).push(entry).map_values(name_of())
            =~= entries.filter(goes_under(label)).map_values(name_of()).push(entry.name));
    }
}

proof fn lemma_moved_names_add(first: Seq<EntryModel>, second: Seq<EntryModel>, label: Seq<char>)
    ensures
        moved_names(first + second, label) == moved_names(first, label) + moved_names(
            second,
            label,
        ),
{
    Seq::filter_distributes_over_add(first, second, goes_under(label));
    assert((first.filter(goes_under(label)) + second.filter(goes_under(label))).map_values(
        name_of(),
    ) =~= moved_names(first, label) + moved_names(second, label));
}

proof fn lemma_sorted_into(groups: Seq<GroupModel>, entries: Seq<EntryModel>, label: Seq<char>)
    requires
        well_formed(groups),
    ensures
        well_formed(sorted_into(groups, entries)),
        files_under(sorted_into(groups, entries), label) == files_under(groups, label)
            + moved_names(entries, label),
    decreases entries.len(),
{
    if entries.len() == 0 {
        assert(entries.filter(goes_under(label)).len() == 0) by {
            entries.lemma_filter_len(goes_under(label));
        }
        assert(files_under(groups, label) + moved_names(entries, label) =~= files_under(
            groups,
            label,
        ));
    } else {
        let earlier = entries.drop_last();
        let entry = entries.last();
        lemma_sorted_into(groups, earlier, label);
        assert(entries =~= earlier.push(entry));
        lemma_moved_names_push(earlier, entry, label);
        if !entry.is_dir {
            lemma_recorded(sorted_into(groups, earlier), label_of(entry.name), entry.name, label);
        }
        let sum = files_under(groups, label) + moved_names(earlier, label);
        if !entry.is_dir && label_of(entry.name) == label {
            assert(sum.push(entry.name) =~= files_under(groups, label) + moved_names(
                entries,
                label,
            ));
        }
    }
}

/// After a run the record is well-formed; under each label it lists the
/// names of the files of the listing with that label, in listing order; and
/// it has a group for a label exactly if some file of the listing has it.
pub proof fn law_record_lists_files_by_label(entries: Seq<EntryModel>, label: Seq<char>)
    ensures
        well_formed(sorted_into(Seq::empty(), entries)),
        files_under(sorted_into(Seq::empty(), entries), label) == moved_names(entries, label),
        has_label(sorted_into(Seq::empty(), entries), label) <==> moved_names(entries, label).len()
            > 0,
{
    let none = Seq::<GroupModel>::empty();
    lemma_sorted_into(none, entries, label);
    assert(!has_label(none, label));
    assert(files_under(none, label) + moved_names(entries, label) =~= moved_names(entries, label));
    let groups = sorted_into(none, entries);
    if has_label(groups, label) {
        assert(groups[slot(groups, label)].files.len() > 0);
    }
}

/// Entry `i` of `entries` is a file with the label `label`.
pub open spec fn is_file_with(entries: Seq<EntryModel>, i: int, label: Seq<char>) -> bool {
    0 <= i < entries.len() && !entries[i].is_dir && label_of(entries[i].name) == label
}

/// `entries` lists a file whose label is `label`.
pub open spec fn lists_label(entries: Seq<EntryModel>, label: Seq<char>) -> bool {
    exists|i: int| is_file_with(entries, i, label)
}

/// `entries` lists a file whose label is `label`, and for which the caller
/// reported that no directory of that name existed.
pub open spec fn lacks_dir(
    entries: Seq<EntryModel>,
    dir_exists: spec_fn(int) -> bool,
    label: Seq<char>,
) -> bool {
    exists|i: int| #[trigger] is_file_with(entries, i, label) && !dir_exists(i)
}

/// `entries` lists a file called `name` whose label is `label`.
pub open spec fn lists_file(entries: Seq<EntryModel>, label: Seq<char>, name: Seq<char>) -> bool {
    exists|i: int| #[trigger] is_file_with(entries, i, label) && entries[i].name == name
}

/// `action` passes on to the next entry, or deals with a file of `entries`:
/// it checks for the directory of the file's label, creates that directory
/// where `dir_exists` reports it missing, or moves the file there under its name.
pub open spec fn serves_a_file(
    entries: Seq<EntryModel>,
    dir_exists: spec_fn(int) -> bool,
    action: ActionModel,
) -> bool {
    match action {
        ActionModel::NextEntry => true,
        ActionModel::CheckDir { label } => lists_label(entries, label),
        ActionModel::CreateDir { label } => lacks_dir(entries, dir_exists, label),
        ActionModel::Move { name, label } => lists_file(entries, label, name),
        _ => false,
    }
}

proof fn lemma_serves_in_longer_listing(
    entries: Seq<EntryModel>,
    dir_exists: spec_fn(int) -> bool,
    action: ActionModel,
)
    requires
        entries.len() > 0,
        serves_a_file(entries.drop_last(), dir_exists, action),
    ensures
        serves_a_file(entries, dir_exists, action),
{
    let earlier = entries.drop_last();
    match action {
        ActionModel::CheckDir { label } => {
            let i = choose|i: int| is_file_with(earlier, i, label);
            assert(is_file_with(entries, i, label));
        },
        ActionModel::CreateDir { label } => {
            let i = choose|i: int| #[trigger] is_file_with(earlier, i, label) && !dir_exists(i);
            assert(is_file_with(entries, i, label));
        },
        ActionModel::Move { name, label } => {
            let i = choose|i: int|
                #[trigger] is_file_with(earlier, i, label) && earlier[i].name == name;
            assert(is_file_with(entries, i, label));
        },
        _ => {},
    }
}

proof fn lemma_scan_serves_files(entries: Seq<EntryModel>, dir_exists: spec_fn(int) -> bool)
    ensures
        forall|k: int|
            0 <= k < scan_actions(entries, dir_exists).len() ==> serves_a_file(
                entries,
                dir_exists,
                #[trigger] scan_actions(entries, dir_exists)[k],
            ),
    decreases entries.len(),
{
    if entries.len() > 0 {
        let earlier = entries.drop_last();
        let last = entries.len() - 1;
        let entry = entries.last();
        let asked = scan_actions(earlier, dir_exists);
        lemma_scan_serves_files(earlier, dir_exists);
        let all = scan_actions(entries, dir_exists);
        assert forall|k: int| 0 <= k < all.len() implies serves_a_file(
            entries,
            dir_exists,
            #[trigger] all[k],
        ) by {
            if k < asked.len() {
                assert(scan_actions(entries, dir_exists)[k] == asked[k]);
                lemma_serves_in_longer_listing(entries, dir_exists, asked[k]);
            } else {
                let for_last = entry_actions(entry, dir_exists(last));
                let action = for_last[k - asked.len()];
                assert(scan_actions(entries, dir_exists)[k] == action);
                if !entry.is_dir {
                    let label = label_of(entry.name);
                    assert(is_file_with(entries, last, label));
                    assert(lists_file(entries, label, entry.name));
                    assert(lists_label(entries, label));
                    if !dir_exists(last) {
                        assert(lacks_dir(entries, dir_exists, label));
                    }
                }
            }
        }
    }
}

proof fn lemma_scan_moves_file(entries: Seq<EntryModel>, dir_exists: spec_fn(int) -> bool, i: int)
    requires
        0 <= i < entries.len(),
        !entries[i].is_dir,
    ensures
        scan_actions(entries, dir_exists).contains(
            ActionModel::Move { name: entries[i].name, label: label_of(entries[i].name) },
        ),
    decreases entries.len(),
{
    let earlier = entries.drop_last();
    let asked = scan_actions(earlier, dir_exists);
    let all = scan_actions(entries, dir_exists);
    let relocate = ActionModel::Move { name: entries[i].name, label: label_of(entries[i].name) };
    if i < entries.len() - 1 {
        lemma_scan_moves_file(earlier, dir_exists, i);
        let k = choose|k: int| 0 <= k < asked.len() && asked[k] == relocate;
        assert(all[k] == relocate);
    } else {
        let for_last = entry_actions(entries.last(), dir_exists(i));
        let at = if dir_exists(i) {
            1int
        } else {
            2int
        };
        assert(for_last[at] == relocate);
        assert(all[asked.len() + at] == relocate);
    }
}

proof fn lemma_moved_names_are_files(entries: Seq<EntryModel>, label: Seq<char>, p: int)
    requires
        0 <= p < moved_names(entries, label).len(),
    ensures
        lists_file(entries, label, moved_names(entries, label)[p]),
    decreases entries.len(),
{
    if entries.len() == 0 {
        entries.lemma_filter_len(goes_under(label));
    } else {
        let earlier = entries.drop_last();
        let entry = entries.last();
        assert(entries =~= earlier.push(entry));
        lemma_moved_names_push(earlier, entry, label);
        if p < moved_names(earlier, label).len() {
            lemma_moved_names_are_files(earlier, label, p);
            let i = choose|i: int|
                #[trigger] is_file_with(earlier, i, label) && earlier[i].name == moved_names(
                    earlier,
                    label,
                )[p];
            assert(is_file_with(entries, i, label));
        } else {
            assert(is_file_with(entries, entries.len() - 1, label));
        }
    }
}

proof fn lemma_place_in_list(entries: Seq<EntryModel>, label: Seq<char>, i: int)
    requires
        is_file_with(entries, i, label),
    ensures
        moved_names(entries.take(i + 1), label) == moved_names(entries.take(i), label).push(
            entries[i].name,
        ),
        moved_names(entries, label) == moved_names(entries.take(i + 1), label) + moved_names(
            entries.skip(i + 1),
            label,
        ),
{
    assert(entries.take(i + 1) =~= entries.take(i).push(entries[i]));
    lemma_moved_names_push(entries.take(i), entries[i], label);
    assert(entries =~= entries.take(i + 1) + entries.skip(i + 1));
    lemma_moved_names_add(entries.take(i + 1), entries.skip(i + 1), label);
}

/// A file whose name ends in a `.` and an extension without `.` is moved,
/// under its own name, into the directory called by that extension in lower
/// case, and the record of the run lists it under that label.
pub proof fn law_file_goes_by_its_extension(
    entries: Seq<EntryModel>,
    dir_exists: spec_fn(int) -> bool,
    i: int,
    stem: Seq<char>,
    ext: Seq<char>,
)
    requires
        0 <= i < entries.len(),
        !entries[i].is_dir,
        entries[i].name == stem + seq!['.'] + ext,
        !ext.contains('.'),
    ensures
        run_actions(entries, dir_exists).contains(
            ActionModel::Move { name: entries[i].name, label: lowercased(ext) },
        ),
        has_label(sorted_into(Seq::empty(), entries), lowercased(ext)),
        files_under(sorted_into(Seq::empty(), entries), lowercased(ext)).contains(entries[i].name),
{
    let label = lowercased(ext);
    let relocate = ActionModel::Move { name: entries[i].name, label };
    law_extension_decides_label(stem, ext);
    lemma_scan_moves_file(entries, dir_exists, i);
    let asked = scan_actions(entries, dir_exists);
    let k = choose|k: int| 0 <= k < asked.len() && asked[k] == relocate;
    assert(run_actions(entries, dir_exists)[k + 1] == relocate);
    law_record_lists_files_by_label(entries, label);
    lemma_place_in_list(entries, label, i);
    let place = moved_names(entries.take(i), label).len() as int;
    assert(moved_names(entries, label)[place] == entries[i].name);
}

/// Directories are passed over: whatever a run asks for beyond the listing
/// itself serves a file of the listing, and every name in the record is the
/// name of a file of the listing, under that file's label. An entry that is
/// a directory is neither moved nor recorded, whatever it is called.
pub proof fn law_directories_are_passed_over(
    entries: Seq<EntryModel>,
    dir_exists: spec_fn(int) -> bool,
)
    ensures
        forall|k: int|
            0 < k < run_actions(entries, dir_exists).len() - 1 ==> serves_a_file(
                entries,
                dir_exists,
                #[trigger] run_actions(entries, dir_exists)[k],
            ),
        forall|label: Seq<char>, p: int|
            0 <= p < files_under(sorted_into(Seq::empty(), entries), label).len() ==> lists_file(
                entries,
                label,
                #[trigger] files_under(sorted_into(Seq::empty(), entries), label)[p],
            ),
{
    lemma_scan_serves_files(entries, dir_exists);
    assert forall|k: int| 0 < k < run_actions(entries, dir_exists).len() - 1 implies serves_a_file(
        entries,
        dir_exists,
        #[trigger] run_actions(entries, dir_exists)[k],
    ) by {
        assert(run_actions(entries, dir_exists)[k] == scan_actions(entries, dir_exists)[k - 1]);
    }
    assert forall|label: Seq<char>, p: int|
        0 <= p < files_under(sorted_into(Seq::empty(), entries), label).len() implies lists_file(
        entries,
        label,
        #[trigger] files_under(sorted_into(Seq::empty(), entries), label)[p],
    ) by {
        law_record_lists_files_by_label(entries, label);
        lemma_moved_names_are_files(entries, label, p);
    }
}

/// A run over a directory that holds nothing but directories, as one does
/// after an earlier run has moved every file, asks only for the listing and
/// its entries, and ends finished with an empty record, whatever the
/// organizer had recorded before.
pub proof fn law_nothing_left_to_move(
    state: OrganizerModel,
    entries: Seq<EntryModel>,
    dir_exists: spec_fn(int) -> bool,
)
    requires
        at_rest(state.phase),
        forall|i: int| 0 <= i < entries.len() ==> (#[trigger] entries[i]).is_dir,
    ensures
        after(state, run_events(entries, dir_exists)).phase is Finished,
        after(state, run_events(entries, dir_exists)).groups == Seq::<GroupModel>::empty(),
        answers(state, run_events(entries, dir_exists)) == run_actions(entries, dir_exists),
        forall|k: int|
            0 < k < run_actions(entries, dir_exists).len() - 1 ==> #[trigger] run_actions(
                entries,
                dir_exists,
            )[k] is NextEntry,
{
    law_run_completes(state, entries, dir_exists);
    law_directories_are_passed_over(entries, dir_exists);
    lemma_only_directories(entries);
    let asked = run_actions(entries, dir_exists);
    assert forall|k: int| 0 < k < asked.len() - 1 implies #[trigger] asked[k] is NextEntry by {
        let action = asked[k];
        assert(serves_a_file(entries, dir_exists, action));
        assert(forall|i: int, label: Seq<char>| !is_file_with(entries, i, label));
    }
}

proof fn lemma_only_directories(entries: Seq<EntryModel>)
    requires
        forall|i: int| 0 <= i < entries.len() ==> (#[trigger] entries[i]).is_dir,
    ensures
        sorted_into(Seq::empty(), entries) == Seq::<GroupModel>::empty(),
    decreases entries.len(),
{
    if entries.len() > 0 {
        assert(entries.last().is_dir);
        assert forall|i: int| 0 <= i < entries.drop_last().len() implies (
        #[trigger] entries.drop_last()[i]).is_dir by {
            assert(entries[i].is_dir);
        }
        lemma_only_directories(entries.drop_last());
    }
}

/// A directory is created only where the caller reported it missing: one
/// that exists already, from an earlier run or otherwise, is used as it is.
pub proof fn law_existing_directory_is_used(state: OrganizerModel, exists: bool)
    requires
        state.phase is Checking,
    ensures
        next(state, EventModel::DirChecked { exists }).1 is CreateDir <==> !exists,
        next(state, EventModel::DirChecked { exists }).1 is Move <==> exists,
{
}

/// Files with the same label stand in the record in the order of the
/// listing: of two such files the earlier one comes first in the list of
/// their label, each at the place given by the number of files with that
/// label listed before it.
pub proof fn law_listing_order_is_kept(entries: Seq<EntryModel>, label: Seq<char>, i: int, j: int)
    requires
        i < j,
        is_file_with(entries, i, label),
        is_file_with(entries, j, label),
    ensures
        ({
            let files = files_under(sorted_into(Seq::empty(), entries), label);
            let first = moved_names(entries.take(i), label).len();
            let second = moved_names(entries.take(j), label).len();
            &&& first < second < files.len()
            &&& files[first as int] == entries[i].name
            &&& files[second as int] == entries[j].name
        }),
{
    law_record_lists_files_by_label(entries, label);
    lemma_place_in_list(entries, label, i);
    lemma_place_in_list(entries, label, j);
    assert(entries.take(j) =~= entries.take(i + 1) + entries.subrange(i + 1, j));
    lemma_moved_names_add(entries.take(i + 1), entries.subrange(i + 1, j), label);
}

/// A failure reported during a run ends the run at once: the organizer
/// hands the failure's message on as its error, and keeps no record of the
/// files moved before.
pub proof fn law_failure_gives_the_run_up(state: OrganizerModel, message: Seq<char>)
    requires
        in_run(state.phase),
    ensures
        next(state, EventModel::Failed { message }) == (
            given_up(state),
            ActionModel::Abort { error: ErrorModel::Io { message } },
        ),
        given_up(state).phase is Failed,
        given_up(state).groups.len() == 0,
{
}

/// Whatever an organizer is told from its construction on, it keeps its
/// source directory and a well-formed record, and before its first run and
/// after a run that was given up the record is empty.
pub proof fn law_every_state(source_dir: Seq<char>, events: Seq<EventModel>)
    ensures
        after(fresh(source_dir), events).source_dir == source_dir,
        well_formed(after(fresh(source_dir), events).groups),
        after(fresh(source_dir), events).phase is Idle || after(
            fresh(source_dir),
            events,
        ).phase is Failed ==> after(fresh(source_dir), events).groups.len() == 0,
    decreases events.len(),
{
    if events.len() > 0 {
        law_every_state(source_dir, events.drop_last());
        let state = after(fresh(source_dir), events.drop_last());
        match state.phase {
            PhaseModel::Moving { name, label } => {
                lemma_recorded(state.groups, label, name, label);
            },
            _ => {},
        }
    }
}

} // verus!
