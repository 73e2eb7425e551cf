//! The record of a run: which files went under which label, in the order in
//! which they were moved.

use vstd::prelude::*;
use vstd::string::*;

verus! {

/// The files moved under one label, oldest first.
#[derive(Debug, PartialEq, Eq)]
pub struct Group {
    pub label: String,
    pub files: Vec<String>,
}

/// What a [`Group`] stands for.
pub ghost struct GroupModel {
    pub label: Seq<char>,
    pub files: Seq<Seq<char>>,
}

impl DeepView for Group {
    type V = GroupModel;

    open spec fn deep_view(&self) -> GroupModel {
        GroupModel { label: self.label@, files: self.files.deep_view() }
    }
}

/// Some group of `groups` carries `label`.
pub open spec fn has_label(groups: Seq<GroupModel>, label: Seq<char>) -> bool {
    exists|i: int| 0 <= i < groups.len() && #[trigger] groups[i].label == label
}

/// The position of the group that carries `label`, where there is one.
pub open spec fn slot(groups: Seq<GroupModel>, label: Seq<char>) -> int {
    choose|i: int| 0 <= i < groups.len() && #[trigger] groups[i].label == label
}

/// The names recorded under `label`, oldest first; empty for a label that no
/// group carries.
pub open spec fn files_under(groups: Seq<GroupModel>, label: Seq<char>) -> Seq<Seq<char>> {
    if has_label(groups, label) {
        groups[slot(groups, label)].files
    } else {
        Seq::empty()
    }
}

/// The labels of `groups`, in the order of the groups.
pub open spec fn labels_of(groups: Seq<GroupModel>) -> Seq<Seq<char>> {
    groups.map_values(|g: GroupModel| g.label)
}

/// No label occurs twice, and no group is empty.
pub open spec fn well_formed(groups: Seq<GroupModel>) -> bool {
    &&& forall|i: int, j: int|
        0 <= i < j < groups.len() ==> (#[trigger] groups[i]).label != (#[trigger] groups[j]).label
    &&& forall|i: int| 0 <= i < groups.len() ==> (#[trigger] groups[i]).files.len() > 0
}

/// `groups` after `name` was recorded under `label`: the name goes to the end
/// of the label's group, and a label seen for the first time opens a new
/// group behind the others.
pub open spec fn recorded(groups: Seq<GroupModel>, label: Seq<char>, name: Seq<char>) -> Seq<
    GroupModel,
> {
    if has_label(groups, label) {
        let i = slot(groups, label);
        groups.update(i, GroupModel { label, files: groups[i].files.push(name) })
    } else {
        groups.push(GroupModel { label, files: seq![name] })
    }
}

/// In well-formed groups a label names its position.
pub proof fn lemma_slot_unique(groups: Seq<GroupModel>, label: Seq<char>, i: int)
    requires
        well_formed(groups),
        0 <= i < groups.len(),
        groups[i].label == label,
    ensures
        has_label(groups, label),
        slot(groups, label) == i,
{
    let k = slot(groups, label);
    assert(0 <= k < groups.len() && groups[k].label == label);
    if k < i {
        assert(groups[k].label != groups[i].label);
    } else if i < k {
        assert(groups[i].label != groups[k].label);
    }
}

/// Recording keeps groups well-formed, extends the list of the label that was
/// recorded by the name, and leaves every other list as it was.
pub proof fn lemma_recorded(
    groups: Seq<GroupModel>,
    label: Seq<char>,
    name: Seq<char>,
    other: Seq<char>,
)
    requires
        well_formed(groups),
    ensures
        well_formed(recorded(groups, label, name)),
        has_label(recorded(groups, label, name), label),
        files_under(recorded(groups, label, name), label) == files_under(groups, label).push(name),
        other != label ==> has_label(recorded(groups, label, name), other) == has_label(
            groups,
            other,
        ),
        other != label ==> files_under(recorded(groups, label, name), other) == files_under(
            groups,
            other,
        ),
        labels_of(recorded(groups, label, name)) == if has_label(groups, label) {
            labels_of(groups)
        } else {
            labels_of(groups).push(label)
        },
{
    let after = recorded(groups, label, name);
    if has_label(groups, label) {
        let i = slot(groups, label);
        assert(after.len() == groups.len());
        assert forall|k: int| 0 <= k < after.len() implies (#[trigger] after[k]).label
            == groups[k].label by {}
        assert(well_formed(after));
        lemma_slot_unique(after, label, i);
        if has_label(groups, other) {
            let k = slot(groups, other);
            lemma_slot_unique(after, other, k);
        } else if has_label(after, other) {
            let k = slot(after, other);
            assert(groups[k].label == other);
        }
        assert(labels_of(after) =~= labels_of(groups));
    } else {
        let n = groups.len() as int;
        assert forall|k: int| 0 <= k < n implies (#[trigger] after[k]) == groups[k] by {}
        assert(after[n].label == label);
        assert(well_formed(after)) by {
            assert forall|i: int, j: int| 0 <= i < j < after.len() implies (
            #[trigger] after[i]).label != (#[trigger] after[j]).label by {
                if j == n {
                    assert(groups[i].label != label);
                }
            }
        }
        lemma_slot_unique(after, label, n);
        assert(files_under(groups, label).push(name) =~= seq![name]);
        if has_label(groups, other) {
            let k = slot(groups, other);
            lemma_slot_unique(after, other, k);
        } else if has_label(after, other) {
            let k = slot(after, other);
            if k < n {
                assert(groups[k].label == other);
            }
        }
        assert(labels_of(after) =~= labels_of(groups).push(label));
    }
}

/// The files moved in one run, grouped by label. Groups stand in the order
/// in which their labels first came up.
pub struct OrganizedFiles {
    groups: Vec<Group>,
}

impl View for OrganizedFiles {
    type V = Seq<GroupModel>;

    closed spec fn view(&self) -> Seq<GroupModel> {
        self.groups.deep_view()
    }
}

impl OrganizedFiles {
    #[verifier::type_invariant]
    pub open spec fn inv(&self) -> bool {
        well_formed(self@)
    }

    /// A record with nothing in it.
    pub fn new() -> (files: OrganizedFiles)
        ensures
            files@ == Seq::<GroupModel>::empty(),
    {
        let files = OrganizedFiles { groups: Vec::new() };
        assert(files@ =~= Seq::<GroupModel>::empty());
        files
    }

    /// The groups, in the order in which their labels first came up.
    pub fn groups(&self) -> (groups: &Vec<Group>)
        ensures
            groups.deep_view() == self@,
            well_formed(self@),
    {
        proof {
            use_type_invariant(self);
        }
        &self.groups
    }

    /// The names recorded under `label`, oldest first, or `None` where the
    /// record has no file with that label.
    pub fn get(&self, label: &str) -> (found: Option<&Vec<String>>)
        ensures
            match found {
                Some(files) => has_label(self@, label@) && files.deep_view() == files_under(
                    self@,
                    label@,
                ),
                None => !has_label(self@, label@),
            },
    {
        proof {
            use_type_invariant(self);
        }
        let wanted = String::from_str(label);
        let mut i: usize = 0;
        while i < self.groups.len()
            invariant
                i <= self.groups.len(),
                wanted@ == label@,
                well_formed(self@),
                forall|j: int| 0 <= j < i ==> (#[trigger] self@[j]).label != label@,
            decreases self.groups.len() - i,
        {
            if self.groups[i].label == wanted {
                proof {
                    lemma_slot_unique(self@, label@, i as int);
                }
                return Some(&self.groups[i].files);
            }
            i = i + 1;
        }
        None
    }

    /// Records that the file `name` was moved under `label`.
    pub fn record(&mut self, label: String, name: String)
        ensures
            final(self)@ == recorded(old(self)@, label@, name@),
            well_formed(final(self)@),
    {
        proof {
            use_type_invariant(&*self);
            lemma_recorded(self@, label@, name@, label@);
        }
        let mut groups: Vec<Group> = Vec::new();
        core::mem::swap(&mut self.groups, &mut groups);
        let ghost before = groups.deep_view();
        let count: usize = groups.len();
        let mut i: usize = 0;
        while i < count
            invariant
                i <= count,
                count == groups.len(),
                groups.deep_view() == before,
                before == old(self)@,
                self.groups@.len() == 0,
                well_formed(before),
                forall|j: int| 0 <= j < i ==> (#[trigger] before[j]).label != label@,
            decreases count - i,
        {
            if groups[i].label == label {
                proof {
                    lemma_slot_unique(before, label@, i as int);
                }
                let ghost earlier = groups@;
                groups[i].files.push(name);
                proof {
                    let at = i as int;
                    assert(groups@[at].label == earlier[at].label);
                    assert(groups@[at].files@ == earlier[at].files@.push(name));
                    assert(groups@[at].files.deep_view() =~= before[at].files.push(name@));
                    assert forall|k: int| 0 <= k < groups@.len() && k != at implies groups@[k]
                        == earlier[k] by {}
                    assert(groups.deep_view() =~~= recorded(before, label@, name@));
                }
                core::mem::swap(&mut self.groups, &mut groups);
                return ;
            }
            i = i + 1;
        }
        assert(!has_label(before, label@));
        let mut files: Vec<String> = Vec::new();
        files.push(name);
        let ghost earlier = groups@;
        groups.push(Group { label, files });
        proof {
            assert(groups@.last().files.deep_view() =~= seq![name@]);
            assert forall|k: int| 0 <= k < earlier.len() implies groups@[k] == earlier[k] by {}
            assert(groups.deep_view() =~~= recorded(before, label@, name@));
        }
        core::mem::swap(&mut self.groups, &mut groups);
    }
}

} // verus!
