//! The summary of a run as text.

use vstd::prelude::*;
use vstd::string::*;
use crate::catalog::{GroupModel, OrganizedFiles};

verus! {

/// The two lines that open every summary, after an empty one.
pub open spec fn heading() -> Seq<char> {
    "\nFile Organization Summary:\n-------------------------\n"@
}

/// The line for one file.
pub open spec fn file_line(name: Seq<char>) -> Seq<char> {
    "  - "@ + name + "\n"@
}

/// The lines for `files`, in their order.
pub open spec fn file_lines(files: Seq<Seq<char>>) -> Seq<char>
    decreases files.len(),
{
    if files.len() == 0 {
        Seq::empty()
    } else {
        file_lines(files.drop_last()) + file_line(files.last())
    }
}

/// The title of the section for `label`, after an empty line.
pub open spec fn section_title(label: Seq<char>) -> Seq<char> {
    "\n."@ + label + " files:\n"@
}

/// The section for one group: its title and a line for each of its files.
pub open spec fn section(group: GroupModel) -> Seq<char> {
    section_title(group.label) + file_lines(group.files)
}

/// The sections for `groups`, in their order.
pub open spec fn sections(groups: Seq<GroupModel>) -> Seq<char>
    decreases groups.len(),
{
    if groups.len() == 0 {
        Seq::empty()
    } else {
        sections(groups.drop_last()) + section(groups.last())
    }
}

/// The whole summary: the heading, then a section for each group. For an
/// empty record it is the heading alone.
pub open spec fn summary_text(groups: Seq<GroupModel>) -> Seq<char> {
    heading() + sections(groups)
}

/// The summary of `files` as text, ready to be written out.
pub fn render(files: &OrganizedFiles) -> (text: String)
    ensures
        text@ == summary_text(files@),
        files@.len() == 0 ==> text@ == heading(),
{
    let groups = files.groups();
    let ghost all = groups.deep_view();
    let mut text = String::from_str("\nFile Organization Summary:\n-------------------------\n");
    assert(text@ =~= heading() + sections(all.take(0)));
    let mut i: usize = 0;
    while i < groups.len()
        invariant
            i <= groups.len(),
            all == groups.deep_view(),
            text@ == heading() + sections(all.take(i as int)),
        decreases groups.len() - i,
    {
        let group = &groups[i];
        let ghost done = heading() + sections(all.take(i as int));
        let ghost names = group.files.deep_view();
        text.append("\n.");
        text.append(group.label.as_str());
        text.append(" files:\n");
        assert(text@ =~= done + section_title(group.label@) + file_lines(names.take(0)));
        let mut j: usize = 0;
        while j < group.files.len()
            invariant
                j <= group.files.len(),
                names == group.files.deep_view(),
                text@ == done + section_title(group.label@) + file_lines(names.take(j as int)),
            decreases group.files.len() - j,
        {
            let ghost listed = file_lines(names.take(j as int));
            text.append("  - ");
            text.append(group.files[j].as_str());
            text.append("\n");
            proof {
                assert(names.take(j + 1).drop_last() =~= names.take(j as int));
                assert(names.take(j + 1).last() == group.files[j as int]@);
                assert(text@ =~= done + section_title(group.label@) + (listed + file_line(
                    group.files[j as int]@,
                )));
            }
            j = j + 1;
        }
        proof {
            assert(names.take(j as int) =~= names);
            assert(all.take(i + 1).drop_last() =~= all.take(i as int));
            assert(all.take(i + 1).last() == all[i as int]);
            assert(all[i as int] == (GroupModel { label: group.label@, files: names }));
            assert(text@ =~= heading() + (sections(all.take(i as int)) + section(all[i as int])));
        }
        i = i + 1;
    }
    proof {
        assert(all.take(i as int) =~= all);
        if all.len() == 0 {
            assert(heading() + sections(all) =~= heading());
        }
    }
    text
}

} // verus!
