//! Extension labels: the name of the subdirectory a file is sorted into.

use vstd::prelude::*;
use vstd::string::*;

verus! {

/// The text that `str::to_lowercase` returns for `text`.
pub uninterp spec fn lowercased(text: Seq<char>) -> Seq<char>;

/// The label of every file whose name holds no `.`.
pub open spec fn unknown_label() -> Seq<char> {
    "unknown"@
}

/// `i` is the position of the last `.` in `name`.
pub open spec fn is_last_dot(name: Seq<char>, i: int) -> bool {
    &&& 0 <= i < name.len()
    &&& name[i] == '.'
    &&& forall|j: int| i < j < name.len() ==> name[j] != '.'
}

/// The position of the last `.` in a name that holds one.
pub open spec fn last_dot(name: Seq<char>) -> int {
    choose|i: int| is_last_dot(name, i)
}

/// Everything after the last `.` of `name`; `None` for a name without `.`.
pub open spec fn extension_of(name: Seq<char>) -> Option<Seq<char>> {
    if name.contains('.') {
        Some(name.skip(last_dot(name) + 1))
    } else {
        None
    }
}

/// The label of a file called `name`: its extension in lower case, or
/// `"unknown"` where the name has no extension.
pub open spec fn label_of(name: Seq<char>) -> Seq<char> {
    match extension_of(name) {
        Some(ext) => lowercased(ext),
        None => unknown_label(),
    }
}

/// A name has at most one last `.`.
pub proof fn lemma_last_dot_unique(name: Seq<char>, i: int)
    requires
        is_last_dot(name, i),
    ensures
        name.contains('.'),
        last_dot(name) == i,
{
    let k = last_dot(name);
    assert(is_last_dot(name, k));
    if k < i {
        assert(name[i] != '.');
    } else if i < k {
        assert(name[k] != '.');
    }
}

/// Calls `str::to_lowercase`. Its result is a function of the text alone, and
/// the contract only gives that result its name, [`lowercased`].
#[verifier::external_body]
fn to_lowercase(text: &str) -> (lower: String)
    ensures
        lower@ == lowercased(text@),
{
    text.to_lowercase()
}

/// The part of `name` after its last `.`, or `None` where `name` holds no `.`.
pub fn extension(name: &str) -> (ext: Option<&str>)
    ensures
        match ext {
            Some(e) => extension_of(name@) == Some(e@),
            None => extension_of(name@) is None,
        },
{
    let len: usize = name.unicode_len();
    let mut i: usize = len;
    while i > 0
        invariant
            i <= len,
            len == name@.len(),
            forall|j: int| i <= j < len ==> name@[j] != '.',
        decreases i,
    {
        if name.get_char(i - 1) == '.' {
            proof {
                lemma_last_dot_unique(name@, i - 1);
            }
            return Some(name.substring_char(i, len));
        }
        i = i - 1;
    }
    None
}

/// The label under which a file called `name` is sorted.
pub fn extension_label(name: &str) -> (label: String)
    ensures
        label@ == label_of(name@),
{
    match extension(name) {
        Some(ext) => to_lowercase(ext),
        None => String::from_str("unknown"),
    }
}

} // verus!
