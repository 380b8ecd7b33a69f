//! The naming validator: file and directory names are lowercase ASCII, digits, `.` and
//! `-`, apart from a few conventional uppercase names.
use vstd::prelude::*;

use crate::text::{ascii_digit, ascii_lower, char_vec, is_digit, is_lower, same_chars};

verus! {

/// One entry of the governed tree, as a walk of it finds them.
pub struct Entry {
    /// The path that a violation names.
    pub path: String,
    /// The entry's own name, the last component of `path`.
    pub name: String,
}

pub open spec fn allowed_uppercase(name: Seq<char>) -> bool {
    name == "CHANGELOG.md"@ || name == "README.md"@ || name == "VERSION"@
}

/// Starts with an ASCII lowercase letter or digit; holds only those, `.` and `-`.
pub open spec fn conventional_name(name: Seq<char>) -> bool {
    &&& name.len() > 0
    &&& (is_lower(name[0]) || is_digit(name[0]))
    &&& forall|i: int|
        0 <= i < name.len() ==> is_lower(#[trigger] name[i]) || is_digit(name[i]) || name[i]
            == '.' || name[i] == '-'
}

pub open spec fn name_ok(name: Seq<char>) -> bool {
    allowed_uppercase(name) || conventional_name(name)
}

/// The paths of the entries whose names break the convention, in walk order.
pub open spec fn bad_paths(entries: Seq<Entry>) -> Seq<Seq<char>>
    decreases entries.len(),
{
    if entries.len() == 0 {
        Seq::empty()
    } else if name_ok(entries.last().name@) {
        bad_paths(entries.drop_last())
    } else {
        bad_paths(entries.drop_last()).push(entries.last().path@)
    }
}

/// The uppercase names that the convention lets through.
pub fn is_allowed_uppercase(name: &str) -> (r: bool)
    ensures
        r == allowed_uppercase(name@),
{
    let n = char_vec(name);
    same_chars(&n, &char_vec("CHANGELOG.md")) || same_chars(&n, &char_vec("README.md"))
        || same_chars(&n, &char_vec("VERSION"))
}

/// Whether a file or directory name is accepted.
pub fn is_valid_name(name: &str) -> (r: bool)
    ensures
        r == name_ok(name@),
{
    if is_allowed_uppercase(name) {
        return true;
    }
    let n = char_vec(name);
    if n.len() == 0 || !(ascii_lower(n[0]) || ascii_digit(n[0])) {
        return false;
    }
    let mut i: usize = 0;
    while i < n.len()
        invariant
            n@ == name@,
            !allowed_uppercase(name@),
            i <= n@.len(),
            forall|j: int|
                0 <= j < i ==> is_lower(#[trigger] n@[j]) || is_digit(n@[j]) || n@[j] == '.'
                    || n@[j] == '-',
        decreases n.len() - i,
    {
        let c = n[i];
        if !(ascii_lower(c) || ascii_digit(c) || c == '.' || c == '-') {
            assert(!(is_lower(n@[i as int]) || is_digit(n@[i as int]) || n@[i as int] == '.'
                || n@[i as int] == '-'));
            return false;
        }
        i = i + 1;
    }
    true
}

/// Checks every entry of the tree, in the order given, and returns the paths of those
/// whose names break the convention. Every entry is checked, also below a bad directory.
pub fn run(entries: &Vec<Entry>) -> (r: Vec<String>)
    ensures
        crate::text::views(r@) == bad_paths(entries@),
{
    let mut r: Vec<String> = Vec::new();
    let mut i: usize = 0;
    while i < entries.len()
        invariant
            i <= entries@.len(),
            crate::text::views(r@) == bad_paths(entries@.take(i as int)),
        decreases entries.len() - i,
    {
        assert(entries@.take(i + 1).drop_last() == entries@.take(i as int));
        if !is_valid_name(entries[i].name.as_str()) {
            r.push(entries[i].path.clone());
        }
        i = i + 1;
    }
    assert(entries@.take(entries@.len() as int) == entries@);
    r
}

} // verus!
