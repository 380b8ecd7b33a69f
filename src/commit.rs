//! Commit messages: a `type(scope): description` subject line, at most 72 bytes, and a
//! body without trailer-style footers.
use vstd::prelude::*;

use crate::text::{
    ascii_alnum, ascii_digit, ascii_lower, char_range, char_vec, find_from, first_occurrence,
    is_alnum, is_digit, is_lower, lines_of, same_chars, split_lines,
};

verus! {

/// Why a commit message is refused.
#[derive(Clone, Copy, PartialEq, Eq, Debug)]
pub enum CommitError {
    /// The subject is not `type(scope): description` with a known type, a lowercase
    /// scope and a lowercase description without a trailing period.
    BadFormat,
    /// The subject is longer than 72 bytes.
    TooLong,
    /// A body line looks like a trailer (`Key: value`) or a reference (`Key #n`).
    Footer,
}

/// A commit request: the message, and the files to split off into their own commit.
pub struct Args {
    pub m: String,
    pub files: Vec<String>,
}

/// The longest subject accepted, in bytes.
pub const MAX_SUBJECT_BYTES: usize = 72;

pub open spec fn valid_type(t: Seq<char>) -> bool {
    t == "add"@ || t == "fix"@ || t == "change"@ || t == "rm"@ || t == "break"@ || t
        == "refactor"@ || t == "doc"@ || t == "test"@ || t == "spec"@ || t == "ci"@ || t
        == "chore"@
}

pub open spec fn scope_ok(s: Seq<char>) -> bool {
    &&& s.len() > 0
    &&& is_lower(s[0])
    &&& forall|i: int| 0 <= i < s.len() ==> is_lower(s[i]) || is_digit(s[i]) || s[i] == '-'
}

pub open spec fn description_ok(d: Seq<char>) -> bool {
    d.len() > 0 && is_lower(d[0]) && d.last() != '.'
}

pub open spec fn scope_close() -> Seq<char> {
    seq![')', ':', ' ']
}

/// `type(scope): description`, split at the first `(` and then at the first `): `.
pub open spec fn subject_ok(s: Seq<char>) -> bool {
    match first_occurrence(s, seq!['('], 0) {
        None => false,
        Some(a) => {
            let rest = s.subrange(a + 1, s.len() as int);
            valid_type(s.subrange(0, a)) && match first_occurrence(rest, scope_close(), 0) {
                None => false,
                Some(b) => scope_ok(rest.subrange(0, b)) && description_ok(
                    rest.subrange(b + 3, rest.len() as int),
                ),
            }
        },
    }
}

/// `sep` occurs, and the text before its first occurrence (possibly empty) holds only
/// ASCII letters, digits and `-`.
pub open spec fn keyed_by(l: Seq<char>, sep: Seq<char>) -> bool {
    match first_occurrence(l, sep, 0) {
        None => false,
        Some(a) => forall|i: int| 0 <= i < a ==> is_alnum(l[i]) || l[i] == '-',
    }
}

/// A trailer (`Signed-off-by: x`) or a reference (`Fixes #3`).
pub open spec fn footer_line(l: Seq<char>) -> bool {
    keyed_by(l, seq![':', ' ']) || keyed_by(l, seq![' ', '#'])
}

pub open spec fn subject_of(msg: Seq<char>) -> Seq<char> {
    if lines_of(msg).len() > 0 {
        lines_of(msg)[0]
    } else {
        Seq::empty()
    }
}

pub open spec fn has_footer(msg: Seq<char>) -> bool {
    exists|i: int| 1 <= i < lines_of(msg).len() && footer_line(#[trigger] lines_of(msg)[i])
}

/// What a message is judged: format first, then length, then footers.
pub open spec fn message_verdict(msg: Seq<char>) -> Result<(), CommitError> {
    if !subject_ok(subject_of(msg)) {
        Err(CommitError::BadFormat)
    } else if utf8_len(subject_of(msg)) > MAX_SUBJECT_BYTES {
        Err(CommitError::TooLong)
    } else if has_footer(msg) {
        Err(CommitError::Footer)
    } else {
        Ok(())
    }
}

/// The number of bytes that UTF-8 takes for a character.
pub open spec fn utf8_width(c: char) -> int {
    if (c as u32) < 0x80 {
        1
    } else if (c as u32) < 0x800 {
        2
    } else if (c as u32) < 0x10000 {
        3
    } else {
        4
    }
}

/// The length in bytes of the UTF-8 encoding of a text.
pub open spec fn utf8_len(s: Seq<char>) -> int
    decreases s.len(),
{
    if s.len() == 0 {
        0
    } else {
        utf8_len(s.drop_last()) + utf8_width(s.last())
    }
}

/// Whether the UTF-8 encoding of `s` takes more than `limit` bytes.
fn longer_than(s: &Vec<char>, limit: usize) -> (r: bool)
    requires
        limit <= 1024,
    ensures
        r == (utf8_len(s@) > limit),
{
    let mut total: usize = 0;
    let mut i: usize = 0;
    while i < s.len()
        invariant
            i <= s@.len(),
            limit <= 1024,
            total == utf8_len(s@.take(i as int)),
            total <= limit,
        decreases s.len() - i,
    {
        let c = s[i] as u32;
        let w: usize = if c < 0x80 {
            1
        } else if c < 0x800 {
            2
        } else if c < 0x10000 {
            3
        } else {
            4
        };
        assert(s@.take(i + 1).drop_last() == s@.take(i as int));
        total = total + w;
        i = i + 1;
        if total > limit {
            proof {
                lemma_utf8_len_grows(s@, i as int);
            }
            return true;
        }
    }
    assert(s@.take(s@.len() as int) == s@);
    false
}

proof fn lemma_utf8_len_grows(s: Seq<char>, i: int)
    requires
        0 <= i <= s.len(),
    ensures
        utf8_len(s.take(i)) <= utf8_len(s),
    decreases s.len() - i,
{
    if i < s.len() {
        lemma_utf8_len_grows(s, i + 1);
        assert(s.take(i + 1).drop_last() == s.take(i));
    } else {
        assert(s.take(i) == s);
    }
}

fn is_valid_type(t: &Vec<char>) -> (r: bool)
    ensures
        r == valid_type(t@),
{
    same_chars(t, &char_vec("add")) || same_chars(t, &char_vec("fix")) || same_chars(
        t,
        &char_vec("change"),
    ) || same_chars(t, &char_vec("rm")) || same_chars(t, &char_vec("break")) || same_chars(
        t,
        &char_vec("refactor"),
    ) || same_chars(t, &char_vec("doc")) || same_chars(t, &char_vec("test")) || same_chars(
        t,
        &char_vec("spec"),
    ) || same_chars(t, &char_vec("ci")) || same_chars(t, &char_vec("chore"))
}

fn is_scope(s: &Vec<char>) -> (r: bool)
    ensures
        r == scope_ok(s@),
{
    if s.len() == 0 || !ascii_lower(s[0]) {
        return false;
    }
    let mut i: usize = 0;
    while i < s.len()
        invariant
            i <= s@.len(),
            forall|j: int| 0 <= j < i ==> is_lower(s@[j]) || is_digit(s@[j]) || s@[j] == '-',
        decreases s.len() - i,
    {
        let c = s[i];
        if !(ascii_lower(c) || ascii_digit(c) || c == '-') {
            return false;
        }
        i = i + 1;
    }
    true
}

fn is_description(d: &Vec<char>) -> (r: bool)
    ensures
        r == description_ok(d@),
{
    d.len() > 0 && ascii_lower(d[0]) && d[d.len() - 1] != '.'
}

fn is_subject(s: &Vec<char>) -> (r: bool)
    ensures
        r == subject_ok(s@),
{
    let open: Vec<char> = vec!['('];
    let close: Vec<char> = vec![')', ':', ' '];
    assert(open@ == seq!['(']);
    assert(close@ == scope_close());
    match find_from(s, &open, 0) {
        None => false,
        Some(a) => {
            assert(a + 1 <= s.len());
            let t = char_range(s, 0, a);
            let rest = char_range(s, a + 1, s.len());
            if !is_valid_type(&t) {
                return false;
            }
            match find_from(&rest, &close, 0) {
                None => false,
                Some(b) => {
                    let scope = char_range(&rest, 0, b);
                    let desc = char_range(&rest, b + 3, rest.len());
                    is_scope(&scope) && is_description(&desc)
                },
            }
        },
    }
}

fn is_keyed_by(l: &Vec<char>, sep: &Vec<char>) -> (r: bool)
    ensures
        r == keyed_by(l@, sep@),
{
    match find_from(l, sep, 0) {
        None => false,
        Some(a) => {
            let mut i: usize = 0;
            while i < a
                invariant
                    i <= a <= l@.len(),
                    first_occurrence(l@, sep@, 0) == Some(a as int),
                    forall|j: int| 0 <= j < i ==> is_alnum(l@[j]) || l@[j] == '-',
                decreases a - i,
            {
                if !(ascii_alnum(l[i]) || l[i] == '-') {
                    assert(!(is_alnum(l@[i as int]) || l@[i as int] == '-'));
                    return false;
                }
                i = i + 1;
            }
            true
        },
    }
}

fn is_footer_line(l: &Vec<char>) -> (r: bool)
    ensures
        r == footer_line(l@),
{
    let trailer: Vec<char> = vec![':', ' '];
    let reference: Vec<char> = vec![' ', '#'];
    assert(trailer@ == seq![':', ' ']);
    assert(reference@ == seq![' ', '#']);
    is_keyed_by(l, &trailer) || is_keyed_by(l, &reference)
}

/// Checks a commit message against the subject format, the subject length and the
/// no-footer rule, in that order.
pub fn validate_message(msg: &str) -> (r: Result<(), CommitError>)
    ensures
        r == message_verdict(msg@),
{
    let lines = split_lines(msg);
    let ghost ls = lines_of(msg@);
    if lines.len() == 0 {
        let empty: Vec<char> = Vec::new();
        let ok = is_subject(&empty);
        assert(!ok);
        return Err(CommitError::BadFormat);
    }
    assert(lines@[0]@ == ls[0]);
    let subject = char_vec(lines[0].as_str());
    if !is_subject(&subject) {
        return Err(CommitError::BadFormat);
    }
    if longer_than(&subject, MAX_SUBJECT_BYTES) {
        return Err(CommitError::TooLong);
    }
    let mut i: usize = 1;
    while i < lines.len()
        invariant
            1 <= i <= lines@.len(),
            crate::text::views(lines@) == ls,
            ls == lines_of(msg@),
            subject_ok(subject_of(msg@)),
            utf8_len(subject_of(msg@)) <= MAX_SUBJECT_BYTES,
            forall|j: int| 1 <= j < i ==> !footer_line(#[trigger] ls[j]),
        decreases lines.len() - i,
    {
        let l = char_vec(lines[i].as_str());
        assert(l@ == ls[i as int]);
        if is_footer_line(&l) {
            assert(footer_line(lines_of(msg@)[i as int]));
            return Err(CommitError::Footer);
        }
        i = i + 1;
    }
    assert(!has_footer(msg@));
    Ok(())
}

} // verus!
