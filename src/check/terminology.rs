//! The terminology validator: prose says "library crate" and "binary crate", not the
//! abbreviations.
use vstd::prelude::*;

use crate::check::{fence_after, fence_step, is_prose};
use crate::text::{char_vec, is_alnum, lines_of, matches_at, occurs_at, push_char, split_lines, views};

verus! {

/// The abbreviation that a terminology violation reports.
#[derive(Clone, Copy, PartialEq, Eq, Debug)]
pub enum Term {
    /// "lib crate", for "library crate".
    LibCrate,
    /// "bin crate", for "binary crate".
    BinCrate,
}

/// What `str::to_lowercase` makes of a text.
pub uninterp spec fn lower_of(s: Seq<char>) -> Seq<char>;

/// Relies on str::to_lowercase: the lowercase form depends on the characters alone.
#[verifier::external_body]
fn lowercase(s: &str) -> (r: String)
    ensures
        r@ == lower_of(s@),
{
    s.to_lowercase()
}

/// After the first `n` characters: inside an inline code span or not, and the text kept.
pub open spec fn code_scan(s: Seq<char>, n: nat) -> (bool, Seq<char>)
    decreases n,
{
    if n == 0 || n > s.len() {
        (false, Seq::empty())
    } else {
        let (in_code, out) = code_scan(s, (n - 1) as nat);
        if s[n - 1] == '`' {
            (!in_code, out)
        } else if !in_code {
            (in_code, out.push(s[n - 1]))
        } else {
            (in_code, out)
        }
    }
}

/// A line without its inline code spans and without the backticks.
pub open spec fn strip_code(s: Seq<char>) -> Seq<char> {
    code_scan(s, s.len()).1
}

pub open spec fn pair_pattern(first: Seq<char>, second: Seq<char>) -> Seq<char> {
    first + seq![' '] + second
}

/// `pat` occurs at `k` with no ASCII letter or digit right before or right after it.
pub open spec fn whole_word_at(text: Seq<char>, pat: Seq<char>, k: int) -> bool {
    &&& occurs_at(text, pat, k)
    &&& (k == 0 || !is_alnum(text[k - 1]))
    &&& (k + pat.len() >= text.len() || !is_alnum(text[k + pat.len()]))
}

pub open spec fn has_word_pair(text: Seq<char>, first: Seq<char>, second: Seq<char>) -> bool {
    exists|k: int| whole_word_at(text, pair_pattern(first, second), k)
}

/// The terminology violations of line `n` (from 1), given its text.
pub open spec fn line_terms(l: Seq<char>, n: usize) -> Seq<(usize, Term)> {
    let t = lower_of(strip_code(l));
    (if has_word_pair(t, "lib"@, "crate"@) {
        seq![(n, Term::LibCrate)]
    } else {
        Seq::empty()
    }) + (if has_word_pair(t, "bin"@, "crate"@) {
        seq![(n, Term::BinCrate)]
    } else {
        Seq::empty()
    })
}

/// The violations in the first `n` lines, in order.
pub open spec fn term_issues(lines: Seq<Seq<char>>, n: nat) -> Seq<(usize, Term)>
    decreases n,
{
    if n == 0 || n > lines.len() {
        Seq::empty()
    } else if is_prose(lines, n - 1) {
        term_issues(lines, (n - 1) as nat) + line_terms(lines[n - 1], n as usize)
    } else {
        term_issues(lines, (n - 1) as nat)
    }
}

/// Removes inline code spans (text between paired backticks) and the backticks.
pub fn strip_inline_code(line: &str) -> (r: String)
    ensures
        r@ == strip_code(line@),
{
    let l = char_vec(line);
    let mut r = String::new();
    let mut in_code = false;
    let mut i: usize = 0;
    while i < l.len()
        invariant
            l@ == line@,
            i <= l@.len(),
            (in_code, r@) == code_scan(l@, i as nat),
        decreases l.len() - i,
    {
        let c = l[i];
        if c == '`' {
            in_code = !in_code;
        } else if !in_code {
            push_char(&mut r, c);
        }
        i = i + 1;
    }
    r
}

/// Whether `first second` occurs in `text` as whole words.
pub fn contains_word_pair(text: &str, first: &str, second: &str) -> (r: bool)
    ensures
        r == has_word_pair(text@, first@, second@),
{
    let t = char_vec(text);
    let mut pat = char_vec(first);
    pat.push(' ');
    let s = char_vec(second);
    let mut j: usize = 0;
    while j < s.len()
        invariant
            j <= s@.len(),
            s@ == second@,
            pat@ == first@ + seq![' '] + second@.take(j as int),
        decreases s.len() - j,
    {
        pat.push(s[j]);
        assert(second@.take(j + 1) == second@.take(j as int).push(second@[j as int]));
        j = j + 1;
    }
    assert(second@.take(second@.len() as int) == second@);
    let ghost p = pair_pattern(first@, second@);
    let mut k: usize = 0;
    while k < t.len()
        invariant
            t@ == text@,
            pat@ == p,
            p == pair_pattern(first@, second@),
            forall|i: int| 0 <= i < k ==> !whole_word_at(text@, p, i),
        decreases t.len() - k,
    {
        if matches_at(&t, &pat, k) {
            let before_ok = k == 0 || !crate::text::ascii_alnum(t[k - 1]);
            let end = k + pat.len();
            let after_ok = end >= t.len() || !crate::text::ascii_alnum(t[end]);
            if before_ok && after_ok {
                assert(whole_word_at(text@, p, k as int));
                return true;
            }
        }
        k = k + 1;
    }
    assert forall|i: int| !whole_word_at(text@, p, i) by {
        if i >= k && i >= 0 {
            assert(!occurs_at(text@, p, i));
        }
    }
    false
}

/// The terminology violations of one line: `lib crate`, then `bin crate`.
fn terms_of_line(line: &str, n: usize) -> (r: Vec<(usize, Term)>)
    ensures
        r@ == line_terms(line@, n),
{
    let stripped = strip_inline_code(line);
    let lower = lowercase(stripped.as_str());
    let mut r: Vec<(usize, Term)> = Vec::new();
    if contains_word_pair(lower.as_str(), "lib", "crate") {
        r.push((n, Term::LibCrate));
    }
    if contains_word_pair(lower.as_str(), "bin", "crate") {
        r.push((n, Term::BinCrate));
    }
    r
}

/// The terminology violations of a document given as lines: line numbers from 1.
pub fn check_lines(lines: &Vec<String>) -> (r: Vec<(usize, Term)>)
    ensures
        r@ == term_issues(views(lines@), lines@.len()),
{
    let ghost ls = views(lines@);
    let mut r: Vec<(usize, Term)> = Vec::new();
    let mut fence = false;
    let mut i: usize = 0;
    while i < lines.len()
        invariant
            ls == views(lines@),
            i <= lines@.len(),
            fence == fence_after(ls, i as nat),
            r@ == term_issues(ls, i as nat),
        decreases lines.len() - i,
    {
        let (delim, next) = fence_step(lines, i, fence);
        fence = next;
        if !delim && !fence {
            assert(lines@[i as int]@ == ls[i as int]);
            let mut found = terms_of_line(lines[i].as_str(), i + 1);
            r.append(&mut found);
        }
        i = i + 1;
    }
    r
}

/// Validates one document.
pub fn run(content: &str) -> (r: Vec<(usize, Term)>)
    ensures
        r@ == term_issues(lines_of(content@), lines_of(content@).len()),
{
    let lines = split_lines(content);
    check_lines(&lines)
}

} // verus!
