//! The line-count validator: documents over a fixed number of lines are flagged unless the
//! allowlist holds an entry for their exact current content.
use vstd::prelude::*;

use crate::text::{char_vec, has_prefix, lines_of, same_chars, split_lines, starts_with, string_of, views};

verus! {

/// The most lines a document may have without an allowlist entry.
pub const THRESHOLD: usize = 100;

/// An allowlist entry: a path relative to the repository root, a check name, and the
/// hash of the content that the exception was granted for.
pub struct AllowEntry {
    pub file: String,
    pub check: String,
    pub hash: String,
}

pub open spec fn entry_views(v: Seq<AllowEntry>) -> Seq<(Seq<char>, Seq<char>, Seq<char>)> {
    v.map_values(|e: AllowEntry| (e.file@, e.check@, e.hash@))
}

/// The lowercase hex SHA-256 digest of the UTF-8 encoding of a text.
pub uninterp spec fn sha256_hex_of(s: Seq<char>) -> Seq<char>;

/// Relies on sha2's `Sha256::digest` over the text's UTF-8 bytes, and on the lowercase
/// hex form (`{:x}`) of the digest: the result depends on the text alone.
#[verifier::external_body]
fn sha256_hex(content: &str) -> (r: String)
    ensures
        r@ == sha256_hex_of(content@),
{
    format!("{:x}", <sha2::Sha256 as sha2::Digest>::digest(content.as_bytes()))
}

pub open spec fn entry_marker() -> Seq<char> {
    "[[entry]]"@
}

/// The value of a `key"value"` line, where `key` ends with the opening quote.
pub open spec fn quoted_value(l: Seq<char>, key: Seq<char>) -> Option<Seq<char>> {
    if l.len() >= key.len() + 1 && starts_with(l, key) && l.last() == '"' {
        Some(l.subrange(key.len() as int, l.len() - 1))
    } else {
        None
    }
}

/// After the first `n` lines: the entries flushed so far, and the pending file, check
/// and hash.
pub open spec fn allow_scan(lines: Seq<Seq<char>>, n: nat) -> (
    Seq<(Seq<char>, Seq<char>, Seq<char>)>,
    Seq<char>,
    Seq<char>,
    Seq<char>,
)
    decreases n,
{
    if n == 0 || n > lines.len() {
        (Seq::empty(), Seq::empty(), Seq::empty(), Seq::empty())
    } else {
        let (es, f, c, h) = allow_scan(lines, (n - 1) as nat);
        let l = lines[n - 1];
        if l == entry_marker() {
            (
                if f.len() > 0 {
                    es.push((f, c, h))
                } else {
                    es
                },
                Seq::empty(),
                Seq::empty(),
                Seq::empty(),
            )
        } else if quoted_value(l, "file = \""@) is Some {
            (es, quoted_value(l, "file = \""@)->0, c, h)
        } else if quoted_value(l, "check = \""@) is Some {
            (es, f, quoted_value(l, "check = \""@)->0, h)
        } else if quoted_value(l, "hash = \""@) is Some {
            (es, f, c, quoted_value(l, "hash = \""@)->0)
        } else {
            (es, f, c, h)
        }
    }
}

/// The entries of an allowlist: each `[[entry]]` block with a non-empty file, in order.
pub open spec fn allowlist_of(lines: Seq<Seq<char>>) -> Seq<(Seq<char>, Seq<char>, Seq<char>)> {
    let (es, f, c, h) = allow_scan(lines, lines.len());
    if f.len() > 0 {
        es.push((f, c, h))
    } else {
        es
    }
}

/// The value of `line` after `key` and up to a closing quote, if it has that shape.
fn quoted(l: &Vec<char>, key: &Vec<char>) -> (r: Option<String>)
    ensures
        match r {
            Some(v) => quoted_value(l@, key@) == Some(v@),
            None => quoted_value(l@, key@) is None,
        },
{
    if l.len() > key.len() && has_prefix(l, key) && l[l.len() - 1] == '"' {
        Some(string_of(l, key.len(), l.len() - 1))
    } else {
        None
    }
}

/// Reads an allowlist: `None` when there is no allowlist file, which allows nothing.
pub fn load_allowlist(content: Option<&str>) -> (r: Vec<AllowEntry>)
    ensures
        match content {
            None => r@.len() == 0,
            Some(c) => entry_views(r@) == allowlist_of(lines_of(c@)),
        },
{
    let c = match content {
        None => return Vec::new(),
        Some(c) => c,
    };
    let lines = split_lines(c);
    let ghost ls = views(lines@);
    let marker = char_vec("[[entry]]");
    let fk = char_vec("file = \"");
    let ck = char_vec("check = \"");
    let hk = char_vec("hash = \"");
    let mut entries: Vec<AllowEntry> = Vec::new();
    let mut file = String::new();
    let mut check = String::new();
    let mut hash = String::new();
    let mut i: usize = 0;
    while i < lines.len()
        invariant
            ls == views(lines@),
            i <= ls.len(),
            marker@ == entry_marker(),
            fk@ == "file = \""@,
            ck@ == "check = \""@,
            hk@ == "hash = \""@,
            allow_scan(ls, i as nat) == (entry_views(entries@), file@, check@, hash@),
        decreases lines.len() - i,
    {
        let l = char_vec(lines[i].as_str());
        assert(l@ == ls[i as int]);
        if same_chars(&l, &marker) {
            if !file.as_str().is_empty() {
                let ghost before = entries@;
                entries.push(AllowEntry { file, check, hash });
                assert(entry_views(entries@) =~= entry_views(before).push(
                    (entries@.last().file@, entries@.last().check@, entries@.last().hash@),
                ));
            }
            file = String::new();
            check = String::new();
            hash = String::new();
        } else {
            match quoted(&l, &fk) {
                Some(v) => {
                    file = v;
                },
                None => match quoted(&l, &ck) {
                    Some(v) => {
                        check = v;
                    },
                    None => match quoted(&l, &hk) {
                        Some(v) => {
                            hash = v;
                        },
                        None => {},
                    },
                },
            }
        }
        i = i + 1;
    }
    if !file.as_str().is_empty() {
        let ghost before = entries@;
        entries.push(AllowEntry { file, check, hash });
        assert(entry_views(entries@) =~= entry_views(before).push(
            (entries@.last().file@, entries@.last().check@, entries@.last().hash@),
        ));
    }
    entries
}

/// Documents that are never counted.
pub open spec fn exempt(name: Seq<char>) -> bool {
    name == "CHANGELOG.md"@ || name == "README.md"@
}

/// The allowlist excuses `rel` with this content hash from the line-count check.
pub open spec fn is_allowed(list: Seq<(Seq<char>, Seq<char>, Seq<char>)>, rel: Seq<char>, hash: Seq<char>) -> bool {
    exists|i: int| 0 <= i < list.len() && list[i] == (rel, "line-count"@, hash)
}

/// What the check reports for one document: its line count when it is flagged.
pub open spec fn line_count_verdict(
    name: Seq<char>,
    rel: Seq<char>,
    content: Seq<char>,
    list: Seq<(Seq<char>, Seq<char>, Seq<char>)>,
) -> Option<usize> {
    let n = lines_of(content).len();
    if exempt(name) || n <= THRESHOLD || is_allowed(list, rel, sha256_hex_of(content)) {
        None
    } else {
        Some(n as usize)
    }
}

/// Whether the allowlist holds a line-count entry for `rel_path` with exactly this hash.
pub fn allowed(allowlist: &Vec<AllowEntry>, rel_path: &str, hash: &str) -> (r: bool)
    ensures
        r == is_allowed(entry_views(allowlist@), rel_path@, hash@),
{
    let rel = char_vec(rel_path);
    let h = char_vec(hash);
    let lc = char_vec("line-count");
    let ghost list = entry_views(allowlist@);
    let mut i: usize = 0;
    while i < allowlist.len()
        invariant
            list == entry_views(allowlist@),
            rel@ == rel_path@,
            h@ == hash@,
            lc@ == "line-count"@,
            i <= allowlist@.len(),
            forall|j: int| 0 <= j < i ==> list[j] != (rel_path@, "line-count"@, hash@),
        decreases allowlist.len() - i,
    {
        let e = &allowlist[i];
        let f = char_vec(e.file.as_str());
        let c = char_vec(e.check.as_str());
        let eh = char_vec(e.hash.as_str());
        assert(list[i as int] == (f@, c@, eh@));
        if same_chars(&f, &rel) && same_chars(&c, &lc) && same_chars(&eh, &h) {
            return true;
        }
        i = i + 1;
    }
    false
}

/// Whether a document of `line_count` lines with content hash `hash` is flagged.
pub fn flagged_with_hash(line_count: usize, rel_path: &str, hash: &str, allowlist: &Vec<AllowEntry>) -> (r: bool)
    ensures
        r == (line_count > THRESHOLD && !is_allowed(entry_views(allowlist@), rel_path@, hash@)),
{
    line_count > THRESHOLD && !allowed(allowlist, rel_path, hash)
}

/// Checks one document: `name` is its file name, `rel_path` its path relative to the
/// repository root. Returns its line count when it is flagged.
pub fn check_file(name: &str, rel_path: &str, content: &str, allowlist: &Vec<AllowEntry>) -> (r: Option<usize>)
    ensures
        r == line_count_verdict(name@, rel_path@, content@, entry_views(allowlist@)),
{
    let n = char_vec(name);
    if same_chars(&n, &char_vec("CHANGELOG.md")) || same_chars(&n, &char_vec("README.md")) {
        return None;
    }
    let lines = split_lines(content);
    let count = lines.len();
    if count <= THRESHOLD {
        return None;
    }
    let hash = sha256_hex(content);
    if flagged_with_hash(count, rel_path, hash.as_str(), allowlist) {
        Some(count)
    } else {
        None
    }
}

/// A document with an allowlist entry for its exact content passes, on every run for
/// as long as the content stays the same.
pub proof fn allowlisted_content_passes(
    name: Seq<char>,
    rel: Seq<char>,
    content: Seq<char>,
    list: Seq<(Seq<char>, Seq<char>, Seq<char>)>,
)
    requires
        is_allowed(list, rel, sha256_hex_of(content)),
    ensures
        line_count_verdict(name, rel, content, list) is None,
{
}

/// A counted document over the threshold whose current content hash has no entry is
/// flagged with its line count, whatever entries it had for earlier contents.
pub proof fn unlisted_content_flagged(
    name: Seq<char>,
    rel: Seq<char>,
    content: Seq<char>,
    list: Seq<(Seq<char>, Seq<char>, Seq<char>)>,
)
    requires
        !exempt(name),
        lines_of(content).len() > THRESHOLD,
        !is_allowed(list, rel, sha256_hex_of(content)),
    ensures
        line_count_verdict(name, rel, content, list) == Some(lines_of(content).len() as usize),
{
}

} // verus!
