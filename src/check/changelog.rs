//! The changelog validator: a header near the top, well-formed version headers, and
//! category sections in canonical order within each version block.
use vstd::prelude::*;

use crate::text::{char_vec, contains, has_infix, has_prefix, lines_of, split_lines, starts_with, views};

verus! {

/// A violation in the changelog. Line numbers count from 1.
#[derive(Clone, Copy, PartialEq, Eq, Debug)]
pub enum ChangelogIssue {
    /// The changelog document does not exist.
    Missing,
    /// None of the first three lines holds the `# Changelog` header.
    NoHeader,
    /// A version header whose timestamp is malformed.
    BadVersion { line: usize },
    /// A category name outside the canonical five; `version` is the line of the
    /// enclosing version header, if any.
    UnknownCategory { line: usize, version: Option<usize> },
    /// A category that comes after one of higher rank in the same version block.
    WrongOrder { line: usize, version: Option<usize> },
}

pub open spec fn version_open() -> Seq<char> {
    "## ["@
}

pub open spec fn category_open() -> Seq<char> {
    "### "@
}

/// The text between `## [` and the closing `]`.
pub open spec fn timestamp_of(l: Seq<char>) -> Seq<char> {
    l.subrange(4, l.len() - 1)
}

/// `## [YYYY-MM-DDTHH:MM:SSZ]`: twenty characters with fixed separators.
pub open spec fn valid_timestamp_entry(l: Seq<char>) -> bool {
    &&& starts_with(l, version_open())
    &&& l.len() >= 5
    &&& l.last() == ']'
    &&& timestamp_of(l).len() == 20
    &&& timestamp_of(l)[4] == '-'
    &&& timestamp_of(l)[7] == '-'
    &&& timestamp_of(l)[10] == 'T'
    &&& timestamp_of(l)[13] == ':'
    &&& timestamp_of(l)[16] == ':'
    &&& timestamp_of(l)[19] == 'Z'
}

/// Breaking=1, Added=2, Changed=3, Fixed=4, Removed=5, anything else 0.
pub open spec fn category_rank(c: Seq<char>) -> u8 {
    if c == "Breaking"@ {
        1
    } else if c == "Added"@ {
        2
    } else if c == "Changed"@ {
        3
    } else if c == "Fixed"@ {
        4
    } else if c == "Removed"@ {
        5
    } else {
        0
    }
}

/// Whether the line starts with `## [` and holds a well-formed timestamp.
pub fn is_valid_timestamp_entry(line: &str) -> (r: bool)
    ensures
        r == valid_timestamp_entry(line@),
{
    proof {
        reveal_strlit("## [");
    }
    let l = char_vec(line);
    let open = char_vec("## [");
    if !has_prefix(&l, &open) || l.len() < 5 || l[l.len() - 1] != ']' {
        return false;
    }
    let n = l.len();
    n - 5 == 20 && l[8] == '-' && l[11] == '-' && l[14] == 'T' && l[17] == ':' && l[20] == ':'
        && l[23] == 'Z'
}

/// The rank of a category name.
pub fn cat_order(category: &str) -> (r: u8)
    ensures
        r == category_rank(category@),
{
    let c = char_vec(category);
    if crate::text::same_chars(&c, &char_vec("Breaking")) {
        1
    } else if crate::text::same_chars(&c, &char_vec("Added")) {
        2
    } else if crate::text::same_chars(&c, &char_vec("Changed")) {
        3
    } else if crate::text::same_chars(&c, &char_vec("Fixed")) {
        4
    } else if crate::text::same_chars(&c, &char_vec("Removed")) {
        5
    } else {
        0
    }
}

/// After the first `n` lines: the rank last seen in the current block, the line of the
/// current version header, and the issues found so far.
pub open spec fn changelog_scan(lines: Seq<Seq<char>>, n: nat) -> (u8, Option<usize>, Seq<
    ChangelogIssue,
>)
    decreases n,
{
    if n == 0 || n > lines.len() {
        (0, None, Seq::empty())
    } else {
        let (last, version, issues) = changelog_scan(lines, (n - 1) as nat);
        let l = lines[n - 1];
        if starts_with(l, version_open()) {
            (
                0,
                Some(n as usize),
                if valid_timestamp_entry(l) {
                    issues
                } else {
                    issues.push(ChangelogIssue::BadVersion { line: n as usize })
                },
            )
        } else if starts_with(l, category_open()) {
            let rank = category_rank(l.subrange(4, l.len() as int));
            (
                rank,
                version,
                if rank == 0 {
                    issues.push(ChangelogIssue::UnknownCategory { line: n as usize, version })
                } else if rank < last {
                    issues.push(ChangelogIssue::WrongOrder { line: n as usize, version })
                } else {
                    issues
                },
            )
        } else {
            (last, version, issues)
        }
    }
}

/// One of the first three lines holds `# Changelog`.
pub open spec fn has_header(lines: Seq<Seq<char>>) -> bool {
    exists|i: int| 0 <= i < 3 && i < lines.len() && contains(lines[i], "# Changelog"@)
}

/// Every violation of a changelog given as lines, in order of discovery.
pub open spec fn changelog_issues(lines: Seq<Seq<char>>) -> Seq<ChangelogIssue> {
    (if has_header(lines) {
        Seq::empty()
    } else {
        seq![ChangelogIssue::NoHeader]
    }) + changelog_scan(lines, lines.len()).2
}

/// Validates a changelog given as lines.
pub fn check_lines(lines: &Vec<String>) -> (r: Vec<ChangelogIssue>)
    ensures
        r@ == changelog_issues(views(lines@)),
{
    proof {
        reveal_strlit("## [");
        reveal_strlit("### ");
    }
    let ghost ls = views(lines@);
    let header = char_vec("# Changelog");
    let mut found = false;
    let mut i: usize = 0;
    while i < 3 && i < lines.len()
        invariant
            ls == views(lines@),
            header@ == "# Changelog"@,
            i <= 3,
            found == exists|j: int| 0 <= j < i && j < ls.len() && contains(ls[j], "# Changelog"@),
        decreases 3 - i,
    {
        let l = char_vec(lines[i].as_str());
        assert(ls[i as int] == l@);
        if has_infix(&l, &header) {
            found = true;
        }
        i = i + 1;
    }
    let mut issues: Vec<ChangelogIssue> = Vec::new();
    if !found {
        issues.push(ChangelogIssue::NoHeader);
    }
    let ghost base = issues@;
    let open = char_vec("## [");
    let cat = char_vec("### ");
    let mut last: u8 = 0;
    let mut version: Option<usize> = None;
    let mut k: usize = 0;
    while k < lines.len()
        invariant
            ls == views(lines@),
            open@ == version_open(),
            cat@ == category_open(),
            category_open().len() == 4,
            k <= ls.len(),
            base + changelog_scan(ls, 0).2 == changelog_issues(ls).take(base.len() as int),
            base == (if has_header(ls) {
                Seq::empty()
            } else {
                seq![ChangelogIssue::NoHeader]
            }),
            changelog_scan(ls, k as nat) == (last, version, issues@.subrange(
                base.len() as int,
                issues@.len() as int,
            )),
            issues@.len() >= base.len(),
            issues@.subrange(0, base.len() as int) == base,
        decreases lines.len() - k,
    {
        let l = char_vec(lines[k].as_str());
        assert(ls[k as int] == l@);
        let ghost before = issues@;
        if has_prefix(&l, &open) {
            last = 0;
            version = Some(k + 1);
            if !is_valid_timestamp_entry(lines[k].as_str()) {
                issues.push(ChangelogIssue::BadVersion { line: k + 1 });
            }
        } else if has_prefix(&l, &cat) {
            let name = crate::text::string_of(&l, 4, l.len());
            let rank = cat_order(name.as_str());
            if rank == 0 {
                issues.push(ChangelogIssue::UnknownCategory { line: k + 1, version });
            } else if rank < last {
                issues.push(ChangelogIssue::WrongOrder { line: k + 1, version });
            }
            last = rank;
        }
        assert(issues@.subrange(0, base.len() as int) == base);
        assert(issues@.subrange(base.len() as int, before.len() as int) == before.subrange(
            base.len() as int,
            before.len() as int,
        ));
        assert(issues@.len() == before.len() ==> issues@ == before);
        k = k + 1;
    }
    assert(issues@ == base + issues@.subrange(base.len() as int, issues@.len() as int));
    issues
}

/// Validates the changelog document: `None` when it does not exist, else its text.
pub fn run(content: Option<&str>) -> (r: Vec<ChangelogIssue>)
    ensures
        match content {
            None => r@ == seq![ChangelogIssue::Missing],
            Some(c) => r@ == changelog_issues(lines_of(c@)),
        },
{
    match content {
        None => vec![ChangelogIssue::Missing],
        Some(c) => {
            let lines = split_lines(c);
            check_lines(&lines)
        },
    }
}

/// Reading more lines of a changelog only appends issues.
proof fn lemma_scan_extends(lines: Seq<Seq<char>>, m: nat, n: nat)
    requires
        m <= n <= lines.len(),
    ensures
        changelog_scan(lines, m).2.len() <= changelog_scan(lines, n).2.len(),
        changelog_scan(lines, n).2.subrange(0, changelog_scan(lines, m).2.len() as int)
            == changelog_scan(lines, m).2,
    decreases n - m,
{
    if m < n {
        lemma_scan_extends(lines, m, (n - 1) as nat);
        let a = changelog_scan(lines, m).2;
        let b = changelog_scan(lines, (n - 1) as nat).2;
        let c = changelog_scan(lines, n).2;
        assert(c.len() >= b.len() && c.subrange(0, b.len() as int) == b);
        assert(c.subrange(0, a.len() as int) == b.subrange(0, a.len() as int));
    } else {
        assert(changelog_scan(lines, n).2.subrange(0, changelog_scan(lines, n).2.len() as int)
            == changelog_scan(lines, n).2);
    }
}

/// The issue reports an unknown category on the given line.
pub open spec fn is_unknown_category_at(issue: ChangelogIssue, line: usize) -> bool {
    match issue {
        ChangelogIssue::UnknownCategory { line: l, .. } => l == line,
        _ => false,
    }
}

/// A category header whose name is not one of the canonical five is always reported,
/// whatever comes before or after it.
pub proof fn unknown_category_always_flagged(lines: Seq<Seq<char>>, i: int)
    requires
        0 <= i < lines.len(),
        lines.len() <= usize::MAX,
        starts_with(lines[i], category_open()),
        category_rank(lines[i].subrange(4, lines[i].len() as int)) == 0,
    ensures
        exists|k: int|
            0 <= k < changelog_issues(lines).len() && is_unknown_category_at(
                #[trigger] changelog_issues(lines)[k],
                (i + 1) as usize,
            ),
{
    reveal_strlit("## [");
    reveal_strlit("### ");
    let n = (i + 1) as nat;
    assert(lines[i].subrange(0, 4)[2] == '#');
    assert(lines[i][2] == '#');
    assert(!starts_with(lines[i], version_open())) by {
        if starts_with(lines[i], version_open()) {
            assert(lines[i].subrange(0, 4)[2] == ' ');
        }
    }
    let v = changelog_scan(lines, i as nat).1;
    let issue = ChangelogIssue::UnknownCategory { line: (i + 1) as usize, version: v };
    let at: int = changelog_scan(lines, i as nat).2.len() as int;
    assert(changelog_scan(lines, n).2 == changelog_scan(lines, i as nat).2.push(issue));
    lemma_scan_extends(lines, n, lines.len());
    let all = changelog_scan(lines, lines.len()).2;
    assert(all.subrange(0, at + 1)[at] == issue);
    assert(all[at] == issue);
    let head = if has_header(lines) {
        Seq::<ChangelogIssue>::empty()
    } else {
        seq![ChangelogIssue::NoHeader]
    };
    assert((head + all)[head.len() + at] == issue);
    assert(is_unknown_category_at(changelog_issues(lines)[head.len() + at], (i + 1) as usize));
}

} // verus!
