//! The link validator's text side: the local link targets of each prose line, with any
//! `#fragment` dropped. Whether a target exists is a question for the file system.
use vstd::prelude::*;

use crate::check::{fence_after, fence_step, is_prose};
use crate::text::{
    char_range, char_vec, find_from, first_occurrence, has_prefix, lines_of, occurs_at,
    split_lines, starts_with, string_of, views,
};

verus! {

/// A local link target found on a line (numbered from 1).
pub struct LinkRef {
    pub line: usize,
    /// The target with its fragment removed, relative to the document's directory.
    pub target: String,
}

pub open spec fn ref_views(v: Seq<LinkRef>) -> Seq<(usize, Seq<char>)> {
    v.map_values(|r: LinkRef| (r.line, r.target@))
}

pub open spec fn link_open() -> Seq<char> {
    seq![']', '(']
}

/// The path that a link target asks for: `None` for web links, pure anchors and
/// targets that are empty once the fragment is dropped.
pub open spec fn link_path(t: Seq<char>) -> Option<Seq<char>> {
    if starts_with(t, "http://"@) || starts_with(t, "https://"@) || starts_with(t, seq!['#']) {
        None
    } else {
        let p = match first_occurrence(t, seq!['#'], 0) {
            Some(h) => t.subrange(0, h),
            None => t,
        };
        if p.len() == 0 {
            None
        } else {
            Some(p)
        }
    }
}

/// The paths asked for by the links `](target)` of `l` found from position `from` on.
pub open spec fn link_paths_from(l: Seq<char>, from: int) -> Seq<Seq<char>>
    decreases l.len() + 1 - from,
{
    if from < 0 || from > l.len() {
        Seq::empty()
    } else {
        match first_occurrence(l, link_open(), from) {
            None => Seq::empty(),
            Some(s) => if s < from || s + 2 > l.len() {
                Seq::empty()
            } else {
                match first_occurrence(l, seq![')'], s + 2) {
                    None => Seq::empty(),
                    Some(e) => if e < s + 2 || e >= l.len() {
                        Seq::empty()
                    } else {
                        (match link_path(l.subrange(s + 2, e)) {
                            Some(p) => seq![p],
                            None => Seq::empty(),
                        }) + link_paths_from(l, e + 1)
                    },
                }
            },
        }
    }
}

/// The local link targets of the first `n` lines, with their line numbers.
pub open spec fn link_refs(lines: Seq<Seq<char>>, n: nat) -> Seq<(usize, Seq<char>)>
    decreases n,
{
    if n == 0 || n > lines.len() {
        Seq::empty()
    } else if is_prose(lines, n - 1) {
        link_refs(lines, (n - 1) as nat) + link_paths_from(lines[n - 1], 0).map_values(
            |p: Seq<char>| (n as usize, p),
        )
    } else {
        link_refs(lines, (n - 1) as nat)
    }
}

/// The path a link target asks for, if it is a local one.
pub fn target_path(t: &Vec<char>) -> (r: Option<String>)
    ensures
        match r {
            Some(p) => link_path(t@) == Some(p@),
            None => link_path(t@) is None,
        },
{
    let hash: Vec<char> = vec!['#'];
    assert(hash@ == seq!['#']);
    if has_prefix(t, &char_vec("http://")) || has_prefix(t, &char_vec("https://")) || has_prefix(
        t,
        &hash,
    ) {
        return None;
    }
    let end = match find_from(t, &hash, 0) {
        Some(h) => h,
        None => t.len(),
    };
    if end == 0 {
        return None;
    }
    assert(t@.subrange(0, t@.len() as int) == t@);
    Some(string_of(t, 0, end))
}

/// The local link targets of one line, in order.
pub fn line_links(line: &str, n: usize) -> (r: Vec<LinkRef>)
    ensures
        ref_views(r@) == link_paths_from(line@, 0).map_values(|p: Seq<char>| (n, p)),
{
    let l = char_vec(line);
    let open: Vec<char> = vec![']', '('];
    let close: Vec<char> = vec![')'];
    assert(open@ == link_open());
    assert(close@ == seq![')']);
    let mut r: Vec<LinkRef> = Vec::new();
    let mut pos: usize = 0;
    let ghost all = link_paths_from(l@, 0);
    loop
        invariant
            l@ == line@,
            open@ == link_open(),
            close@ == seq![')'],
            pos <= l@.len(),
            all == link_paths_from(l@, 0),
            ref_views(r@) + link_paths_from(l@, pos as int).map_values(|p: Seq<char>| (n, p))
                == all.map_values(|p: Seq<char>| (n, p)),
        decreases l@.len() + 1 - pos,
    {
        let s = match find_from(&l, &open, pos) {
            Some(s) => s,
            None => {
                assert(ref_views(r@) == all.map_values(|p: Seq<char>| (n, p)));
                return r;
            },
        };
        assert(s + 2 <= l.len());
        let e = match find_from(&l, &close, s + 2) {
            Some(e) => e,
            None => {
                assert(ref_views(r@) == all.map_values(|p: Seq<char>| (n, p)));
                return r;
            },
        };
        assert(e + 1 <= l.len());
        let t = char_range(&l, s + 2, e);
        let ghost before = r@;
        let ghost rest = link_paths_from(l@, (e + 1) as int);
        match target_path(&t) {
            Some(p) => {
                r.push(LinkRef { line: n, target: p });
                assert(ref_views(r@) == ref_views(before).push((n, link_path(t@)->0)));
            },
            None => {},
        }
        proof {
            let head: Seq<Seq<char>> = match link_path(t@) {
                Some(p) => seq![p],
                None => Seq::empty(),
            };
            assert(link_paths_from(l@, pos as int) == head + rest);
            assert((head + rest).map_values(|p: Seq<char>| (n, p)) == head.map_values(
                |p: Seq<char>| (n, p),
            ) + rest.map_values(|p: Seq<char>| (n, p)));
            assert(ref_views(r@) == ref_views(before) + head.map_values(|p: Seq<char>| (n, p)));
        }
        pos = e + 1;
    }
}

/// The local link targets of a document given as lines, prose lines only.
pub fn check_lines(lines: &Vec<String>) -> (r: Vec<LinkRef>)
    ensures
        ref_views(r@) == link_refs(views(lines@), lines@.len()),
{
    let ghost ls = views(lines@);
    let mut r: Vec<LinkRef> = Vec::new();
    let mut fence = false;
    let mut i: usize = 0;
    while i < lines.len()
        invariant
            ls == views(lines@),
            i <= lines@.len(),
            fence == fence_after(ls, i as nat),
            ref_views(r@) == link_refs(ls, i as nat),
        decreases lines.len() - i,
    {
        let (delim, next) = fence_step(lines, i, fence);
        fence = next;
        if !delim && !fence {
            assert(lines@[i as int]@ == ls[i as int]);
            let mut found = line_links(lines[i].as_str(), i + 1);
            let ghost before = r@;
            let ghost got = found@;
            r.append(&mut found);
            assert(ref_views(r@) =~= ref_views(before) + ref_views(got));
        }
        i = i + 1;
    }
    r
}

/// The local link targets of one document.
pub fn run(content: &str) -> (r: Vec<LinkRef>)
    ensures
        ref_views(r@) == link_refs(lines_of(content@), lines_of(content@).len()),
{
    let lines = split_lines(content);
    check_lines(&lines)
}

/// A web link is never checked against the file system.
pub proof fn web_links_never_checked(t: Seq<char>)
    requires
        starts_with(t, "http://"@) || starts_with(t, "https://"@),
    ensures
        link_path(t) is None,
{
}

/// A fragment does not change the path a link asks for: `doc.md#section` asks for
/// `doc.md`.
pub proof fn fragment_ignored(p: Seq<char>, fragment: Seq<char>)
    requires
        p.len() > 0,
        !starts_with(p, "http://"@),
        !starts_with(p, "https://"@),
        forall|i: int| 0 <= i < p.len() ==> p[i] != '#',
    ensures
        link_path(p + seq!['#'] + fragment) == Some(p),
{
    let t = p + seq!['#'] + fragment;
    assert(t.subrange(0, p.len() as int) == p);
    assert(t[p.len() as int] == '#');
    assert(!starts_with(t, seq!['#'])) by {
        if starts_with(t, seq!['#']) {
            assert(t.subrange(0, 1)[0] == p[0]);
        }
    }
    assert(starts_with(t, "http://"@) ==> starts_with(p, "http://"@)) by {
        reveal_strlit("http://");
        if starts_with(t, "http://"@) {
            assert(p.len() >= 7) by {
                if p.len() < 7 {
                    assert(t.subrange(0, 7)[p.len() as int] == '#');
                }
            }
            assert(p.subrange(0, 7) == t.subrange(0, 7));
        }
    }
    assert(starts_with(t, "https://"@) ==> starts_with(p, "https://"@)) by {
        reveal_strlit("https://");
        if starts_with(t, "https://"@) {
            assert(p.len() >= 8) by {
                if p.len() < 8 {
                    assert(t.subrange(0, 8)[p.len() as int] == '#');
                }
            }
            assert(p.subrange(0, 8) == t.subrange(0, 8));
        }
    }
    lemma_first_hash(t, p.len() as int, 0);
}

proof fn lemma_first_hash(t: Seq<char>, h: int, from: int)
    requires
        0 <= from <= h < t.len(),
        t[h] == '#',
        forall|i: int| from <= i < h ==> t[i] != '#',
    ensures
        first_occurrence(t, seq!['#'], from) == Some(h),
    decreases h - from,
{
    if from < h {
        assert(!occurs_at(t, seq!['#'], from)) by {
            if occurs_at(t, seq!['#'], from) {
                assert(t.subrange(from, from + 1)[0] == t[from]);
            }
        }
        lemma_first_hash(t, h, from + 1);
    } else {
        assert(t.subrange(h, h + 1) == seq!['#']);
    }
}

} // verus!
