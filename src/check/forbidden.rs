//! The forbidden-pattern validator: no pictographic symbols in prose lines.
use vstd::prelude::*;

use crate::check::{fence_after, fence_step, is_prose};
use crate::text::{char_vec, lines_of, split_lines, views};

verus! {

/// Pictographs, dingbats, variation selectors and the zero-width joiner.
pub open spec fn is_pictographic(c: char) -> bool {
    let cp = c as u32;
    (0x1F000 <= cp <= 0x1FFFF) || (0x2600 <= cp <= 0x27BF) || (0xFE00 <= cp <= 0xFE0F) || cp
        == 0x200D
}

pub open spec fn has_pictograph(l: Seq<char>) -> bool {
    exists|i: int| 0 <= i < l.len() && is_pictographic(#[trigger] l[i])
}

/// The numbers (from 1) of the prose lines among the first `n` that hold a pictograph.
pub open spec fn emoji_lines(lines: Seq<Seq<char>>, n: nat) -> Seq<usize>
    decreases n,
{
    if n == 0 || n > lines.len() {
        Seq::empty()
    } else if is_prose(lines, n - 1) && has_pictograph(lines[n - 1]) {
        emoji_lines(lines, (n - 1) as nat).push(n as usize)
    } else {
        emoji_lines(lines, (n - 1) as nat)
    }
}

/// Whether a line holds a pictographic symbol.
pub fn contains_emoji(line: &str) -> (r: bool)
    ensures
        r == has_pictograph(line@),
{
    let l = char_vec(line);
    let mut i: usize = 0;
    while i < l.len()
        invariant
            l@ == line@,
            i <= l@.len(),
            forall|j: int| 0 <= j < i ==> !is_pictographic(#[trigger] l@[j]),
        decreases l.len() - i,
    {
        let cp = l[i] as u32;
        if (0x1F000 <= cp && cp <= 0x1FFFF) || (0x2600 <= cp && cp <= 0x27BF) || (0xFE00 <= cp
            && cp <= 0xFE0F) || cp == 0x200D {
            assert(is_pictographic(l@[i as int]));
            return true;
        }
        i = i + 1;
    }
    false
}

/// The numbers of the prose lines that hold a pictograph, in order.
pub fn check_lines(lines: &Vec<String>) -> (r: Vec<usize>)
    ensures
        r@ == emoji_lines(views(lines@), lines@.len()),
{
    let ghost ls = views(lines@);
    let mut r: Vec<usize> = Vec::new();
    let mut fence = false;
    let mut i: usize = 0;
    while i < lines.len()
        invariant
            ls == views(lines@),
            i <= lines@.len(),
            fence == fence_after(ls, i as nat),
            r@ == emoji_lines(ls, i as nat),
        decreases lines.len() - i,
    {
        let (delim, next) = fence_step(lines, i, fence);
        fence = next;
        if !delim && !fence {
            assert(lines@[i as int]@ == ls[i as int]);
            if contains_emoji(lines[i].as_str()) {
                r.push(i + 1);
            }
        }
        i = i + 1;
    }
    r
}

/// Validates one document.
pub fn run(content: &str) -> (r: Vec<usize>)
    ensures
        r@ == emoji_lines(lines_of(content@), lines_of(content@).len()),
{
    let lines = split_lines(content);
    check_lines(&lines)
}

/// Every number that the scan reports is that of a prose line with a pictograph, the
/// numbers rise strictly (so no line is reported twice), and every such line is reported.
proof fn lemma_emoji_lines(lines: Seq<Seq<char>>, n: nat)
    requires
        n <= lines.len() <= usize::MAX,
    ensures
        forall|k: int|
            0 <= k < emoji_lines(lines, n).len() ==> {
                let x = #[trigger] emoji_lines(lines, n)[k];
                1 <= x <= n && is_prose(lines, x - 1) && has_pictograph(lines[x - 1])
            },
        forall|a: int, b: int|
            0 <= a < b < emoji_lines(lines, n).len() ==> #[trigger] emoji_lines(lines, n)[a]
                < #[trigger] emoji_lines(lines, n)[b],
        forall|i: int|
            0 <= i < n && is_prose(lines, i) && has_pictograph(lines[i]) ==> emoji_lines(
                lines,
                n,
            ).contains((i + 1) as usize),
    decreases n,
{
    if n > 0 {
        lemma_emoji_lines(lines, (n - 1) as nat);
        let prev = emoji_lines(lines, (n - 1) as nat);
        assert forall|i: int|
            0 <= i < n && is_prose(lines, i) && has_pictograph(lines[i]) implies emoji_lines(
            lines,
            n,
        ).contains((i + 1) as usize) by {
            if i < n - 1 {
                let k = choose|k: int| 0 <= k < prev.len() && prev[k] == (i + 1) as usize;
                assert(emoji_lines(lines, n)[k] == (i + 1) as usize);
            } else {
                assert(emoji_lines(lines, n).last() == (i + 1) as usize);
            }
        }
    }
}

/// A prose line that holds a pictograph is reported exactly once, whatever fenced blocks
/// elsewhere in the document hold; lines inside fenced blocks are never reported.
pub proof fn pictograph_reported_once(lines: Seq<Seq<char>>, i: int)
    requires
        0 <= i < lines.len() <= usize::MAX,
    ensures
        emoji_lines(lines, lines.len()).contains((i + 1) as usize) <==> (is_prose(lines, i)
            && has_pictograph(lines[i])),
        forall|a: int, b: int|
            0 <= a < b < emoji_lines(lines, lines.len()).len() ==> emoji_lines(
                lines,
                lines.len(),
            )[a] != emoji_lines(lines, lines.len())[b],
{
    lemma_emoji_lines(lines, lines.len());
    let out = emoji_lines(lines, lines.len());
    if out.contains((i + 1) as usize) {
        let k = choose|k: int| 0 <= k < out.len() && out[k] == (i + 1) as usize;
        assert(out[k] == (i + 1) as usize);
    }
    assert forall|a: int, b: int| 0 <= a < b < out.len() implies out[a] != out[b] by {
        assert(out[a] < out[b]);
    }
}

} // verus!
