//! The documentation checks: the fence tracker shared by the line-based validators, the
//! selection of checks to run and the tally of their results.
use vstd::prelude::*;

use crate::text::{char_vec, ends_with, has_prefix, has_suffix, starts_with, views};

pub mod changelog;
pub mod forbidden;
pub mod terminology;
pub mod naming;
pub mod links;
pub mod line_count;



verus! {

/// The fence delimiter that opens and closes a code block.
pub open spec fn fence_mark() -> Seq<char> {
    seq!['`', '`', '`']
}

pub open spec fn is_fence(l: Seq<char>) -> bool {
    starts_with(l, fence_mark())
}

/// The fence state after reading line `l` in state `b`.
pub open spec fn next_fence_state(l: Seq<char>, b: bool) -> bool {
    if is_fence(l) {
        !b
    } else {
        b
    }
}

/// Whether the reader is inside a fenced block after the first `n` lines.
pub open spec fn fence_after(lines: Seq<Seq<char>>, n: nat) -> bool
    decreases n,
{
    if n == 0 || n > lines.len() {
        false
    } else {
        next_fence_state(lines[n - 1], fence_after(lines, (n - 1) as nat))
    }
}

/// Line `i` is prose: neither a fence delimiter nor inside a fenced block.
pub open spec fn is_prose(lines: Seq<Seq<char>>, i: int) -> bool {
    0 <= i < lines.len() && !is_fence(lines[i]) && !fence_after(lines, (i + 1) as nat)
}

/// A fence delimiter line toggles the state; any other line keeps it.
pub fn is_in_code_block(line: &str, in_code_block: bool) -> (r: bool)
    ensures
        r == next_fence_state(line@, in_code_block),
{
    let l = char_vec(line);
    let fence: Vec<char> = vec!['`', '`', '`'];
    if has_prefix(&l, &fence) {
        return !in_code_block;
    }
    in_code_block
}

/// Whether a line of `lines` opens or closes a fence, and the state after it.
pub(crate) fn fence_step(lines: &Vec<String>, i: usize, state: bool) -> (r: (bool, bool))
    requires
        i < lines@.len(),
        state == fence_after(views(lines@), i as nat),
    ensures
        r.0 == is_fence(views(lines@)[i as int]),
        r.1 == fence_after(views(lines@), (i + 1) as nat),
{
    let l = char_vec(lines[i].as_str());
    let fence: Vec<char> = vec!['`', '`', '`'];
    let is_delim = has_prefix(&l, &fence);
    (is_delim, if is_delim { !state } else { state })
}

/// A path whose file name has the extension `md`.
pub open spec fn is_md_path(p: Seq<char>) -> bool {
    p.len() > 3 && ends_with(p, seq!['.', 'm', 'd']) && p[p.len() - 4] != '/'
}

/// The paths of `s` that name markdown documents, in their order.
pub open spec fn md_paths(s: Seq<Seq<char>>) -> Seq<Seq<char>>
    decreases s.len(),
{
    if s.len() == 0 {
        s
    } else if is_md_path(s.last()) {
        md_paths(s.drop_last()).push(s.last())
    } else {
        md_paths(s.drop_last())
    }
}

/// Keeps the markdown documents among the paths found under the governed tree.
pub fn collect_md_files(paths: &Vec<String>) -> (r: Vec<String>)
    ensures
        views(r@) == md_paths(views(paths@)),
{
    let ext: Vec<char> = vec!['.', 'm', 'd'];
    let mut r: Vec<String> = Vec::new();
    let mut i: usize = 0;
    while i < paths.len()
        invariant
            i <= paths@.len(),
            ext@ == seq!['.', 'm', 'd'],
            views(r@) == md_paths(views(paths@).take(i as int)),
        decreases paths.len() - i,
    {
        let p = char_vec(paths[i].as_str());
        let keep = p.len() > 3 && has_suffix(&p, &ext) && p[p.len() - 4] != '/';
        assert(views(paths@).take(i + 1).drop_last() == views(paths@).take(i as int));
        if keep {
            r.push(paths[i].clone());
        }
        i = i + 1;
    }
    assert(views(paths@).take(paths@.len() as int) == views(paths@));
    r
}

/// The six checks.
#[derive(Clone, Copy, PartialEq, Eq, Debug, Structural)]
pub enum CheckCommand {
    Links,
    LineCount,
    Naming,
    Forbidden,
    Terminology,
    Changelog,
}

/// A check request: one selected check, or all of them.
pub struct Args {
    pub command: Option<CheckCommand>,
}

impl CheckCommand {
    /// The name under which the check reports.
    pub fn name(&self) -> (r: &'static str)
        ensures
            r@ == check_name(*self),
    {
        match self {
            CheckCommand::Links => "links",
            CheckCommand::LineCount => "line-count",
            CheckCommand::Naming => "naming",
            CheckCommand::Forbidden => "forbidden",
            CheckCommand::Terminology => "terminology",
            CheckCommand::Changelog => "changelog",
        }
    }
}

pub open spec fn check_name(c: CheckCommand) -> Seq<char> {
    match c {
        CheckCommand::Links => "links"@,
        CheckCommand::LineCount => "line-count"@,
        CheckCommand::Naming => "naming"@,
        CheckCommand::Forbidden => "forbidden"@,
        CheckCommand::Terminology => "terminology"@,
        CheckCommand::Changelog => "changelog"@,
    }
}

/// The checks that a request runs, in the order they run.
pub open spec fn selection(command: Option<CheckCommand>) -> Seq<CheckCommand> {
    match command {
        Some(c) => seq![c],
        None => seq![
            CheckCommand::Links,
            CheckCommand::LineCount,
            CheckCommand::Naming,
            CheckCommand::Forbidden,
            CheckCommand::Terminology,
            CheckCommand::Changelog,
        ],
    }
}

/// The checks to run for a request: the selected one, or all six.
pub fn selected_checks(args: &Args) -> (r: Vec<CheckCommand>)
    ensures
        r@ == selection(args.command),
{
    match args.command {
        Some(c) => vec![c],
        None => vec![
            CheckCommand::Links,
            CheckCommand::LineCount,
            CheckCommand::Naming,
            CheckCommand::Forbidden,
            CheckCommand::Terminology,
            CheckCommand::Changelog,
        ],
    }
}

/// What the checks count against the run: each violation once, and a check that could
/// not run (`None`) once.
pub open spec fn error_total(s: Seq<Option<usize>>) -> int
    decreases s.len(),
{
    if s.len() == 0 {
        0
    } else {
        error_total(s.drop_last()) + match s.last() {
            Some(n) => n as int,
            None => 1,
        }
    }
}

/// The total error count of a run, saturated at `usize::MAX`; the run fails iff it is not 0.
pub fn total_errors(outcomes: &Vec<Option<usize>>) -> (r: usize)
    ensures
        r as int == if error_total(outcomes@) > usize::MAX {
            usize::MAX as int
        } else {
            error_total(outcomes@)
        },
{
    let mut t: usize = 0;
    let mut i: usize = 0;
    while i < outcomes.len()
        invariant
            i <= outcomes@.len(),
            t as int == if error_total(outcomes@.take(i as int)) > usize::MAX {
                usize::MAX as int
            } else {
                error_total(outcomes@.take(i as int))
            },
            error_total(outcomes@.take(i as int)) >= 0,
        decreases outcomes.len() - i,
    {
        let n: usize = match outcomes[i] {
            Some(n) => n,
            None => 1,
        };
        assert(outcomes@.take(i + 1).drop_last() == outcomes@.take(i as int));
        t = t.saturating_add(n);
        i = i + 1;
    }
    assert(outcomes@.take(outcomes@.len() as int) == outcomes@);
    t
}

/// A run fails exactly when some check reported a violation or could not run at all:
/// checks that passed add nothing, and no failure is hidden by another.
pub proof fn run_fails_iff_some_check_fails(outcomes: Seq<Option<usize>>)
    ensures
        error_total(outcomes) > 0 <==> exists|i: int|
            0 <= i < outcomes.len() && #[trigger] outcomes[i] != Some(0usize),
    decreases outcomes.len(),
{
    if outcomes.len() > 0 {
        let init = outcomes.drop_last();
        run_fails_iff_some_check_fails(init);
        lemma_error_total_nonnegative(init);
        if exists|i: int| 0 <= i < init.len() && #[trigger] init[i] != Some(0usize) {
            let i = choose|i: int| 0 <= i < init.len() && #[trigger] init[i] != Some(0usize);
            assert(outcomes[i] == init[i]);
        }
        if exists|i: int| 0 <= i < outcomes.len() && #[trigger] outcomes[i] != Some(0usize) {
            let i = choose|i: int| 0 <= i < outcomes.len() && #[trigger] outcomes[i] != Some(0usize);
            if i < init.len() {
                assert(init[i] == outcomes[i]);
            }
        }
    }
}

proof fn lemma_error_total_nonnegative(outcomes: Seq<Option<usize>>)
    ensures
        error_total(outcomes) >= 0,
    decreases outcomes.len(),
{
    if outcomes.len() > 0 {
        lemma_error_total_nonnegative(outcomes.drop_last());
    }
}

} // verus!
