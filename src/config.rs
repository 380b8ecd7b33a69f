//! The formatter configuration: a small `qwq.toml` subset with `[fmt]` (an `ignore`
//! array), `[fmt.rust]` and `[fmt.oxfmt]` (key/value pairs handed to the tools).
use vstd::prelude::*;

use crate::text::{char_range, char_vec, find_from, first_occurrence, lines_of, same_chars, split_lines, string_of, views};

verus! {

/// The formatter settings.
pub struct FmtConfig {
    /// Directory names that the Rust file walk skips.
    pub ignore: Vec<String>,
    /// Options for rustfmt, in file order.
    pub rust: Vec<(String, String)>,
    /// Options for the document formatter, in file order.
    pub oxfmt: Vec<(String, String)>,
}

pub open spec fn pair_views(v: Seq<(String, String)>) -> Seq<(Seq<char>, Seq<char>)> {
    v.map_values(|p: (String, String)| (p.0@, p.1@))
}

/// The settings as plain values: ignored names, rustfmt options, document formatter options.
pub open spec fn config_view(c: FmtConfig) -> (Seq<Seq<char>>, Seq<(Seq<char>, Seq<char>)>, Seq<(Seq<char>, Seq<char>)>) {
    (views(c.ignore@), pair_views(c.rust@), pair_views(c.oxfmt@))
}

pub open spec fn default_ignore() -> Seq<Seq<char>> {
    seq!["target"@, "node_modules"@]
}

impl Default for FmtConfig {
    fn default() -> (r: FmtConfig)
        ensures
            config_view(r) == (default_ignore(), Seq::<(Seq<char>, Seq<char>)>::empty(), Seq::<(Seq<char>, Seq<char>)>::empty()),
    {
        let ignore = vec![crate::text::owned("target"), crate::text::owned("node_modules")];
        let r = FmtConfig { ignore, rust: Vec::new(), oxfmt: Vec::new() };
        assert(views(r.ignore@) =~= default_ignore());
        assert(pair_views(r.rust@) =~= Seq::<(Seq<char>, Seq<char>)>::empty());
        assert(pair_views(r.oxfmt@) =~= Seq::<(Seq<char>, Seq<char>)>::empty());
        r
    }
}

/// Unicode white space, as `char::is_whitespace` and `str::trim` know it.
pub open spec fn is_white(c: char) -> bool {
    let u = c as u32;
    (0x09 <= u <= 0x0D) || u == 0x20 || u == 0x85 || u == 0xA0 || u == 0x1680 || (0x2000 <= u
        <= 0x200A) || u == 0x2028 || u == 0x2029 || u == 0x202F || u == 0x205F || u == 0x3000
}

/// The characters that trimming removes: `"` for quote trimming, else white space.
pub open spec fn strippable(c: char, quotes: bool) -> bool {
    if quotes {
        c == '"'
    } else {
        is_white(c)
    }
}

pub open spec fn strip_start(s: Seq<char>, quotes: bool) -> Seq<char>
    decreases s.len(),
{
    if s.len() > 0 && strippable(s[0], quotes) {
        strip_start(s.subrange(1, s.len() as int), quotes)
    } else {
        s
    }
}

pub open spec fn strip_end(s: Seq<char>, quotes: bool) -> Seq<char>
    decreases s.len(),
{
    if s.len() > 0 && strippable(s.last(), quotes) {
        strip_end(s.drop_last(), quotes)
    } else {
        s
    }
}

/// White space removed at both ends.
pub open spec fn trim(s: Seq<char>) -> Seq<char> {
    strip_end(strip_start(s, false), false)
}

/// Every `"` removed at both ends.
pub open spec fn trim_quotes(s: Seq<char>) -> Seq<char> {
    strip_end(strip_start(s, true), true)
}

fn white(c: char) -> (r: bool)
    ensures
        r == is_white(c),
{
    let u = c as u32;
    (0x09 <= u && u <= 0x0D) || u == 0x20 || u == 0x85 || u == 0xA0 || u == 0x1680 || (0x2000 <= u
        && u <= 0x200A) || u == 0x2028 || u == 0x2029 || u == 0x202F || u == 0x205F || u == 0x3000
}

fn is_strippable(c: char, quotes: bool) -> (r: bool)
    ensures
        r == strippable(c, quotes),
{
    if quotes {
        c == '"'
    } else {
        white(c)
    }
}

pub(crate) fn strip_both(s: &Vec<char>, quotes: bool) -> (r: Vec<char>)
    ensures
        r@ == strip_end(strip_start(s@, quotes), quotes),
{
    let mut a: usize = 0;
    assert(s@.subrange(0, s@.len() as int) == s@);
    while a < s.len() && is_strippable(s[a], quotes)
        invariant
            a <= s@.len(),
            strip_start(s@, quotes) == strip_start(s@.subrange(a as int, s@.len() as int), quotes),
        decreases s.len() - a,
    {
        assert(s@.subrange(a as int, s@.len() as int).subrange(1, s@.len() - a) == s@.subrange(
            a + 1,
            s@.len() as int,
        ));
        a = a + 1;
    }
    let mut b: usize = s.len();
    assert(strip_start(s@, quotes) == s@.subrange(a as int, b as int));
    while b > a && is_strippable(s[b - 1], quotes)
        invariant
            a <= b <= s@.len(),
            strip_end(strip_start(s@, quotes), quotes) == strip_end(s@.subrange(a as int, b as int), quotes),
        decreases b,
    {
        assert(s@.subrange(a as int, b as int).drop_last() == s@.subrange(a as int, b - 1));
        b = b - 1;
    }
    char_range(s, a, b)
}

/// A quoted value loses its quotes; any other value is kept.
pub open spec fn unquoted(s: Seq<char>) -> Seq<char> {
    if s.len() >= 2 && s[0] == '"' && s.last() == '"' {
        s.subrange(1, s.len() - 1)
    } else {
        s
    }
}

/// `key = value`, split at the first `=`, both sides trimmed and the value unquoted.
pub open spec fn key_value(l: Seq<char>) -> Option<(Seq<char>, Seq<char>)> {
    match first_occurrence(l, seq!['='], 0) {
        None => None,
        Some(k) => Some((trim(l.subrange(0, k)), unquoted(trim(l.subrange(k + 1, l.len() as int))))),
    }
}

/// Removes one pair of surrounding double quotes.
pub fn unquote(s: &str) -> (r: String)
    ensures
        r@ == unquoted(s@),
{
    let v = char_vec(s);
    if v.len() >= 2 && v[0] == '"' && v[v.len() - 1] == '"' {
        string_of(&v, 1, v.len() - 1)
    } else {
        string_of(&v, 0, v.len())
    }
}

/// Splits a `key = value` line.
pub fn parse_kv(line: &str) -> (r: Option<(String, String)>)
    ensures
        match r {
            None => key_value(line@) is None,
            Some(p) => key_value(line@) == Some((p.0@, p.1@)),
        },
{
    let l = char_vec(line);
    let eq: Vec<char> = vec!['='];
    assert(eq@ == seq!['=']);
    match find_from(&l, &eq, 0) {
        None => None,
        Some(k) => {
            assert(k < l.len());
            let key = strip_both(&char_range(&l, 0, k), false);
            let val = strip_both(&char_range(&l, k + 1, l.len()), false);
            let key = string_of(&key, 0, key.len());
            let val = string_of(&val, 0, val.len());
            assert(key@ == trim(l@.subrange(0, k as int)));
            let val = unquote(val.as_str());
            Some((key, val))
        },
    }
}

/// The table that the following `key = value` lines belong to.
#[derive(Clone, Copy, PartialEq, Eq, Debug, Structural)]
pub enum Section {
    /// Before any table, or in a table that the formatter ignores.
    Other,
    Fmt,
    FmtRust,
    FmtOxfmt,
}

pub open spec fn section_of(t: Seq<char>) -> Section {
    if t == "[fmt]"@ {
        Section::Fmt
    } else if t == "[fmt.rust]"@ {
        Section::FmtRust
    } else if t == "[fmt.oxfmt]"@ {
        Section::FmtOxfmt
    } else {
        Section::Other
    }
}

/// After the first `n` characters of `s`: the pieces ended by a `,` and the open piece.
pub open spec fn comma_scan(s: Seq<char>, n: nat) -> (Seq<Seq<char>>, Seq<char>)
    decreases n,
{
    if n == 0 || n > s.len() {
        (Seq::empty(), Seq::empty())
    } else {
        let (done, cur) = comma_scan(s, (n - 1) as nat);
        if s[n - 1] == ',' {
            (done.push(cur), Seq::empty())
        } else {
            (done, cur.push(s[n - 1]))
        }
    }
}

/// An array item without its white space and quotes.
pub open spec fn clean_item(p: Seq<char>) -> Seq<char> {
    trim_quotes(trim(p))
}

/// The non-empty cleaned items, in order.
pub open spec fn clean_items(ps: Seq<Seq<char>>) -> Seq<Seq<char>>
    decreases ps.len(),
{
    if ps.len() == 0 {
        Seq::empty()
    } else if clean_item(ps.last()).len() > 0 {
        clean_items(ps.drop_last()).push(clean_item(ps.last()))
    } else {
        clean_items(ps.drop_last())
    }
}

/// The items of a `[a, "b", ...]` value; `None` when it is not bracketed.
pub open spec fn array_items(v: Seq<char>) -> Option<Seq<Seq<char>>> {
    if v.len() >= 2 && v[0] == '[' && v.last() == ']' {
        let inner = v.subrange(1, v.len() - 1);
        let (done, cur) = comma_scan(inner, inner.len());
        Some(clean_items(done.push(cur)))
    } else {
        None
    }
}

/// After the first `n` lines: the current table, the ignore list and the two option lists.
pub open spec fn config_scan(lines: Seq<Seq<char>>, n: nat) -> (
    Section,
    Seq<Seq<char>>,
    Seq<(Seq<char>, Seq<char>)>,
    Seq<(Seq<char>, Seq<char>)>,
)
    decreases n,
{
    if n == 0 || n > lines.len() {
        (Section::Other, default_ignore(), Seq::empty(), Seq::empty())
    } else {
        let (sec, ig, rust, ox) = config_scan(lines, (n - 1) as nat);
        let t = trim(lines[n - 1]);
        if t.len() == 0 || t[0] == '#' {
            (sec, ig, rust, ox)
        } else if t[0] == '[' {
            (section_of(t), ig, rust, ox)
        } else {
            match key_value(t) {
                None => (sec, ig, rust, ox),
                Some(kv) => match sec {
                    Section::Fmt => if kv.0 == "ignore"@ && array_items(kv.1) is Some {
                        (sec, array_items(kv.1)->0, rust, ox)
                    } else {
                        (sec, ig, rust, ox)
                    },
                    Section::FmtRust => (sec, ig, rust.push(kv), ox),
                    Section::FmtOxfmt => (sec, ig, rust, ox.push(kv)),
                    Section::Other => (sec, ig, rust, ox),
                },
            }
        }
    }
}

/// The settings that a configuration text gives: the defaults, changed by its lines.
pub open spec fn config_of(content: Seq<char>) -> (
    Seq<Seq<char>>,
    Seq<(Seq<char>, Seq<char>)>,
    Seq<(Seq<char>, Seq<char>)>,
) {
    let lines = lines_of(content);
    let (_, ig, rust, ox) = config_scan(lines, lines.len());
    (ig, rust, ox)
}

fn parse_section(t: &Vec<char>) -> (r: Section)
    ensures
        r == section_of(t@),
{
    if same_chars(t, &char_vec("[fmt]")) {
        Section::Fmt
    } else if same_chars(t, &char_vec("[fmt.rust]")) {
        Section::FmtRust
    } else if same_chars(t, &char_vec("[fmt.oxfmt]")) {
        Section::FmtOxfmt
    } else {
        Section::Other
    }
}

fn push_clean(items: &mut Vec<String>, piece: &Vec<char>)
    ensures
        views(final(items)@) == if clean_item(piece@).len() > 0 {
            views(old(items)@).push(clean_item(piece@))
        } else {
            views(old(items)@)
        },
{
    let c = strip_both(&strip_both(piece, false), true);
    if c.len() > 0 {
        items.push(string_of(&c, 0, c.len()));
        assert(c@.subrange(0, c@.len() as int) == c@);
        assert(views(items@) =~= views(old(items)@).push(clean_item(piece@)));
    }
}

/// The items of a bracketed array value, or `None` when the value is not bracketed.
pub fn parse_array(v: &Vec<char>) -> (r: Option<Vec<String>>)
    ensures
        match r {
            None => array_items(v@) is None,
            Some(items) => array_items(v@) == Some(views(items@)),
        },
{
    if v.len() < 2 || v[0] != '[' || v[v.len() - 1] != ']' {
        return None;
    }
    let inner = char_range(v, 1, v.len() - 1);
    let mut items: Vec<String> = Vec::new();
    let mut cur: Vec<char> = Vec::new();
    let mut i: usize = 0;
    while i < inner.len()
        invariant
            i <= inner@.len(),
            views(items@) == clean_items(comma_scan(inner@, i as nat).0),
            cur@ == comma_scan(inner@, i as nat).1,
        decreases inner.len() - i,
    {
        if inner[i] == ',' {
            let ghost done = comma_scan(inner@, i as nat).0;
            push_clean(&mut items, &cur);
            assert(done.push(cur@).drop_last() == done);
            cur = Vec::new();
        } else {
            cur.push(inner[i]);
        }
        i = i + 1;
    }
    let ghost done = comma_scan(inner@, i as nat).0;
    push_clean(&mut items, &cur);
    assert(done.push(cur@).drop_last() == done);
    Some(items)
}

/// Reads the formatter settings from a configuration text.
pub fn parse_fmt(content: &str) -> (r: FmtConfig)
    ensures
        config_view(r) == config_of(content@),
{
    let lines = split_lines(content);
    let ghost ls = views(lines@);
    let mut config = FmtConfig::default();
    let mut section = Section::Other;
    let ignore_key = char_vec("ignore");
    let mut i: usize = 0;
    while i < lines.len()
        invariant
            ls == views(lines@),
            ls == lines_of(content@),
            i <= ls.len(),
            ignore_key@ == "ignore"@,
            config_scan(ls, i as nat) == (
                section,
                views(config.ignore@),
                pair_views(config.rust@),
                pair_views(config.oxfmt@),
            ),
        decreases lines.len() - i,
    {
        let l = char_vec(lines[i].as_str());
        assert(l@ == ls[i as int]);
        let t = strip_both(&l, false);
        if t.len() == 0 || t[0] == '#' {
        } else if t[0] == '[' {
            section = parse_section(&t);
        } else {
            let ts = string_of(&t, 0, t.len());
            assert(t@.subrange(0, t@.len() as int) == t@);
            match parse_kv(ts.as_str()) {
                None => {},
                Some(kv) => {
                    let (key, val) = kv;
                    match section {
                        Section::Fmt => {
                            let k = char_vec(key.as_str());
                            if same_chars(&k, &ignore_key) {
                                match parse_array(&char_vec(val.as_str())) {
                                    Some(items) => {
                                        config.ignore = items;
                                    },
                                    None => {},
                                }
                            }
                        },
                        Section::FmtRust => {
                            let ghost before = config.rust@;
                            config.rust.push((key, val));
                            assert(pair_views(config.rust@) =~= pair_views(before).push(
                                (config.rust@.last().0@, config.rust@.last().1@),
                            ));
                        },
                        Section::FmtOxfmt => {
                            let ghost before = config.oxfmt@;
                            config.oxfmt.push((key, val));
                            assert(pair_views(config.oxfmt@) =~= pair_views(before).push(
                                (config.oxfmt@.last().0@, config.oxfmt@.last().1@),
                            ));
                        },
                        Section::Other => {},
                    }
                },
            }
        }
        i = i + 1;
    }
    config
}

} // verus!
