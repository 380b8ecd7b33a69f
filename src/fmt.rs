//! The formatter front end's own logic: configuration keys in camel case, and the file
//! extensions that go to the document formatter.
use vstd::prelude::*;

use crate::config::{strip_both, trim_quotes};
use crate::text::{append_chars, char_vec, ends_with, has_suffix, is_lower, push_char, same_chars};

verus! {

/// A format request: a file or directory, and whether only to check.
pub struct Args {
    pub path: String,
    pub check: bool,
}

/// `c` in ASCII uppercase; other characters unchanged.
pub open spec fn upper_ascii(c: char) -> char {
    if is_lower(c) {
        ((c as u32 - 32) as u8) as char
    } else {
        c
    }
}

fn to_upper(c: char) -> (r: char)
    ensures
        r == upper_ascii(c),
{
    if 'a' <= c && c <= 'z' {
        ((c as u32 - 32) as u8) as char
    } else {
        c
    }
}

/// After the first `n` characters: whether the next one is to be raised, and the output.
pub open spec fn camel_scan(s: Seq<char>, n: nat) -> (bool, Seq<char>)
    decreases n,
{
    if n == 0 || n > s.len() {
        (false, Seq::empty())
    } else {
        let (raise, out) = camel_scan(s, (n - 1) as nat);
        let c = s[n - 1];
        if c == '_' {
            (true, out)
        } else if raise {
            (false, out.push(upper_ascii(c)))
        } else {
            (false, out.push(c))
        }
    }
}

/// `snake_case` to `camelCase`: each `_` is dropped and the character after it raised.
pub open spec fn camel_case(s: Seq<char>) -> Seq<char> {
    camel_scan(s, s.len()).1
}

pub fn to_camel_case(s: &str) -> (r: String)
    ensures
        r@ == camel_case(s@),
{
    let v = char_vec(s);
    let mut r = String::new();
    let mut raise = false;
    let mut i: usize = 0;
    while i < v.len()
        invariant
            v@ == s@,
            i <= v@.len(),
            (raise, r@) == camel_scan(v@, i as nat),
        decreases v.len() - i,
    {
        let c = v[i];
        if c == '_' {
            raise = true;
        } else if raise {
            push_char(&mut r, to_upper(c));
            raise = false;
        } else {
            push_char(&mut r, c);
        }
        i = i + 1;
    }
    r
}

/// The extensions that the document formatter handles.
pub open spec fn oxfmt_ext(e: Seq<char>) -> bool {
    e == "js"@ || e == "jsx"@ || e == "ts"@ || e == "tsx"@ || e == "json"@ || e == "jsonc"@ || e
        == "json5"@ || e == "md"@ || e == "mdx"@ || e == "css"@ || e == "scss"@ || e == "less"@
        || e == "html"@ || e == "vue"@ || e == "yaml"@ || e == "yml"@ || e == "toml"@ || e
        == "graphql"@
}

/// Whether a file with this extension goes to the document formatter.
pub fn is_oxfmt_ext(ext: &str) -> (r: bool)
    ensures
        r == oxfmt_ext(ext@),
{
    let e = char_vec(ext);
    let names = [
        "js", "jsx", "ts", "tsx", "json", "jsonc", "json5", "md", "mdx", "css", "scss", "less",
        "html", "vue", "yaml", "yml", "toml", "graphql",
    ];
    let mut i: usize = 0;
    while i < 18
        invariant
            e@ == ext@,
            names@ == seq![
                "js", "jsx", "ts", "tsx", "json", "jsonc", "json5", "md", "mdx", "css", "scss",
                "less", "html", "vue", "yaml", "yml", "toml", "graphql",
            ],
            forall|j: int| 0 <= j < i ==> ext@ != (#[trigger] names@[j])@,
            i <= 18,
        decreases 18 - i,
    {
        if same_chars(&e, &char_vec(names[i])) {
            return true;
        }
        i = i + 1;
    }
    assert(!oxfmt_ext(ext@)) by {
        assert(ext@ != names@[0]@);
        assert(ext@ != names@[1]@);
        assert(ext@ != names@[2]@);
        assert(ext@ != names@[3]@);
        assert(ext@ != names@[4]@);
        assert(ext@ != names@[5]@);
        assert(ext@ != names@[6]@);
        assert(ext@ != names@[7]@);
        assert(ext@ != names@[8]@);
        assert(ext@ != names@[9]@);
        assert(ext@ != names@[10]@);
        assert(ext@ != names@[11]@);
        assert(ext@ != names@[12]@);
        assert(ext@ != names@[13]@);
        assert(ext@ != names@[14]@);
        assert(ext@ != names@[15]@);
        assert(ext@ != names@[16]@);
        assert(ext@ != names@[17]@);
    }
    false
}

/// A path whose file name has the extension `rs`.
pub open spec fn is_rs_path(p: Seq<char>) -> bool {
    p.len() > 3 && ends_with(p, seq!['.', 'r', 's']) && p[p.len() - 4] != '/'
}

/// Whether a path names a Rust source file.
pub fn is_rs_file(path: &str) -> (r: bool)
    ensures
        r == is_rs_path(path@),
{
    let p = char_vec(path);
    let ext: Vec<char> = vec!['.', 'r', 's'];
    assert(ext@ == seq!['.', 'r', 's']);
    p.len() > 3 && has_suffix(&p, &ext) && p[p.len() - 4] != '/'
}

/// Hidden directories and those named in the ignore list are not walked.
pub open spec fn skipped_dir(name: Seq<char>, ignore: Seq<String>) -> bool {
    (name.len() > 0 && name[0] == '.') || exists|i: int| 0 <= i < ignore.len() && ignore[i]@ == name
}

/// Whether the Rust file walk leaves out a directory of this name.
pub fn skips_dir(name: &str, ignore: &Vec<String>) -> (r: bool)
    ensures
        r == skipped_dir(name@, ignore@),
{
    let n = char_vec(name);
    if n.len() > 0 && n[0] == '.' {
        return true;
    }
    let mut i: usize = 0;
    while i < ignore.len()
        invariant
            n@ == name@,
            !(n@.len() > 0 && n@[0] == '.'),
            i <= ignore@.len(),
            forall|j: int| 0 <= j < i ==> ignore@[j]@ != name@,
        decreases ignore.len() - i,
    {
        if same_chars(&char_vec(ignore[i].as_str()), &n) {
            return true;
        }
        i = i + 1;
    }
    false
}

/// A configuration value in JSON: `true`, `false` and numbers bare, anything else as a
/// string with its surrounding quotes replaced.
pub open spec fn json_value(v: Seq<char>, numeric: bool) -> Seq<char> {
    if v == "true"@ || v == "false"@ || numeric {
        v
    } else {
        seq!['"'] + trim_quotes(v) + seq!['"']
    }
}

/// One `\t"camelKey": value` member.
pub open spec fn json_member(k: Seq<char>, v: Seq<char>, numeric: bool) -> Seq<char> {
    seq!['\t', '"'] + camel_case(k) + seq!['"', ':', ' '] + json_value(v, numeric)
}

/// The first `n` members, separated by `,` and a line break.
pub open spec fn json_members(cfg: Seq<(String, String)>, numeric: Seq<bool>, n: nat) -> Seq<char>
    decreases n,
{
    if n == 0 || n > cfg.len() {
        Seq::empty()
    } else if n == 1 {
        json_member(cfg[0].0@, cfg[0].1@, numeric[0])
    } else {
        json_members(cfg, numeric, (n - 1) as nat) + seq![',', '\n'] + json_member(
            cfg[n - 1].0@,
            cfg[n - 1].1@,
            numeric[n - 1],
        )
    }
}

/// The document formatter's configuration file for the given options.
pub open spec fn oxfmt_json(cfg: Seq<(String, String)>, numeric: Seq<bool>) -> Seq<char> {
    seq!['{', '\n'] + json_members(cfg, numeric, cfg.len()) + seq!['\n', '}', '\n']
}

fn json_value_of(v: &str, numeric: bool) -> (r: Vec<char>)
    ensures
        r@ == json_value(v@, numeric),
{
    let c = char_vec(v);
    if same_chars(&c, &char_vec("true")) || same_chars(&c, &char_vec("false")) || numeric {
        return c;
    }
    let mut r: Vec<char> = vec!['"'];
    let inner = strip_both(&c, true);
    let mut i: usize = 0;
    while i < inner.len()
        invariant
            i <= inner@.len(),
            r@ == seq!['"'] + inner@.subrange(0, i as int),
        decreases inner.len() - i,
    {
        r.push(inner[i]);
        assert(inner@.subrange(0, i + 1) == inner@.subrange(0, i as int).push(inner@[i as int]));
        i = i + 1;
    }
    r.push('"');
    assert(inner@.subrange(0, inner@.len() as int) == inner@);
    r
}

/// Writes the options as the document formatter's JSON configuration; `numeric[i]` says
/// whether the value of `cfg[i]` reads as a number.
pub fn build_oxfmt_json(cfg: &Vec<(String, String)>, numeric: &Vec<bool>) -> (r: String)
    requires
        numeric@.len() == cfg@.len(),
    ensures
        r@ == oxfmt_json(cfg@, numeric@),
{
    let mut r = String::new();
    append_chars(&mut r, &vec!['{', '\n']);
    let mut i: usize = 0;
    while i < cfg.len()
        invariant
            i <= cfg@.len(),
            numeric@.len() == cfg@.len(),
            r@ == seq!['{', '\n'] + json_members(cfg@, numeric@, i as nat),
        decreases cfg.len() - i,
    {
        if i > 0 {
            append_chars(&mut r, &vec![',', '\n']);
        }
        append_chars(&mut r, &vec!['\t', '"']);
        let camel = to_camel_case(cfg[i].0.as_str());
        append_chars(&mut r, &char_vec(camel.as_str()));
        append_chars(&mut r, &vec!['"', ':', ' ']);
        append_chars(&mut r, &json_value_of(cfg[i].1.as_str(), numeric[i]));
        i = i + 1;
    }
    append_chars(&mut r, &vec!['\n', '}', '\n']);
    r
}

} // verus!
