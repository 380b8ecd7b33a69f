use qwq::check::forbidden;
use qwq::check::links;
use qwq::check::naming::{self, is_allowed_uppercase, is_valid_name, Entry};
use qwq::check::terminology::{self, contains_word_pair, strip_inline_code, Term};

#[test]
fn pictograph_in_prose_flagged_once() {
    let text = "# Title\nall good \u{2705}\u{2705} twice\n```\nexample \u{2705}\n```\nplain\n";
    assert_eq!(forbidden::run(text), vec![2]);
}

#[test]
fn pictograph_ranges() {
    assert!(forbidden::contains_emoji("a \u{1F600}"));
    assert!(forbidden::contains_emoji("\u{2600}"));
    assert!(forbidden::contains_emoji("x\u{FE0F}"));
    assert!(forbidden::contains_emoji("\u{200D}"));
    assert!(!forbidden::contains_emoji("plain text, \u{00E9} and \u{27C0}"));
    assert!(forbidden::contains_emoji("inline `\u{1F600}` code is not exempt"));
}

#[test]
fn terminology_word_pairs() {
    assert!(contains_word_pair("the lib crate", "lib", "crate"));
    assert!(!contains_word_pair("the library crate", "lib", "crate"));
    assert!(!contains_word_pair("alib crate", "lib", "crate"));
    assert!(!contains_word_pair("lib crates", "lib", "crate"));
    assert!(contains_word_pair("(lib crate)", "lib", "crate"));
}

#[test]
fn terminology_scan() {
    let text = "The Lib Crate and the bin crate\nuse `lib crate` here\n```\nlib crate\n```\nlibrary crate\n";
    assert_eq!(
        terminology::run(text),
        vec![(1, Term::LibCrate), (1, Term::BinCrate)]
    );
}

#[test]
fn inline_code_removed() {
    assert_eq!(strip_inline_code("a `b` c"), "a  c");
    assert_eq!(strip_inline_code("open `tick"), "open ");
}

#[test]
fn naming_rules() {
    assert!(!is_valid_name("Foo.md"));
    assert!(is_valid_name("CHANGELOG.md"));
    assert!(is_valid_name("foo-bar.v2.md"));
    assert!(!is_valid_name("-foo.md"));
    assert!(!is_valid_name("foo_bar.md"));
    assert!(!is_valid_name(""));
    assert!(is_allowed_uppercase("VERSION"));
    assert!(!is_allowed_uppercase("LICENSE"));
}

#[test]
fn naming_checks_every_entry() {
    let entries = vec![
        Entry { path: "spec/Bad".to_string(), name: "Bad".to_string() },
        Entry { path: "spec/Bad/Worse.md".to_string(), name: "Worse.md".to_string() },
        Entry { path: "spec/Bad/ok.md".to_string(), name: "ok.md".to_string() },
        Entry { path: "spec/README.md".to_string(), name: "README.md".to_string() },
    ];
    assert_eq!(
        naming::run(&entries),
        vec!["spec/Bad".to_string(), "spec/Bad/Worse.md".to_string()]
    );
}

#[test]
fn link_targets() {
    let text = "see [x](./sub/doc.md#section) and [y](https://example.com)\n[z](#top) [w](a.md)\n```\n[q](gone.md)\n```\n";
    let refs: Vec<(usize, String)> = links::run(text)
        .into_iter()
        .map(|r| (r.line, r.target))
        .collect();
    assert_eq!(
        refs,
        vec![(1, "./sub/doc.md".to_string()), (2, "a.md".to_string())]
    );
}

#[test]
fn link_edge_cases() {
    assert!(links::run("[a](http://x.org) [b](#only) [c]()").is_empty());
    let refs = links::line_links("[a](b.md) text ](c.md)", 4);
    assert_eq!(refs.len(), 2);
    assert_eq!(refs[0].line, 4);
    assert_eq!(refs[1].target, "c.md");
    assert!(links::line_links("no close ](x.md", 1).is_empty());
}
