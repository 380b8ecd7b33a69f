use qwq::config::{parse_fmt, parse_kv, unquote, FmtConfig};
use qwq::fmt::{build_oxfmt_json, is_rs_file, skips_dir};

fn pairs(v: &[(&str, &str)]) -> Vec<(String, String)> {
    v.iter().map(|(a, b)| (a.to_string(), b.to_string())).collect()
}

#[test]
fn default_config() {
    let c = FmtConfig::default();
    assert_eq!(c.ignore, vec!["target".to_string(), "node_modules".to_string()]);
    assert!(c.rust.is_empty());
    assert!(c.oxfmt.is_empty());
}

#[test]
fn key_values() {
    assert_eq!(parse_kv("a = \"b\""), Some(("a".to_string(), "b".to_string())));
    assert_eq!(parse_kv(" width=100 "), Some(("width".to_string(), "100".to_string())));
    assert_eq!(parse_kv("x = a=b"), Some(("x".to_string(), "a=b".to_string())));
    assert_eq!(parse_kv("novalue"), None);
    assert_eq!(unquote("\"q\""), "q");
    assert_eq!(unquote("\""), "\"");
}

#[test]
fn sections_and_arrays() {
    let text = "# comment\n[fmt]\nignore = [\"target\", vendor , \"\"]\n\n[fmt.rust]\nmax_width = 100\nhard_tabs = true\n[other]\nx = 1\n[fmt.oxfmt]\nprint_width = \"80\"\n";
    let c = parse_fmt(text);
    assert_eq!(c.ignore, vec!["target".to_string(), "vendor".to_string()]);
    assert_eq!(c.rust, pairs(&[("max_width", "100"), ("hard_tabs", "true")]));
    assert_eq!(c.oxfmt, pairs(&[("print_width", "80")]));
}

#[test]
fn ignore_needs_brackets() {
    let c = parse_fmt("[fmt]\nignore = \"target\"\n");
    assert_eq!(c.ignore, vec!["target".to_string(), "node_modules".to_string()]);
    let c = parse_fmt("[fmt]\nignore = []\n");
    assert!(c.ignore.is_empty());
}

#[test]
fn oxfmt_json_text() {
    let cfg = pairs(&[("print_width", "80"), ("semi", "false"), ("quote_props", "\"as-needed\"")]);
    assert_eq!(
        build_oxfmt_json(&cfg, &vec![true, false, false]),
        "{\n\t\"printWidth\": 80,\n\t\"semi\": false,\n\t\"quoteProps\": \"as-needed\"\n}\n"
    );
    assert_eq!(build_oxfmt_json(&vec![], &vec![]), "{\n\n}\n");
}

#[test]
fn rust_walk_rules() {
    assert!(is_rs_file("src/main.rs"));
    assert!(!is_rs_file("src/.rs"));
    assert!(!is_rs_file("notes.rst"));
    let ignore = vec!["target".to_string()];
    assert!(skips_dir(".git", &ignore));
    assert!(skips_dir("target", &ignore));
    assert!(!skips_dir("src", &ignore));
}
