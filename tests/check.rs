use qwq::check::line_count::{self, load_allowlist, AllowEntry, THRESHOLD};
use qwq::check::{collect_md_files, is_in_code_block, selected_checks, total_errors, Args, CheckCommand};
use qwq::fmt::{is_oxfmt_ext, to_camel_case};
use sha2::Digest;

fn long_doc(lines: usize) -> String {
    (0..lines).map(|i| format!("line {}\n", i)).collect()
}

fn hex(content: &str) -> String {
    format!("{:x}", sha2::Sha256::digest(content.as_bytes()))
}

#[test]
fn fence_toggles() {
    assert!(is_in_code_block("```rust", false));
    assert!(!is_in_code_block("```", true));
    assert!(is_in_code_block("code", true));
    assert!(!is_in_code_block(" ```", false));
}

#[test]
fn md_files_kept_in_order() {
    let paths = vec![
        "spec/a.md".to_string(),
        "spec/b.txt".to_string(),
        "spec/.md".to_string(),
        "spec/c.md".to_string(),
        "spec/dmd".to_string(),
    ];
    assert_eq!(
        collect_md_files(&paths),
        vec!["spec/a.md".to_string(), "spec/c.md".to_string()]
    );
}

#[test]
fn selection_and_totals() {
    assert_eq!(selected_checks(&Args { command: None }).len(), 6);
    assert_eq!(
        selected_checks(&Args { command: Some(CheckCommand::Naming) }),
        vec![CheckCommand::Naming]
    );
    assert_eq!(CheckCommand::LineCount.name(), "line-count");
    assert_eq!(total_errors(&vec![Some(0), Some(0)]), 0);
    assert_eq!(total_errors(&vec![Some(2), None, Some(3)]), 6);
    assert_eq!(total_errors(&vec![Some(usize::MAX), Some(1)]), usize::MAX);
}

#[test]
fn allowlist_parsing() {
    let text = "[[entry]]\nfile = \"spec/a.md\"\ncheck = \"line-count\"\nhash = \"abc\"\n\n[[entry]]\ncheck = \"x\"\n[[entry]]\nfile = \"spec/b.md\"\n";
    let list = load_allowlist(Some(text));
    assert_eq!(list.len(), 2);
    assert_eq!(list[0].file, "spec/a.md");
    assert_eq!(list[0].check, "line-count");
    assert_eq!(list[0].hash, "abc");
    assert_eq!(list[1].file, "spec/b.md");
    assert_eq!(list[1].hash, "");
    assert!(load_allowlist(None).is_empty());
}

#[test]
fn allowlist_matches_exact_content_only() {
    let content = long_doc(THRESHOLD + 1);
    let list = vec![AllowEntry {
        file: "spec/big.md".to_string(),
        check: "line-count".to_string(),
        hash: hex(&content),
    }];
    assert_eq!(line_count::check_file("big.md", "spec/big.md", &content, &list), None);
    assert_eq!(line_count::check_file("big.md", "spec/big.md", &content, &list), None);
    let mut edited = content.clone();
    edited.replace_range(0..1, "L");
    assert_eq!(
        line_count::check_file("big.md", "spec/big.md", &edited, &list),
        Some(THRESHOLD + 1)
    );
    assert_eq!(line_count::check_file("big.md", "spec/other.md", &content, &list), Some(101));
}

#[test]
fn line_threshold_and_exemptions() {
    let at_limit = long_doc(THRESHOLD);
    let over = long_doc(THRESHOLD + 5);
    assert_eq!(line_count::check_file("a.md", "spec/a.md", &at_limit, &vec![]), None);
    assert_eq!(line_count::check_file("a.md", "spec/a.md", &over, &vec![]), Some(105));
    assert_eq!(line_count::check_file("README.md", "spec/README.md", &over, &vec![]), None);
    assert_eq!(line_count::check_file("CHANGELOG.md", "spec/CHANGELOG.md", &over, &vec![]), None);
}

#[test]
fn hash_decides_with_named_digest() {
    let list = vec![AllowEntry {
        file: "spec/big.md".to_string(),
        check: "line-count".to_string(),
        hash: "00ff".to_string(),
    }];
    assert!(!line_count::flagged_with_hash(101, "spec/big.md", "00ff", &list));
    assert!(line_count::flagged_with_hash(101, "spec/big.md", "00fe", &list));
    assert!(!line_count::flagged_with_hash(100, "spec/big.md", "00fe", &list));
    assert!(line_count::allowed(&list, "spec/big.md", "00ff"));
    assert!(!line_count::allowed(&list, "spec/big.md", "00FF"));
}

#[test]
fn formatter_helpers() {
    assert_eq!(to_camel_case("max_line_width"), "maxLineWidth");
    assert_eq!(to_camel_case("tab"), "tab");
    assert_eq!(to_camel_case("a__b_"), "aB");
    assert!(is_oxfmt_ext("graphql"));
    assert!(is_oxfmt_ext("md"));
    assert!(!is_oxfmt_ext("rs"));
}
