use qwq::check::changelog::{cat_order, is_valid_timestamp_entry, run, ChangelogIssue};

#[test]
fn timestamp_shape() {
    assert!(is_valid_timestamp_entry("## [2026-02-10T16:16:38Z]"));
    assert!(!is_valid_timestamp_entry("## [2026-02-10 16:16:38Z]"));
    assert!(!is_valid_timestamp_entry("## [2026-02-10T16:16:38]"));
    assert!(!is_valid_timestamp_entry("## [2026-02-10T16:16:38Z"));
    assert!(!is_valid_timestamp_entry("# [2026-02-10T16:16:38Z]"));
}

#[test]
fn category_ranks() {
    assert_eq!(cat_order("Breaking"), 1);
    assert_eq!(cat_order("Added"), 2);
    assert_eq!(cat_order("Changed"), 3);
    assert_eq!(cat_order("Fixed"), 4);
    assert_eq!(cat_order("Removed"), 5);
    assert_eq!(cat_order("Security"), 0);
    assert_eq!(cat_order("added"), 0);
}

#[test]
fn out_of_order_category_reported_once() {
    let text = "# Changelog\n\n## [2026-02-10T16:16:38Z]\n### Breaking\n### Added\n### Fixed\n### Changed\n";
    assert_eq!(
        run(Some(text)),
        vec![ChangelogIssue::WrongOrder { line: 7, version: Some(3) }]
    );
}

#[test]
fn canonical_order_passes() {
    let text = "# Changelog\n## [2026-02-10T16:16:38Z]\n### Breaking\n### Added\n### Changed\n### Fixed\n### Removed\n";
    assert_eq!(run(Some(text)), vec![]);
}

#[test]
fn rank_resets_at_each_version() {
    let text = "# Changelog\n## [2026-02-10T16:16:38Z]\n### Removed\n## [2026-02-09T10:00:00Z]\n### Breaking\n### Fixed\n### Fixed\n";
    assert_eq!(run(Some(text)), vec![]);
}

#[test]
fn unknown_category_flagged() {
    let text = "# Changelog\n## [2026-02-10T16:16:38Z]\n### Added\n### Security\n### Fixed\n";
    assert_eq!(
        run(Some(text)),
        vec![ChangelogIssue::UnknownCategory { line: 4, version: Some(2) }]
    );
}

#[test]
fn missing_and_headerless_changelogs() {
    assert_eq!(run(None), vec![ChangelogIssue::Missing]);
    assert_eq!(run(Some("")), vec![ChangelogIssue::NoHeader]);
    let text = "intro\n\n\n# Changelog\n## [bad]\n### Misc\n";
    assert_eq!(
        run(Some(text)),
        vec![
            ChangelogIssue::NoHeader,
            ChangelogIssue::BadVersion { line: 5 },
            ChangelogIssue::UnknownCategory { line: 6, version: Some(5) },
        ]
    );
}

#[test]
fn category_before_any_version() {
    let text = "# Changelog\n### Fixed\n### Added\n";
    assert_eq!(
        run(Some(text)),
        vec![ChangelogIssue::WrongOrder { line: 3, version: None }]
    );
}
