use dobby::changelog::{derive_rule, insert_section, render_section, update_from_commits, ChangelogError};
use dobby::semver::{Rule, Version};

const EXISTING: &str = "# Changelog\n\nAll notable changes.\n\n## 1.2.3\n\n### Fixes\n\n- old fix\n";

fn msgs(v: &[&str]) -> Vec<String> {
    v.iter().map(|s| s.to_string()).collect()
}

#[test]
fn feature_and_fix_derive_minor_and_skip_chores() {
    let m = msgs(&["feat: add x", "fix: y", "chore: z"]);
    assert!(matches!(derive_rule(&m), Rule::Minor));
    let s = render_section(&Version::new(1, 3, 0), &m);
    assert_eq!(s, "## 1.3.0\n\n### Features\n\n- add x\n\n### Fixes\n\n- y\n");
    assert!(!s.contains("Breaking Changes"));
    assert!(!s.contains("z"));
}

#[test]
fn breaking_derives_major() {
    let m = msgs(&["fix: a", "feat!: b"]);
    assert!(matches!(derive_rule(&m), Rule::Major));
    let s = render_section(&Version::new(2, 0, 0), &m);
    assert_eq!(s, "## 2.0.0\n\n### Breaking Changes\n\n- b\n\n### Fixes\n\n- a\n");
}

#[test]
fn no_conventional_commits_still_bumps_patch() {
    let none: Vec<String> = Vec::new();
    assert!(matches!(derive_rule(&none), Rule::Patch));
    let rel = update_from_commits(EXISTING, &msgs(&["wip", "chore: tidy"]), &Version::new(1, 2, 3), None).unwrap();
    assert_eq!(rel.version.to_text(), "1.2.4");
    assert_eq!(rel.changelog, "# Changelog\n\nAll notable changes.\n\n## 1.2.4\n\n## 1.2.3\n\n### Fixes\n\n- old fix\n");
}

#[test]
fn splice_keeps_everything_below_first_header() {
    let out = insert_section(EXISTING, "## 9.9.9\n").unwrap();
    let at = EXISTING.find("## 1.2.3").unwrap();
    assert!(out.ends_with(&EXISTING[at..]));
    assert!(out.starts_with(&EXISTING[..at]));
    assert_eq!(out.len(), EXISTING.len() + "## 9.9.9\n\n".len());
}

#[test]
fn splice_ignores_level_three_headers() {
    let c = "### Notes\n## 0.1.0\n";
    assert_eq!(insert_section(c, "## 0.2.0\n").unwrap(), "### Notes\n## 0.2.0\n\n## 0.1.0\n");
}

#[test]
fn missing_version_header_is_an_error() {
    assert!(matches!(insert_section("# Changelog\n\n### Fixes\n", "## 1.0.0\n"), Err(ChangelogError::MissingVersionHeader)));
    let r = update_from_commits("no headers", &msgs(&["feat: a"]), &Version::new(1, 0, 0), None);
    assert!(matches!(r, Err(ChangelogError::MissingVersionHeader)));
}

#[test]
fn pinned_rule_overrides_commits() {
    let rel = update_from_commits(EXISTING, &msgs(&["feat: a"]), &Version::new(1, 2, 3), Some(Rule::Major)).unwrap();
    assert_eq!(rel.version.to_text(), "2.0.0");
    assert!(rel.changelog.contains("## 2.0.0\n\n### Features\n\n- a\n\n## 1.2.3"));
}

#[test]
fn version_overflow_is_reported() {
    let r = update_from_commits(EXISTING, &msgs(&["feat!: a"]), &Version::new(u64::MAX, 0, 0), None);
    assert!(matches!(r, Err(ChangelogError::VersionTooLarge)));
}
