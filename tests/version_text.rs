use dobby::semver::{bump_version_text, parse_version, Rule, VersionError};

#[test]
fn parses_release_and_prerelease() {
    let v = parse_version("1.2.3").unwrap();
    assert_eq!((v.major, v.minor, v.patch), (1, 2, 3));
    assert!(v.pre.is_none());
    let p = parse_version("0.10.7-rc.4").unwrap();
    assert_eq!((p.major, p.minor, p.patch), (0, 10, 7));
    let pre = p.pre.unwrap();
    assert_eq!(pre.label, "rc");
    assert_eq!(pre.number, 4);
}

#[test]
fn parsed_version_renders_back() {
    for t in ["1.2.3", "10.0.0-beta.12", "0.0.1"] {
        assert_eq!(parse_version(t).unwrap().to_text(), t);
    }
}

#[test]
fn malformed_versions_are_rejected() {
    for t in ["", "1.2", "1.2.3.4", "a.b.c", "1..3", "1.2.3-", "1.2.3-rc", "1.2.3-.1", "1.2.3-rc.x", "v1.2.3"] {
        assert!(matches!(parse_version(t), Err(VersionError::Malformed)), "{}", t);
    }
}

#[test]
fn oversized_component_is_too_large() {
    assert!(matches!(parse_version("18446744073709551616.0.0"), Err(VersionError::TooLarge)));
    assert!(matches!(parse_version("1.0.0-rc.99999999999999999999"), Err(VersionError::TooLarge)));
    assert!(parse_version("18446744073709551615.0.0").is_ok());
}

#[test]
fn bump_version_text_reads_bumps_and_writes() {
    assert_eq!(bump_version_text("1.2.3", &Rule::Minor).unwrap(), "1.3.0");
    assert_eq!(bump_version_text("1.2.3-rc.1", &Rule::Release).unwrap(), "1.2.3");
    assert_eq!(bump_version_text("1.2.3-rc.1", &Rule::Pre { label: "rc".to_string() }).unwrap(), "1.2.3-rc.2");
    assert!(matches!(bump_version_text("1.2", &Rule::Patch), Err(VersionError::Malformed)));
    assert!(matches!(bump_version_text("1.18446744073709551615.0", &Rule::Minor), Err(VersionError::TooLarge)));
}
