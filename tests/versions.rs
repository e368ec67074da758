use dobby::semver::{Rule, Version, VersionError};

fn text(v: &Version) -> String {
    v.to_text()
}

#[test]
fn bump_major_minor_patch() {
    let v = Version::new(1, 2, 3);
    assert_eq!(text(&v.bump(&Rule::Major).unwrap()), "2.0.0");
    assert_eq!(text(&v.bump(&Rule::Minor).unwrap()), "1.3.0");
    assert_eq!(text(&v.bump(&Rule::Patch).unwrap()), "1.2.4");
}

#[test]
fn bump_prerelease_round_trip() {
    let v = Version::new(1, 2, 3);
    let rc = Rule::Pre { label: "rc".to_string() };
    let rc0 = v.bump(&rc).unwrap();
    assert_eq!(text(&rc0), "1.2.3-rc.0");
    let rc1 = rc0.bump(&rc).unwrap();
    assert_eq!(text(&rc1), "1.2.3-rc.1");
    let released = rc1.bump(&Rule::Release).unwrap();
    assert_eq!(text(&released), "1.2.3");
}

#[test]
fn prerelease_with_other_label_restarts() {
    let v = Version::with_pre(1, 2, 3, "beta", 4);
    let r = v.bump(&Rule::Pre { label: "rc".to_string() }).unwrap();
    assert_eq!(text(&r), "1.2.3-rc.0");
}

#[test]
fn major_bump_clears_prerelease() {
    let v = Version::with_pre(0, 9, 9, "rc", 2);
    assert_eq!(text(&v.bump(&Rule::Major).unwrap()), "1.0.0");
}

#[test]
fn bump_overflow_is_an_error() {
    let v = Version::new(u64::MAX, 0, 0);
    assert!(matches!(v.bump(&Rule::Major), Err(VersionError::TooLarge)));
    let p = Version::with_pre(1, 0, 0, "rc", u64::MAX);
    assert!(matches!(p.bump(&Rule::Pre { label: "rc".to_string() }), Err(VersionError::TooLarge)));
}

#[test]
fn version_text_of_large_numbers() {
    let v = Version::new(10, 0, 18446744073709551615);
    assert_eq!(text(&v), "10.0.18446744073709551615");
}
