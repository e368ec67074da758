use dobby::commits::{classify, parse_commit, Kind};

#[test]
fn classify_feature_and_fix() {
    assert_eq!(classify("feat: add x"), Kind::Feature);
    assert_eq!(classify("fix: y"), Kind::Fix);
    assert_eq!(classify("chore: z"), Kind::Other);
}

#[test]
fn classify_with_scope() {
    assert_eq!(classify("feat(parser): allow tabs"), Kind::Feature);
    assert_eq!(classify("fix(ui)!: drop old layout"), Kind::Breaking);
}

#[test]
fn breaking_marker_wins_over_type() {
    assert_eq!(classify("chore!: drop support"), Kind::Breaking);
    assert_eq!(classify("feat: new api\n\nBREAKING CHANGE: old api removed"), Kind::Breaking);
}

#[test]
fn non_conventional_is_other() {
    assert_eq!(classify("Merge branch 'main'"), Kind::Other);
    assert_eq!(classify("feat:missing space"), Kind::Other);
    assert_eq!(classify("feat: "), Kind::Other);
    assert_eq!(classify(""), Kind::Other);
    assert_eq!(classify("fix(unclosed: y"), Kind::Other);
}

#[test]
fn description_is_rest_of_first_line() {
    let r = parse_commit("feat(cli): add --dry-run\n\nlonger body");
    assert_eq!(r.kind, Kind::Feature);
    assert_eq!(r.description, "add --dry-run");
    let o = parse_commit("just words\nmore");
    assert_eq!(o.kind, Kind::Other);
    assert_eq!(o.description, "just words");
}
