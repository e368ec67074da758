use dobby::command::{command_line, replace_all, resolve_variables, substitute, Variable};

#[test]
fn substitutes_matching_key() {
    let vars = vec![("version".to_string(), "1.2.3".to_string())];
    assert_eq!(substitute("git tag v.version", &vars), "git tag v.1.2.3");
    let dotted = vec![(".version".to_string(), "1.2.3".to_string())];
    assert_eq!(substitute("git tag v.version", &dotted), "git tag v1.2.3");
}

#[test]
fn unmatched_key_leaves_template() {
    let vars = vec![("versoin".to_string(), "1.2.3".to_string())];
    assert_eq!(substitute("git tag v.version", &vars), "git tag v.version");
}

#[test]
fn replaces_every_occurrence() {
    assert_eq!(replace_all("a-x-x-b", "x", "yy"), "a-yy-yy-b");
    assert_eq!(replace_all("aaa", "aa", "b"), "ba");
    assert_eq!(replace_all("abc", "", "z"), "abc");
}

#[test]
fn command_line_uses_current_version() {
    let vars = vec![("version".to_string(), Variable::Version)];
    let v = "1.0.0";
    assert_eq!(command_line("git tag v.version", &vars, v), "git tag v.1.0.0");
    let r = resolve_variables(&vars, v);
    assert_eq!(r, vec![("version".to_string(), "1.0.0".to_string())]);
    assert_eq!(command_line("echo hi", &Vec::new(), v), "echo hi");
}
