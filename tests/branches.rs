use dobby::branch::{branch_name, issue_from_branch, BranchError};
use dobby::state::Issue;

#[test]
fn jira_branch_name() {
    let i = Issue::Jira { key: "ABC-12".to_string(), summary: "Fix The Thing!".to_string() };
    assert_eq!(branch_name(&i), "ABC-12-fix-the-thing-");
}

#[test]
fn github_branch_name() {
    let i = Issue::GitHub { number: 42, title: "Add docs".to_string() };
    assert_eq!(branch_name(&i), "42-add-docs");
}

#[test]
fn branch_reads_back_as_issue() {
    match issue_from_branch("ABC-12-fix-the-thing").unwrap() {
        Issue::Jira { key, summary } => {
            assert_eq!(key, "ABC-12");
            assert_eq!(summary, "fix the thing");
        }
        _ => panic!("expected a Jira issue"),
    }
    match issue_from_branch("42-add-docs").unwrap() {
        Issue::GitHub { number, title } => {
            assert_eq!(number, 42);
            assert_eq!(title, "add docs");
        }
        _ => panic!("expected a GitHub issue"),
    }
}

#[test]
fn unrecognized_branches_fail() {
    for b in ["main", "feature/x", "-x", "abc-12-x", "ABC-x-y", "ABC-12"] {
        assert!(matches!(issue_from_branch(b), Err(BranchError::Unrecognized)), "{}", b);
    }
    assert!(matches!(issue_from_branch("99999999999999999999-x"), Err(BranchError::NumberTooLarge)));
}
