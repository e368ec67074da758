use dobby::state::{Issue, State};
use dobby::step::{check_precondition, replay, run_step, Action, Outcome, Step, StepError, StepKind};
use dobby::command::Variable;
use dobby::changelog::ChangelogError;
use dobby::semver::VersionError;
use dobby::semver::Rule;

fn jira(key: &str) -> Issue {
    Issue::Jira { key: key.to_string(), summary: "Do it".to_string() }
}

#[test]
fn select_jira_twice_fails() {
    let step = Step::SelectJiraIssue { status: "Backlog".to_string() };
    let s = run_step(&step, State::NoIssueSelected, Outcome::Picked(jira("ABC-1"))).ok().unwrap().0;
    assert!(s.has_issue());
    let f = run_step(&step, s, Outcome::Picked(jira("ABC-2"))).err().unwrap();
    assert!(matches!(f.error, StepError::IssueAlreadySelected));
    assert_eq!(f.kind, StepKind::SelectJiraIssue);
    assert!(matches!(f.state, State::IssueSelected { issue: Issue::Jira { ref key, .. } } if key == "ABC-1"));
}

#[test]
fn transition_on_github_issue_fails_before_outside_work() {
    let s = State::IssueSelected { issue: Issue::GitHub { number: 7, title: "Bug".to_string() } };
    let step = Step::TransitionJiraIssue { status: "Done".to_string() };
    assert!(matches!(check_precondition(&step, &s), Err(StepError::NotAJiraIssue)));
    let f = run_step(&step, s, Outcome::Done).err().unwrap();
    assert!(matches!(f.error, StepError::NotAJiraIssue));
}

#[test]
fn selection_failures() {
    let step = Step::SelectGitHubIssue { labels: None };
    let f = run_step(&step, State::NoIssueSelected, Outcome::NoCandidates).err().unwrap();
    assert!(matches!(f.error, StepError::NoCandidates));
    let g = run_step(&step, State::NoIssueSelected, Outcome::NothingPicked).err().unwrap();
    assert!(matches!(g.error, StepError::NothingSelected));
    assert_eq!(g.kind.context(), "During SelectGitHubIssue");
}

#[test]
fn switch_branches_needs_an_issue() {
    let f = run_step(&Step::SwitchBranches, State::NoIssueSelected, Outcome::Done).err().unwrap();
    assert!(matches!(f.error, StepError::NoIssueSelected));
}

#[test]
fn failed_step_hands_back_the_state_it_was_given() {
    let steps = vec![
        Step::SelectJiraIssue { status: "Backlog".to_string() },
        Step::BumpVersion(Rule::Patch),
        Step::RebaseBranch { to: "main".to_string() },
        Step::UpdateProjectFromCommits,
    ];
    let outcomes = vec![
        Outcome::Picked(jira("ABC-9")),
        Outcome::CurrentVersion { text: "1.2.3".to_string() },
        Outcome::Failed { message: "dirty tree".to_string() },
        Outcome::Done,
    ];
    let (k, f) = replay(&steps, outcomes, State::NoIssueSelected).err().unwrap();
    assert_eq!(k, 2);
    assert_eq!(f.kind, StepKind::RebaseBranch);
    assert!(matches!(f.error, StepError::Collaborator { ref message } if message == "dirty tree"));
    assert!(matches!(f.state, State::IssueSelected { issue: Issue::Jira { ref key, .. } } if key == "ABC-9"));
}

#[test]
fn replay_of_successful_steps() {
    let steps = vec![Step::SelectIssueFromBranch, Step::SwitchBranches];
    let outcomes = vec![Outcome::Picked(jira("X-1")), Outcome::Done];
    let s = replay(&steps, outcomes, State::NoIssueSelected).ok().unwrap();
    assert!(s.has_issue());
}

#[test]
fn error_context_names_the_step() {
    assert_eq!(StepKind::RebaseBranch.context(), "During RebaseBranch");
    assert_eq!(StepKind::UpdateProjectFromCommits.context(), "During UpdateProjectFromCommits");
    let f = run_step(&Step::Command { command: "false".to_string(), variables: None }, State::NoIssueSelected, Outcome::Failed { message: "exit 1".to_string() }).err().unwrap();
    assert_eq!(f.kind.context(), "During Command");
}

#[test]
fn non_selection_steps_keep_state() {
    let s = State::IssueSelected { issue: jira("K-1") };
    let out = run_step(&Step::BumpVersion(Rule::Patch), s, version("1.0.0")).ok().unwrap().0;
    assert!(matches!(out, State::IssueSelected { issue: Issue::Jira { ref key, .. } } if key == "K-1"));
}

fn version(t: &str) -> Outcome {
    Outcome::CurrentVersion { text: t.to_string() }
}

fn written_version(step: Step, current: &str) -> String {
    match run_step(&step, State::NoIssueSelected, version(current)).ok().unwrap() {
        (State::NoIssueSelected, Action::WriteVersion { text }) => text,
        _ => panic!("expected a version to write"),
    }
}

#[test]
fn bump_step_writes_bumped_version() {
    assert_eq!(written_version(Step::BumpVersion(Rule::Major), "1.2.3"), "2.0.0");
    assert_eq!(written_version(Step::BumpVersion(Rule::Minor), "1.2.3"), "1.3.0");
    assert_eq!(written_version(Step::BumpVersion(Rule::Patch), "1.2.3"), "1.2.4");
}

#[test]
fn bump_step_prerelease_then_release() {
    let rc = || Step::BumpVersion(Rule::Pre { label: "rc".to_string() });
    let first = written_version(rc(), "1.2.3");
    assert_eq!(first, "1.2.3-rc.0");
    let second = written_version(rc(), &first);
    assert_eq!(second, "1.2.3-rc.1");
    assert_eq!(written_version(Step::BumpVersion(Rule::Release), &second), "1.2.3");
}

#[test]
fn bump_step_errors() {
    let f = run_step(&Step::BumpVersion(Rule::Patch), State::NoIssueSelected, version("1.2")).err().unwrap();
    assert!(matches!(f.error, StepError::Version(VersionError::Malformed)));
    assert_eq!(f.kind.context(), "During BumpVersion");
    let g = run_step(&Step::BumpVersion(Rule::Patch), State::NoIssueSelected, Outcome::Done).err().unwrap();
    assert!(matches!(g.error, StepError::MissingInput));
}

const CHANGELOG: &str = "# Changelog\n\n## 1.2.3\n\n### Fixes\n\n- old\n";

fn release(messages: &[&str], changelog: &str) -> Result<(String, String), StepError> {
    let o = Outcome::History {
        version: "1.2.3".to_string(),
        messages: messages.iter().map(|m| m.to_string()).collect(),
        changelog: changelog.to_string(),
    };
    match run_step(&Step::UpdateProjectFromCommits, State::NoIssueSelected, o) {
        Ok((_, Action::WriteRelease { version, changelog })) => Ok((version, changelog)),
        Ok(_) => panic!("expected a release to write"),
        Err(f) => Err(f.error),
    }
}

#[test]
fn update_step_feature_and_fix() {
    let (v, c) = release(&["feat: add x", "fix: y", "chore: z"], CHANGELOG).ok().unwrap();
    assert_eq!(v, "1.3.0");
    assert_eq!(c, "# Changelog\n\n## 1.3.0\n\n### Features\n\n- add x\n\n### Fixes\n\n- y\n\n## 1.2.3\n\n### Fixes\n\n- old\n");
    assert!(!c.contains("Breaking Changes"));
}

#[test]
fn update_step_without_conventional_commits() {
    let (v, c) = release(&[], CHANGELOG).ok().unwrap();
    assert_eq!(v, "1.2.4");
    assert_eq!(c, "# Changelog\n\n## 1.2.4\n\n## 1.2.3\n\n### Fixes\n\n- old\n");
}

#[test]
fn update_step_keeps_tail() {
    let (_, c) = release(&["fix: z"], CHANGELOG).ok().unwrap();
    let at = CHANGELOG.find("## 1.2.3").unwrap();
    assert!(c.ends_with(&CHANGELOG[at..]));
}

#[test]
fn update_step_errors() {
    assert!(matches!(release(&["feat: a"], "# Changelog\n"), Err(StepError::Changelog(ChangelogError::MissingVersionHeader))));
}

#[test]
fn command_step_substitutes_variables() {
    let vars = Some(vec![("version".to_string(), Variable::Version)]);
    let step = Step::Command { command: "git tag v.version".to_string(), variables: vars };
    match run_step(&step, State::NoIssueSelected, version("1.2.3")).ok().unwrap().1 {
        Action::RunCommand { line } => assert_eq!(line, "git tag v.1.2.3"),
        _ => panic!("expected a command"),
    }
}

#[test]
fn command_step_unmatched_key_leaves_template() {
    let vars = Some(vec![("release".to_string(), Variable::Version)]);
    let step = Step::Command { command: "git tag v.version".to_string(), variables: vars };
    match run_step(&step, State::NoIssueSelected, version("1.2.3")).ok().unwrap().1 {
        Action::RunCommand { line } => assert_eq!(line, "git tag v.version"),
        _ => panic!("expected a command"),
    }
}
