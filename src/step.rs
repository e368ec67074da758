//! Steps, their preconditions on the state, and the fold that runs them.

use vstd::prelude::*;
use crate::changelog::{derived_rule, first_header, section_text, spliced, texts, update_from_commits, ChangelogError};
use crate::command::{command_line, resolved, substituted, Variable};
use crate::semver::{bump_version_text, bumped, fits, parse_spec, parse_version, version_text, Rule, VersionError};
use crate::state::{Issue, State};

verus! {

/// One action of a workflow.
pub enum Step {
    /// Pick a Jira issue with the given status.
    SelectJiraIssue { status: String },
    /// Move the selected Jira issue to a new status.
    TransitionJiraIssue { status: String },
    /// Pick a GitHub issue, optionally only among those with the given labels.
    SelectGitHubIssue { labels: Option<Vec<String>> },
    /// Select the issue that the current branch was named after.
    SelectIssueFromBranch,
    /// Check out or create the branch of the selected issue.
    SwitchBranches,
    /// Rebase the current branch onto `to`.
    RebaseBranch { to: String },
    /// Bump the project's version.
    BumpVersion(Rule),
    /// Run a shell command after substituting variables into it. The variables
    /// are substituted in the order given; a key listed twice acts twice.
    Command { command: String, variables: Option<Vec<(String, Variable)>> },
    /// Bump the version and extend the changelog from the commits since the last tag.
    UpdateProjectFromCommits,
}

/// The tag of a step, used to name it in errors.
#[derive(Clone, Copy, Debug, PartialEq, Eq, Structural)]
pub enum StepKind {
    SelectJiraIssue,
    TransitionJiraIssue,
    SelectGitHubIssue,
    SelectIssueFromBranch,
    SwitchBranches,
    RebaseBranch,
    BumpVersion,
    Command,
    UpdateProjectFromCommits,
}

/// Why a step failed.
#[derive(Debug)]
pub enum StepError {
    /// A selection step ran while an issue was already selected.
    IssueAlreadySelected,
    /// The step needs a selected issue and there is none.
    NoIssueSelected,
    /// The selected issue is not a Jira issue.
    NotAJiraIssue,
    /// The tracker returned no candidates.
    NoCandidates,
    /// The user picked nothing.
    NothingSelected,
    /// A collaborator (tracker, git, shell, files) failed.
    Collaborator { message: String },
    /// The version read from the manifest is malformed or too large to bump.
    Version(VersionError),
    /// The changelog could not be updated.
    Changelog(ChangelogError),
    /// What was read for the step is not what the step works on.
    MissingInput,
}

/// What the collaborators reported after a step's outside work.
pub enum Outcome {
    /// The user picked this issue (or it was read from the branch name).
    Picked(Issue),
    /// Candidates were shown and none was picked.
    NothingPicked,
    /// The query returned no candidates.
    NoCandidates,
    /// The outside work completed.
    Done,
    /// The outside work failed.
    Failed { message: String },
    /// The text of the project's current version, read from its manifest.
    CurrentVersion { text: String },
    /// What a changelog update reads: the current version text, the commit
    /// messages since the last tag and the changelog text.
    History { version: String, messages: Vec<String>, changelog: String },
}

/// What is left for the collaborators to do once a step has been decided.
pub enum Action {
    Nothing,
    /// Write this version text to the manifest.
    WriteVersion { text: String },
    /// Write this version text to the manifest and this changelog text.
    WriteRelease { version: String, changelog: String },
    /// Run this command line in a shell.
    RunCommand { line: String },
}

/// A failed step: which one, the state it was given, and why.
pub struct StepFailure {
    pub kind: StepKind,
    pub state: State,
    pub error: StepError,
}

pub open spec fn kind_of(step: &Step) -> StepKind {
    match step {
        Step::SelectJiraIssue { .. } => StepKind::SelectJiraIssue,
        Step::TransitionJiraIssue { .. } => StepKind::TransitionJiraIssue,
        Step::SelectGitHubIssue { .. } => StepKind::SelectGitHubIssue,
        Step::SelectIssueFromBranch => StepKind::SelectIssueFromBranch,
        Step::SwitchBranches => StepKind::SwitchBranches,
        Step::RebaseBranch { .. } => StepKind::RebaseBranch,
        Step::BumpVersion(_) => StepKind::BumpVersion,
        Step::Command { .. } => StepKind::Command,
        Step::UpdateProjectFromCommits => StepKind::UpdateProjectFromCommits,
    }
}

/// Whether the step ends by selecting an issue.
pub open spec fn selects(k: StepKind) -> bool {
    k == StepKind::SelectJiraIssue || k == StepKind::SelectGitHubIssue || k
        == StepKind::SelectIssueFromBranch
}

/// The check a step makes on the incoming state before any outside work.
pub open spec fn precondition_spec(k: StepKind, state: State) -> Result<(), StepError> {
    match k {
        StepKind::SelectJiraIssue | StepKind::SelectGitHubIssue => match state {
            State::NoIssueSelected => Ok(()),
            State::IssueSelected { .. } => Err(StepError::IssueAlreadySelected),
        },
        StepKind::TransitionJiraIssue => match state {
            State::NoIssueSelected => Err(StepError::NoIssueSelected),
            State::IssueSelected { issue: Issue::GitHub { .. } } => Err(StepError::NotAJiraIssue),
            State::IssueSelected { issue: Issue::Jira { .. } } => Ok(()),
        },
        StepKind::SwitchBranches => match state {
            State::NoIssueSelected => Err(StepError::NoIssueSelected),
            State::IssueSelected { .. } => Ok(()),
        },
        _ => Ok(()),
    }
}

/// Whether the step computes something to write or run from what was read.
pub open spec fn computes(k: StepKind) -> bool {
    k == StepKind::BumpVersion || k == StepKind::Command || k == StepKind::UpdateProjectFromCommits
}

/// The variables of a command; none when it has no table.
pub open spec fn vars_of(v: Option<Vec<(String, Variable)>>) -> Seq<(String, Variable)> {
    match v {
        Some(x) => x@,
        None => Seq::empty(),
    }
}

/// The version and the rule of a changelog update, from what was read.
pub open spec fn release_of(version: Seq<char>, messages: Seq<String>) -> crate::semver::SemVer {
    bumped(parse_spec(version)->Some_0, derived_rule(texts(messages)))
}

/// Whether a step that computes succeeds on what was read, and how it fails.
pub open spec fn work_result(step: Step, outcome: Outcome) -> Result<(), StepError> {
    match outcome {
        Outcome::Failed { message } => Err(StepError::Collaborator { message }),
        Outcome::CurrentVersion { text } => match step {
            Step::BumpVersion(rule) => match parse_spec(text@) {
                None => Err(StepError::Version(VersionError::Malformed)),
                Some(v) => if fits(v) && fits(bumped(v, rule)) {
                    Ok(())
                } else {
                    Err(StepError::Version(VersionError::TooLarge))
                },
            },
            Step::Command { .. } => Ok(()),
            _ => Err(StepError::MissingInput),
        },
        Outcome::History { version, messages, changelog } => match step {
            Step::UpdateProjectFromCommits => match parse_spec(version@) {
                None => Err(StepError::Version(VersionError::Malformed)),
                Some(v) => if !fits(v) {
                    Err(StepError::Version(VersionError::TooLarge))
                } else if first_header(changelog@) == changelog@.len() {
                    Err(StepError::Changelog(ChangelogError::MissingVersionHeader))
                } else if !fits(bumped(v, derived_rule(texts(messages@)))) {
                    Err(StepError::Changelog(ChangelogError::VersionTooLarge))
                } else {
                    Ok(())
                },
            },
            _ => Err(StepError::MissingInput),
        },
        _ => Err(StepError::MissingInput),
    }
}

/// The state that follows a step, given what its outside work reported or
/// what was read for it.
pub open spec fn step_result(step: Step, state: State, outcome: Outcome) -> Result<State, StepError> {
    let k = kind_of(&step);
    match precondition_spec(k, state) {
        Err(e) => Err(e),
        Ok(_) => if selects(k) {
            match outcome {
                Outcome::Failed { message } => Err(StepError::Collaborator { message }),
                Outcome::Picked(issue) => Ok(State::IssueSelected { issue }),
                Outcome::NoCandidates => Err(StepError::NoCandidates),
                _ => Err(StepError::NothingSelected),
            }
        } else if computes(k) {
            match work_result(step, outcome) {
                Err(e) => Err(e),
                Ok(_) => Ok(state),
            }
        } else {
            match outcome {
                Outcome::Failed { message } => Err(StepError::Collaborator { message }),
                _ => Ok(state),
            }
        },
    }
}

/// The action that a successful step leaves: the bumped version text, the
/// command line with its variables substituted, or the new version and
/// changelog; nothing for the other steps.
pub open spec fn action_spec(step: Step, outcome: Outcome, a: Action) -> bool {
    match step {
        Step::BumpVersion(rule) => match outcome {
            Outcome::CurrentVersion { text } => (a matches Action::WriteVersion { text: t } && t@
                == version_text(bumped(parse_spec(text@)->Some_0, rule))),
            _ => a is Nothing,
        },
        Step::Command { command, variables } => match outcome {
            Outcome::CurrentVersion { text } => (a matches Action::RunCommand { line } && exists|
                vals: Seq<(String, String)>,
            | resolved(vars_of(variables), text@, vals) && line@ == substituted(command@, vals)),
            _ => a is Nothing,
        },
        Step::UpdateProjectFromCommits => match outcome {
            Outcome::History { version, messages, changelog } => (a matches Action::WriteRelease {
                version: nv,
                changelog: nc,
            } && nv@ == version_text(release_of(version@, messages@)) && nc@ == spliced(
                changelog@,
                section_text(version_text(release_of(version@, messages@)), texts(messages@)),
            )),
            _ => a is Nothing,
        },
        _ => a is Nothing,
    }
}

/// `During` followed by the name of the step.
pub open spec fn context_text(k: StepKind) -> Seq<char> {
    match k {
        StepKind::SelectJiraIssue => "During SelectJiraIssue"@,
        StepKind::TransitionJiraIssue => "During TransitionJiraIssue"@,
        StepKind::SelectGitHubIssue => "During SelectGitHubIssue"@,
        StepKind::SelectIssueFromBranch => "During SelectIssueFromBranch"@,
        StepKind::SwitchBranches => "During SwitchBranches"@,
        StepKind::RebaseBranch => "During RebaseBranch"@,
        StepKind::BumpVersion => "During BumpVersion"@,
        StepKind::Command => "During Command"@,
        StepKind::UpdateProjectFromCommits => "During UpdateProjectFromCommits"@,
    }
}

impl Step {
    /// The tag of this step.
    pub fn kind(&self) -> (r: StepKind)
        ensures
            r == kind_of(self),
    {
        match self {
            Step::SelectJiraIssue { .. } => StepKind::SelectJiraIssue,
            Step::TransitionJiraIssue { .. } => StepKind::TransitionJiraIssue,
            Step::SelectGitHubIssue { .. } => StepKind::SelectGitHubIssue,
            Step::SelectIssueFromBranch => StepKind::SelectIssueFromBranch,
            Step::SwitchBranches => StepKind::SwitchBranches,
            Step::RebaseBranch { .. } => StepKind::RebaseBranch,
            Step::BumpVersion(_) => StepKind::BumpVersion,
            Step::Command { .. } => StepKind::Command,
            Step::UpdateProjectFromCommits => StepKind::UpdateProjectFromCommits,
        }
    }
}

impl StepKind {
    /// The context line that wraps an error of this step.
    pub fn context(&self) -> (r: &'static str)
        ensures
            r@ == context_text(*self),
    {
        match self {
            StepKind::SelectJiraIssue => "During SelectJiraIssue",
            StepKind::TransitionJiraIssue => "During TransitionJiraIssue",
            StepKind::SelectGitHubIssue => "During SelectGitHubIssue",
            StepKind::SelectIssueFromBranch => "During SelectIssueFromBranch",
            StepKind::SwitchBranches => "During SwitchBranches",
            StepKind::RebaseBranch => "During RebaseBranch",
            StepKind::BumpVersion => "During BumpVersion",
            StepKind::Command => "During Command",
            StepKind::UpdateProjectFromCommits => "During UpdateProjectFromCommits",
        }
    }
}

/// Checks the state that a step needs, before any outside work is done for it.
pub fn check_precondition(step: &Step, state: &State) -> (r: Result<(), StepError>)
    ensures
        r == precondition_spec(kind_of(step), *state),
{
    match step {
        Step::SelectJiraIssue { .. } | Step::SelectGitHubIssue { .. } => match state {
            State::NoIssueSelected => Ok(()),
            State::IssueSelected { .. } => Err(StepError::IssueAlreadySelected),
        },
        Step::TransitionJiraIssue { .. } => match state {
            State::NoIssueSelected => Err(StepError::NoIssueSelected),
            State::IssueSelected { issue: Issue::GitHub { .. } } => Err(StepError::NotAJiraIssue),
            State::IssueSelected { issue: Issue::Jira { .. } } => Ok(()),
        },
        Step::SwitchBranches => match state {
            State::NoIssueSelected => Err(StepError::NoIssueSelected),
            State::IssueSelected { .. } => Ok(()),
        },
        _ => Ok(()),
    }
}

fn fail(kind: StepKind, state: State, error: StepError) -> (r: Result<(State, Action), StepFailure>)
    ensures
        r matches Err(f) && f.kind == kind && f.state == state && f.error == error,
{
    Err(StepFailure { kind, state, error })
}

/// Decides one step on `state`, given what its outside work reported or what
/// was read for it, and returns the next state with what is left to write or
/// run. On failure the state that was given comes back unchanged, with the
/// step's tag.
pub fn run_step(step: &Step, state: State, outcome: Outcome) -> (r: Result<(State, Action), StepFailure>)
    ensures
        r matches Ok((s, a)) ==> step_result(*step, state, outcome) == Ok::<State, StepError>(s)
            && action_spec(*step, outcome, a),
        r matches Err(f) ==> {
            &&& step_result(*step, state, outcome) == Err::<State, StepError>(f.error)
            &&& f.state == state
            &&& f.kind == kind_of(step)
        },
{
    let kind = step.kind();
    match check_precondition(step, &state) {
        Err(error) => return fail(kind, state, error),
        Ok(()) => {},
    }
    let sel = kind == StepKind::SelectJiraIssue || kind == StepKind::SelectGitHubIssue || kind
        == StepKind::SelectIssueFromBranch;
    if sel {
        return match outcome {
            Outcome::Failed { message } => fail(kind, state, StepError::Collaborator { message }),
            Outcome::Picked(issue) => Ok((State::IssueSelected { issue }, Action::Nothing)),
            Outcome::NoCandidates => fail(kind, state, StepError::NoCandidates),
            _ => fail(kind, state, StepError::NothingSelected),
        };
    }
    match step {
        Step::BumpVersion(rule) => match outcome {
            Outcome::Failed { message } => fail(kind, state, StepError::Collaborator { message }),
            Outcome::CurrentVersion { text } => match bump_version_text(text.as_str(), rule) {
                Ok(t) => Ok((state, Action::WriteVersion { text: t })),
                Err(e) => fail(kind, state, StepError::Version(e)),
            },
            _ => fail(kind, state, StepError::MissingInput),
        },
        Step::Command { command, variables } => match outcome {
            Outcome::Failed { message } => fail(kind, state, StepError::Collaborator { message }),
            Outcome::CurrentVersion { text } => {
                let none: Vec<(String, Variable)> = Vec::new();
                let vars = match variables {
                    Some(v) => v,
                    None => &none,
                };
                let line = command_line(command.as_str(), vars, text.as_str());
                Ok((state, Action::RunCommand { line }))
            },
            _ => fail(kind, state, StepError::MissingInput),
        },
        Step::UpdateProjectFromCommits => match outcome {
            Outcome::Failed { message } => fail(kind, state, StepError::Collaborator { message }),
            Outcome::History { version, messages, changelog } => {
                let current = match parse_version(version.as_str()) {
                    Ok(v) => v,
                    Err(e) => return fail(kind, state, StepError::Version(e)),
                };
                assert(parse_spec(version@) == Some(current@));
                proof {
                    crate::changelog::lemma_header_from_bounds(changelog@, 0);
                }
                match update_from_commits(changelog.as_str(), &messages, &current, None) {
                    Ok(rel) => {
                        let text = rel.version.to_text();
                        Ok((state, Action::WriteRelease { version: text, changelog: rel.changelog }))
                    },
                    Err(e) => fail(kind, state, StepError::Changelog(e)),
                }
            },
            _ => fail(kind, state, StepError::MissingInput),
        },
        _ => match outcome {
            Outcome::Failed { message } => fail(kind, state, StepError::Collaborator { message }),
            _ => Ok((state, Action::Nothing)),
        },
    }
}

/// The state after the first `n` steps, or `None` when one of them failed.
pub open spec fn state_after(state: State, ks: Seq<Step>, outs: Seq<Outcome>, n: nat) -> Option<State>
    decreases n,
{
    if n == 0 {
        Some(state)
    } else {
        match state_after(state, ks, outs, (n - 1) as nat) {
            None => None,
            Some(s) => match step_result(ks[n - 1], s, outs[n - 1]) {
                Ok(t) => Some(t),
                Err(_) => None,
            },
        }
    }
}

/// Once a step has failed, no later prefix of the workflow has a state.
pub proof fn lemma_failure_persists(state: State, ks: Seq<Step>, outs: Seq<Outcome>, a: nat, b: nat)
    requires
        a <= b,
        state_after(state, ks, outs, a) is None,
    ensures
        state_after(state, ks, outs, b) is None,
    decreases b,
{
    if a < b {
        lemma_failure_persists(state, ks, outs, a, (b - 1) as nat);
    }
}

/// Runs the steps in order from `state`, each with what its outside work
/// reported, and stops at the first that fails. The failure carries the index
/// of that step and exactly the state that the steps before it produced.
pub fn replay(steps: &Vec<Step>, outcomes: Vec<Outcome>, state: State) -> (r: Result<
    State,
    (usize, StepFailure),
>)
    requires
        steps@.len() == outcomes@.len(),
    ensures
        r is Ok <==> state_after(state, steps@, outcomes@, steps@.len() as nat) is Some,
        r matches Ok(s) ==> state_after(state, steps@, outcomes@, steps@.len() as nat) == Some(s),
        r matches Err((k, f)) ==> {
            &&& k < steps@.len()
            &&& state_after(state, steps@, outcomes@, k as nat) == Some(f.state)
            &&& step_result(steps@[k as int], f.state, outcomes@[k as int]) == Err::<State, StepError>(f.error)
            &&& f.kind == kind_of(&steps@[k as int])
        },
{
    let ghost ks = steps@;
    let ghost outs = outcomes@;
    let mut rest = outcomes;
    assert(outs == outcomes@);
    let mut cur = state;
    let mut i: usize = 0;
    while i < steps.len()
        invariant
            i <= steps@.len(),
            steps@.len() == outs.len(),
            ks == steps@,
            outs == outcomes@,
            rest@ == outs.skip(i as int),
            state_after(state, ks, outs, i as nat) == Some(cur),
        decreases steps@.len() - i,
    {
        let ghost before = cur;
        let o = rest.remove(0);
        assert(o == outs[i as int]);
        assert(rest@ =~= outs.skip(i + 1));
        match run_step(&steps[i], cur, o) {
            Ok((next, _)) => {
                cur = next;
            },
            Err(f) => {
                proof {
                    assert(f.state == before);
                    assert(step_result(ks[i as int], before, outs[i as int]) == Err::<State, StepError>(f.error));
                    assert(state_after(state, ks, outs, (i + 1) as nat) is None);
                    lemma_failure_persists(state, ks, outs, (i + 1) as nat, steps@.len() as nat);
                }
                return Err((i, f));
            },
        }
        i = i + 1;
    }
    Ok(cur)
}

/// A successful selection of a Jira issue leaves an issue selected, so a second
/// one fails on its precondition, whatever the tracker would report.
pub proof fn lemma_select_twice_fails(state: State, first: String, second: String, picked: Outcome, again: Outcome)
    requires
        step_result(Step::SelectJiraIssue { status: first }, state, picked) is Ok,
    ensures
        step_result(
            Step::SelectJiraIssue { status: second },
            step_result(Step::SelectJiraIssue { status: first }, state, picked)->Ok_0,
            again,
        ) == Err::<State, StepError>(StepError::IssueAlreadySelected),
{
}

/// With a GitHub issue selected, a Jira transition fails on its precondition,
/// which is decided before any outside work: what a tracker would report does
/// not change the result.
pub proof fn lemma_transition_needs_jira(number: u64, title: String, status: String, outcome: Outcome)
    ensures
        precondition_spec(
            StepKind::TransitionJiraIssue,
            State::IssueSelected { issue: Issue::GitHub { number, title } },
        ) == Err::<(), StepError>(StepError::NotAJiraIssue),
        step_result(
            Step::TransitionJiraIssue { status },
            State::IssueSelected { issue: Issue::GitHub { number, title } },
            outcome,
        ) == Err::<State, StepError>(StepError::NotAJiraIssue),
{
}

} // verus!
