//! The context carried from one step to the next.

use vstd::prelude::*;

verus! {

/// An issue picked from a tracker.
pub enum Issue {
    Jira { key: String, summary: String },
    GitHub { number: u64, title: String },
}

/// What a workflow knows between steps.
pub enum State {
    NoIssueSelected,
    IssueSelected { issue: Issue },
}

impl State {
    /// Whether an issue is selected.
    pub fn has_issue(&self) -> (r: bool)
        ensures
            r == (*self is IssueSelected),
    {
        match self {
            State::IssueSelected { .. } => true,
            State::NoIssueSelected => false,
        }
    }
}

} // verus!
