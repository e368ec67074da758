//! Branch names derived from issues, and the issue read back from a branch name.

use vstd::prelude::*;
use crate::semver::{digits_in, digits_value, is_digit, is_digits, lemma_decimal_digits, lemma_find_after_free, number_in};
use crate::state::Issue;
use crate::text::{chars_of, decimal, find_char, find_from, lemma_find_from_bounds, push_all, push_decimal, string_of};

verus! {

/// The mathematical value of an issue.
pub enum IssueModel {
    Jira { key: Seq<char>, summary: Seq<char> },
    GitHub { number: nat, title: Seq<char> },
}

impl View for Issue {
    type V = IssueModel;

    open spec fn view(&self) -> IssueModel {
        match self {
            Issue::Jira { key, summary } => IssueModel::Jira { key: key@, summary: summary@ },
            Issue::GitHub { number, title } => IssueModel::GitHub { number: *number as nat, title: title@ },
        }
    }
}

/// ASCII letters are lowercased, digits kept, anything else becomes `-`.
pub open spec fn slug_char(c: char) -> char {
    if 'A' <= c && c <= 'Z' {
        (((c as u32) + 32) as u8) as char
    } else if ('a' <= c && c <= 'z') || ('0' <= c && c <= '9') {
        c
    } else {
        '-'
    }
}

pub open spec fn slug(s: Seq<char>) -> Seq<char> {
    s.map_values(|c: char| slug_char(c))
}

/// Dashes read back as spaces.
pub open spec fn unslug(s: Seq<char>) -> Seq<char> {
    s.map_values(|c: char| if c == '-' { ' ' } else { c })
}

/// The branch of an issue: its key or number, a dash, and the slug of its title.
pub open spec fn branch_text(i: IssueModel) -> Seq<char> {
    match i {
        IssueModel::Jira { key, summary } => key + seq!['-'] + slug(summary),
        IssueModel::GitHub { number, title } => decimal(number) + seq!['-'] + slug(title),
    }
}

pub open spec fn is_upper(c: char) -> bool {
    'A' <= c && c <= 'Z'
}

/// The issue that a branch name stands for: `123-title` for GitHub,
/// `ABC-123-title` for Jira; `None` when the name has neither shape.
pub open spec fn issue_of_branch(b: Seq<char>) -> Option<IssueModel> {
    let d = find_from(b, 0, '-');
    if d < b.len() && is_digits(b.take(d)) {
        Some(IssueModel::GitHub { number: digits_value(b.take(d)), title: unslug(b.skip(d + 1)) })
    } else if 0 < d < b.len() && (forall|i: int| 0 <= i < d ==> #[trigger] is_upper(b[i])) {
        let e = find_from(b, d + 1, '-');
        if e < b.len() && is_digits(b.subrange(d + 1, e)) {
            Some(IssueModel::Jira { key: b.take(e), summary: unslug(b.skip(e + 1)) })
        } else {
            None
        }
    } else {
        None
    }
}

/// Why no issue could be read from a branch name.
#[derive(Debug, PartialEq, Eq, Structural)]
pub enum BranchError {
    /// The name does not have the shape of an issue branch.
    Unrecognized,
    /// The issue number does not fit in a `u64`.
    NumberTooLarge,
}

fn slug_chars(s: &Vec<char>) -> (r: Vec<char>)
    ensures
        r@ == slug(s@),
{
    let mut out: Vec<char> = Vec::new();
    let mut i: usize = 0;
    while i < s.len()
        invariant
            i <= s@.len(),
            out@ == slug(s@.take(i as int)),
        decreases s@.len() - i,
    {
        let c = s[i];
        let m = if 'A' <= c && c <= 'Z' {
            (((c as u32) + 32) as u8) as char
        } else if ('a' <= c && c <= 'z') || ('0' <= c && c <= '9') {
            c
        } else {
            '-'
        };
        out.push(m);
        i = i + 1;
        assert(out@ =~= slug(s@.take(i as int)));
    }
    assert(s@.take(i as int) =~= s@);
    out
}

fn unslug_range(s: &Vec<char>, a: usize) -> (r: String)
    requires
        a <= s@.len(),
    ensures
        r@ == unslug(s@.skip(a as int)),
{
    let mut out: Vec<char> = Vec::new();
    let mut i: usize = a;
    while i < s.len()
        invariant
            a <= i <= s@.len(),
            out@ == unslug(s@.subrange(a as int, i as int)),
        decreases s@.len() - i,
    {
        out.push(if s[i] == '-' { ' ' } else { s[i] });
        i = i + 1;
        assert(out@ =~= unslug(s@.subrange(a as int, i as int)));
    }
    assert(s@.subrange(a as int, i as int) =~= s@.skip(a as int));
    string_of(&out)
}

/// The branch on which work for `issue` is done.
pub fn branch_name(issue: &Issue) -> (r: String)
    ensures
        r@ == branch_text(issue@),
{
    let mut out: Vec<char> = Vec::new();
    match issue {
        Issue::Jira { key, summary } => {
            push_all(&mut out, &chars_of(key.as_str()));
            out.push('-');
            push_all(&mut out, &slug_chars(&chars_of(summary.as_str())));
        },
        Issue::GitHub { number, title } => {
            push_decimal(&mut out, *number);
            out.push('-');
            push_all(&mut out, &slug_chars(&chars_of(title.as_str())));
        },
    }
    string_of(&out)
}

/// Reads the issue back from a branch named by `branch_name`: the key or
/// number is recovered exactly, the title with dashes read as spaces.
pub fn issue_from_branch(name: &str) -> (r: Result<Issue, BranchError>)
    ensures
        r is Ok ==> issue_of_branch(name@) == Some(r->Ok_0@),
        r == Err::<Issue, BranchError>(BranchError::Unrecognized) <==> issue_of_branch(name@) is None,
        r == Err::<Issue, BranchError>(BranchError::NumberTooLarge) <==> (issue_of_branch(name@) matches Some(
            IssueModel::GitHub { number, .. },
        ) && number > u64::MAX),
{
    let b = chars_of(name);
    let d = find_char(&b, 0, '-');
    proof {
        lemma_find_from_bounds(b@, 0, '-');
    }
    if d < b.len() && digits_in(&b, 0, d) {
        assert(b@.subrange(0, d as int) =~= b@.take(d as int));
        return match number_in(&b, 0, d) {
            Some(number) => Ok(Issue::GitHub { number, title: unslug_range(&b, d + 1) }),
            None => Err(BranchError::NumberTooLarge),
        };
    }
    assert(b@.subrange(0, d as int) =~= b@.take(d as int));
    if d == 0 || d >= b.len() {
        return Err(BranchError::Unrecognized);
    }
    let mut i: usize = 0;
    while i < d
        invariant
            i <= d < b@.len(),
            b@ == name@,
            d == find_from(b@, 0, '-'),
            !is_digits(b@.take(d as int)),
            forall|j: int| 0 <= j < i ==> #[trigger] is_upper(b@[j]),
        decreases d - i,
    {
        if !('A' <= b[i] && b[i] <= 'Z') {
            assert(!is_upper(b@[i as int]));
            assert(!(forall|j: int| 0 <= j < d ==> #[trigger] is_upper(b@[j])));
            return Err(BranchError::Unrecognized);
        }
        i = i + 1;
    }
    let e = find_char(&b, d + 1, '-');
    proof {
        lemma_find_from_bounds(b@, d + 1, '-');
    }
    if e < b.len() && digits_in(&b, d + 1, e) {
        let mut key: Vec<char> = Vec::new();
        let mut k: usize = 0;
        while k < e
            invariant
                k <= e < b@.len(),
                key@ == b@.take(k as int),
            decreases e - k,
        {
            key.push(b[k]);
            k = k + 1;
            assert(key@ =~= b@.take(k as int));
        }
        Ok(Issue::Jira { key: string_of(&key), summary: unslug_range(&b, e + 1) })
    } else {
        Err(BranchError::Unrecognized)
    }
}

/// The branch of a GitHub issue reads back as that issue's number, with the
/// title's slug read back.
pub proof fn lemma_github_branch_round_trip(number: nat, title: Seq<char>)
    ensures
        issue_of_branch(branch_text(IssueModel::GitHub { number, title })) == Some(
            IssueModel::GitHub { number, title: unslug(slug(title)) },
        ),
{
    let dn = decimal(number);
    let b = dn + seq!['-'] + slug(title);
    lemma_decimal_digits(number);
    lemma_find_from_bounds(b, 0, '-');
    assert(b[dn.len() as int] == '-');
    assert forall|i: int| 0 <= i < dn.len() implies b[i] != '-' by {
        assert(b[i] == dn[i] && is_digit(dn[i]));
    }
    assert(find_from(b, 0, '-') == dn.len()) by {
        let f = find_from(b, 0, '-');
        if f < dn.len() {
            assert(b[f] == '-');
        }
        if f > dn.len() {
            assert(b[dn.len() as int] != '-');
        }
    }
    assert(b.take(dn.len() as int) =~= dn);
    assert(b.skip(dn.len() as int + 1) =~= slug(title));
}

/// The branch of a Jira issue whose key is `LETTERS-DIGITS` reads back as that
/// key, with the summary's slug read back.
pub proof fn lemma_jira_branch_round_trip(project: Seq<char>, digits: Seq<char>, summary: Seq<char>)
    requires
        project.len() > 0,
        forall|i: int| 0 <= i < project.len() ==> #[trigger] is_upper(project[i]),
        is_digits(digits),
    ensures
        issue_of_branch(branch_text(IssueModel::Jira { key: project + seq!['-'] + digits, summary })) == Some(
            IssueModel::Jira { key: project + seq!['-'] + digits, summary: unslug(slug(summary)) },
        ),
{
    let key = project + seq!['-'] + digits;
    let b = key + seq!['-'] + slug(summary);
    let tail = seq!['-'] + digits + seq!['-'] + slug(summary);
    assert(b =~= project + tail);
    assert forall|k: int| 0 <= k < project.len() implies project[k] != '-' by {
        assert(is_upper(project[k]));
    }
    lemma_find_after_free(project, tail, '-');
    let d = project.len() as int;
    assert(find_from(b, 0, '-') == d);
    assert(b.take(d) =~= project);
    assert(is_upper(project[0]));
    assert(!is_digit(project[0]));
    assert(b.take(d)[0] == project[0]);
    assert(!is_digits(b.take(d)));
    assert forall|i: int| 0 <= i < d implies #[trigger] is_upper(b[i]) by {
        assert(b[i] == project[i]);
    }
    let rest = digits + seq!['-'] + slug(summary);
    assert forall|k: int| 0 <= k < digits.len() implies digits[k] != '-' by {
        assert(is_digit(digits[k]));
    }
    lemma_find_after_free(digits, seq!['-'] + slug(summary), '-');
    assert(b.skip(d + 1) =~= digits + (seq!['-'] + slug(summary)));
    crate::text::lemma_find_in_suffix(b, d + 1, 0, '-');
    let e = d + 1 + digits.len();
    assert(find_from(b, d + 1, '-') == e);
    assert(b.subrange(d + 1, e) =~= digits);
    assert(b.take(e) =~= key);
    assert(b.skip(e + 1) =~= slug(summary));
}

} // verus!
