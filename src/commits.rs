//! Conventional-commit headers and their classification.

use vstd::prelude::*;
use crate::text::{chars_of, find_char, find_from, lemma_find_from_bounds, matches_at, occurs_at, string_of};

verus! {

/// What a commit message contributes to a changelog.
#[derive(Clone, Copy, Debug, PartialEq, Eq, Structural)]
pub enum Kind {
    Breaking,
    Feature,
    Fix,
    Other,
}

/// A classified commit with the description shown for it.
pub struct CommitRecord {
    pub kind: Kind,
    pub description: String,
}

pub open spec fn is_letter(c: char) -> bool {
    ('a' <= c && c <= 'z') || ('A' <= c && c <= 'Z')
}

/// The end of the run of ASCII letters that starts at `i`.
pub open spec fn letters_end(s: Seq<char>, i: int) -> int
    decreases s.len() - i,
{
    if i < 0 || i >= s.len() {
        s.len() as int
    } else if is_letter(s[i]) {
        letters_end(s, i + 1)
    } else {
        i
    }
}

/// The end of the first line of a message.
pub open spec fn header_end(m: Seq<char>) -> int {
    find_from(m, 0, '\n')
}

/// The parts of a header `type(scope)!: description`: where the type ends,
/// whether `!` is present and where the description starts. `None` when the
/// first line does not have that shape or the description is empty.
pub open spec fn header_parts(m: Seq<char>) -> Option<(int, bool, int)> {
    let h = header_end(m);
    let t = letters_end(m, 0);
    if t == 0 {
        None
    } else {
        let after_scope = if t < h && m[t] == '(' {
            let close = find_from(m, t + 1, ')');
            if close < h { close + 1 } else { -1 }
        } else {
            t
        };
        if after_scope < 0 {
            None
        } else {
            let bang = after_scope < h && m[after_scope] == '!';
            let colon = if bang { after_scope + 1 } else { after_scope };
            if colon < h && h - colon > 2 && m[colon] == ':' && m[colon + 1] == ' ' {
                Some((t, bang, colon + 2))
            } else {
                None
            }
        }
    }
}

pub open spec fn breaking_footer() -> Seq<char> {
    seq!['B', 'R', 'E', 'A', 'K', 'I', 'N', 'G', ' ', 'C', 'H', 'A', 'N', 'G', 'E', ':']
}

pub open spec fn footer_at(m: Seq<char>, i: int) -> bool {
    0 < i && m[i - 1] == '\n' && occurs_at(m, i, breaking_footer())
}

/// Whether a line after the first starts with `BREAKING CHANGE:`.
pub open spec fn has_breaking_footer(m: Seq<char>) -> bool {
    exists|i: int| 0 < i < m.len() && #[trigger] footer_at(m, i)
}

pub open spec fn feat_word() -> Seq<char> {
    seq!['f', 'e', 'a', 't']
}

pub open spec fn fix_word() -> Seq<char> {
    seq!['f', 'i', 'x']
}

/// Whether the type of the header, which ends at `t`, is `word`.
pub open spec fn type_is(m: Seq<char>, t: int, word: Seq<char>) -> bool {
    t == word.len() && occurs_at(m, 0, word)
}

/// The classification of a commit message.
pub open spec fn classify_spec(m: Seq<char>) -> Kind {
    match header_parts(m) {
        None => Kind::Other,
        Some((t, bang, _)) => if bang || has_breaking_footer(m) {
            Kind::Breaking
        } else if type_is(m, t, feat_word()) {
            Kind::Feature
        } else if type_is(m, t, fix_word()) {
            Kind::Fix
        } else {
            Kind::Other
        },
    }
}

/// The description shown for a message: what follows `: ` on a conventional
/// header, else the whole first line.
pub open spec fn description_spec(m: Seq<char>) -> Seq<char> {
    match header_parts(m) {
        Some((_, _, d)) => m.subrange(d, header_end(m)),
        None => m.take(header_end(m)),
    }
}

/// The first line of `m` reads `type(scope)!: description`: ASCII letters in
/// `[0, t)`; a parenthesised scope without `)` in `[t, s)`, or none when
/// `s == t`; `!` exactly when `bang`; then `: ` and a description that starts
/// at `d` and is not empty.
pub open spec fn is_header(m: Seq<char>, t: int, s: int, bang: bool, d: int) -> bool {
    &&& 0 < t <= s
    &&& forall|i: int| 0 <= i < t ==> #[trigger] is_letter(m[i])
    &&& (s == t || (s >= t + 2 && m[t] == '(' && m[s - 1] == ')' && forall|i: int|
        t < i < s - 1 ==> m[i] != ')'))
    &&& d == s + (if bang { 3int } else { 2int })
    &&& bang ==> m[s] == '!'
    &&& m[d - 2] == ':'
    &&& m[d - 1] == ' '
    &&& d < header_end(m)
}

proof fn lemma_letters_end(m: Seq<char>, i: int)
    requires
        0 <= i <= m.len(),
    ensures
        i <= letters_end(m, i) <= m.len(),
        forall|j: int| i <= j < letters_end(m, i) ==> #[trigger] is_letter(m[j]),
        letters_end(m, i) < m.len() ==> !is_letter(m[letters_end(m, i)]),
    decreases m.len() - i,
{
    if i < m.len() && is_letter(m[i]) {
        lemma_letters_end(m, i + 1);
    }
}

proof fn lemma_letters_end_at(m: Seq<char>, i: int, t: int)
    requires
        0 <= i <= t < m.len(),
        forall|j: int| i <= j < t ==> #[trigger] is_letter(m[j]),
        !is_letter(m[t]),
    ensures
        letters_end(m, i) == t,
    decreases t - i,
{
    if i < t {
        assert(is_letter(m[i]));
        lemma_letters_end_at(m, i + 1, t);
    }
}

/// A message has a conventional header exactly when its first line has the
/// shape that `is_header` describes, with the same type end, `!` and
/// description start.
pub proof fn lemma_header_grammar(m: Seq<char>)
    ensures
        header_parts(m) matches Some((t, bang, d)) ==> exists|s: int| is_header(m, t, s, bang, d),
        forall|t: int, s: int, bang: bool, d: int| #[trigger] is_header(m, t, s, bang, d)
            ==> header_parts(m) == Some((t, bang, d)),
{
    let h = header_end(m);
    lemma_find_from_bounds(m, 0, '\n');
    lemma_letters_end(m, 0);
    let t0 = letters_end(m, 0);
    if t0 < h && m[t0] == '(' {
        lemma_find_from_bounds(m, t0 + 1, ')');
    }
    if let Some((t, bang, d)) = header_parts(m) {
        let s = if t < h && m[t] == '(' { find_from(m, t + 1, ')') + 1 } else { t };
        assert(is_header(m, t, s, bang, d));
    }
    assert forall|t: int, s: int, bang: bool, d: int| #[trigger] is_header(m, t, s, bang, d)
        implies header_parts(m) == Some((t, bang, d)) by {
        assert(!is_letter(m[t]));
        lemma_letters_end_at(m, 0, t);
        if s > t {
            crate::semver::lemma_find_skips_free(m, t + 1, s - 1, ')');
            lemma_find_from_bounds(m, s - 1, ')');
        }
    }
}

fn letters_end_exec(s: &Vec<char>) -> (r: usize)
    ensures
        r == letters_end(s@, 0),
        r <= s@.len(),
{
    let mut i: usize = 0;
    while i < s.len() && (('a' <= s[i] && s[i] <= 'z') || ('A' <= s[i] && s[i] <= 'Z'))
        invariant
            i <= s@.len(),
            letters_end(s@, 0) == letters_end(s@, i as int),
        decreases s@.len() - i,
    {
        i = i + 1;
    }
    i
}

fn parts_exec(m: &Vec<char>) -> (r: Option<(usize, bool, usize)>)
    ensures
        r matches Some((t, b, d)) ==> header_parts(m@) == Some((t as int, b, d as int)),
        r is None ==> header_parts(m@) is None,
{
    let h = find_char(m, 0, '\n');
    proof {
        lemma_find_from_bounds(m@, 0, '\n');
    }
    let t = letters_end_exec(m);
    if t == 0 {
        return None;
    }
    let after_scope: usize;
    if t < h && m[t] == '(' {
        let close = find_char(m, t + 1, ')');
        if close < h {
            after_scope = close + 1;
        } else {
            return None;
        }
    } else {
        after_scope = t;
    }
    let bang = after_scope < h && m[after_scope] == '!';
    let colon = if bang { after_scope + 1 } else { after_scope };
    if colon < h && h - colon > 2 && m[colon] == ':' && m[colon + 1] == ' ' {
        Some((t, bang, colon + 2))
    } else {
        None
    }
}

fn has_footer_exec(m: &Vec<char>) -> (r: bool)
    ensures
        r == has_breaking_footer(m@),
{
    let pat: Vec<char> = vec!['B', 'R', 'E', 'A', 'K', 'I', 'N', 'G', ' ', 'C', 'H', 'A', 'N', 'G', 'E', ':'];
    assert(pat@ =~= breaking_footer());
    let mut i: usize = 1;
    while i < m.len()
        invariant
            1 <= i,
            pat@ == breaking_footer(),
            forall|k: int| 0 < k < i && k < m@.len() ==> !#[trigger] footer_at(m@, k),
        decreases m@.len() - i,
    {
        if m[i - 1] == '\n' && matches_at(m, i, &pat) {
            assert(footer_at(m@, i as int));
            return true;
        }
        i = i + 1;
    }
    false
}

fn type_is_exec(m: &Vec<char>, t: usize, word: &Vec<char>) -> (r: bool)
    ensures
        r == type_is(m@, t as int, word@),
{
    t == word.len() && matches_at(m, 0, word)
}

/// The classification of the message held in `m`.
pub fn classify_chars(m: &Vec<char>) -> (r: Kind)
    ensures
        r == classify_spec(m@),
{
    match parts_exec(m) {
        None => Kind::Other,
        Some((t, bang, _)) => {
            if bang || has_footer_exec(m) {
                Kind::Breaking
            } else {
                let feat: Vec<char> = vec!['f', 'e', 'a', 't'];
                let fix: Vec<char> = vec!['f', 'i', 'x'];
                assert(feat@ =~= feat_word());
                assert(fix@ =~= fix_word());
                if type_is_exec(m, t, &feat) {
                    Kind::Feature
                } else if type_is_exec(m, t, &fix) {
                    Kind::Fix
                } else {
                    Kind::Other
                }
            }
        },
    }
}

/// The classification of a commit message.
pub fn classify(message: &str) -> (r: Kind)
    ensures
        r == classify_spec(message@),
{
    classify_chars(&chars_of(message))
}

/// Classifies a commit message and extracts its description.
pub fn parse_commit(message: &str) -> (r: CommitRecord)
    ensures
        r.kind == classify_spec(message@),
        r.description@ == description_spec(message@),
{
    let m = chars_of(message);
    let kind = classify_chars(&m);
    let h = find_char(&m, 0, '\n');
    proof {
        lemma_find_from_bounds(m@, 0, '\n');
    }
    let start: usize = match parts_exec(&m) {
        Some((_, _, d)) => d,
        None => 0,
    };
    let mut d: Vec<char> = Vec::new();
    let mut i: usize = start;
    while i < h
        invariant
            start <= i <= h,
            h <= m@.len(),
            d@ == m@.subrange(start as int, i as int),
        decreases h - i,
    {
        d.push(m[i]);
        i = i + 1;
        assert(d@ =~= m@.subrange(start as int, i as int));
    }
    CommitRecord { kind, description: string_of(&d) }
}

} // verus!
