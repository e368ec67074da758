//! Literal substitution of variables into a command template.

use vstd::prelude::*;
use vstd::string::*;
use crate::text::{chars_of, matches_at, occurs_at, push_all, string_of};

verus! {

/// What a command variable is replaced with.
#[derive(Clone, Copy, Debug, PartialEq, Eq, Structural)]
pub enum Variable {
    /// The project's current version.
    Version,
}

/// `t` with every occurrence of `k`, scanned from the left without overlap,
/// replaced by `v`. An empty key replaces nothing.
pub open spec fn replaced(t: Seq<char>, k: Seq<char>, v: Seq<char>) -> Seq<char>
    decreases t.len(),
{
    if k.len() == 0 || t.len() < k.len() {
        t
    } else if t.take(k.len() as int) == k {
        v + replaced(t.skip(k.len() as int), k, v)
    } else {
        seq![t[0]] + replaced(t.skip(1), k, v)
    }
}

/// `t` after each `(key, value)` pair is substituted, in order.
pub open spec fn substituted(t: Seq<char>, vars: Seq<(String, String)>) -> Seq<char>
    decreases vars.len(),
{
    if vars.len() == 0 {
        t
    } else {
        let last = vars.last();
        replaced(substituted(t, vars.drop_last()), last.0@, last.1@)
    }
}

/// Whether `k` occurs anywhere in `t`.
pub open spec fn contains(t: Seq<char>, k: Seq<char>) -> bool {
    exists|i: int| #[trigger] occurs_at(t, i, k)
}

fn replace_chars(t: &Vec<char>, k: &Vec<char>, v: &Vec<char>) -> (r: Vec<char>)
    ensures
        r@ == replaced(t@, k@, v@),
{
    let mut out: Vec<char> = Vec::new();
    let mut i: usize = 0;
    assert(t@.skip(0) =~= t@);
    assert(out@ + replaced(t@.skip(0), k@, v@) =~= replaced(t@, k@, v@));
    while i < t.len()
        invariant
            i <= t@.len(),
            out@ + replaced(t@.skip(i as int), k@, v@) == replaced(t@, k@, v@),
        decreases t@.len() - i,
    {
        let ghost rest = t@.skip(i as int);
        if k.len() > 0 && matches_at(t, i, k) {
            proof {
                assert(rest.take(k@.len() as int) =~= t@.subrange(i as int, i + k@.len()));
                assert(rest.skip(k@.len() as int) =~= t@.skip(i + k@.len()));
            }
            push_all(&mut out, v);
            i = i + k.len();
            assert(out@ + replaced(t@.skip(i as int), k@, v@) =~= replaced(t@, k@, v@));
        } else {
            proof {
                if k@.len() > 0 && rest.len() >= k@.len() {
                    assert(rest.take(k@.len() as int) =~= t@.subrange(i as int, i + k@.len()));
                    assert(rest.skip(1) =~= t@.skip(i + 1));
                } else {
                    assert(rest =~= seq![t@[i as int]] + t@.skip(i + 1));
                    if k@.len() > 0 {
                        assert(t@.skip(i + 1).len() < k@.len());
                    }
                }
            }
            out.push(t[i]);
            i = i + 1;
            assert(out@ + replaced(t@.skip(i as int), k@, v@) =~= replaced(t@, k@, v@));
        }
    }
    assert(t@.skip(i as int) =~= Seq::<char>::empty());
    assert(out@ =~= replaced(t@, k@, v@));
    out
}

/// Replaces every occurrence of `key` in `template` with `value`.
pub fn replace_all(template: &str, key: &str, value: &str) -> (r: String)
    ensures
        r@ == replaced(template@, key@, value@),
{
    string_of(&replace_chars(&chars_of(template), &chars_of(key), &chars_of(value)))
}

/// Substitutes each resolved variable into the template, in the given order.
/// Keys that do not occur leave the template as it was.
pub fn substitute(template: &str, variables: &Vec<(String, String)>) -> (r: String)
    ensures
        r@ == substituted(template@, variables@),
{
    let mut cur = chars_of(template);
    let mut i: usize = 0;
    while i < variables.len()
        invariant
            i <= variables@.len(),
            cur@ == substituted(template@, variables@.take(i as int)),
        decreases variables@.len() - i,
    {
        let (k, v) = &variables[i];
        cur = replace_chars(&cur, &chars_of(k.as_str()), &chars_of(v.as_str()));
        i = i + 1;
        assert(variables@.take(i as int).drop_last() =~= variables@.take(i - 1));
    }
    assert(variables@.take(i as int) =~= variables@);
    string_of(&cur)
}

/// A key that does not occur in the template leaves it unchanged.
pub proof fn lemma_absent_key_unchanged(t: Seq<char>, k: Seq<char>, v: Seq<char>)
    requires
        !contains(t, k),
    ensures
        replaced(t, k, v) == t,
    decreases t.len(),
{
    if k.len() == 0 || t.len() < k.len() {
    } else {
        assert(!occurs_at(t, 0, k));
        assert(t.take(k.len() as int) =~= t.subrange(0, k.len() as int));
        let rest = t.skip(1);
        assert forall|i: int| !occurs_at(rest, i, k) by {
            if occurs_at(rest, i, k) {
                assert(t.subrange(i + 1, i + 1 + k.len()) =~= rest.subrange(i, i + k.len()));
                assert(occurs_at(t, i + 1, k));
            }
        }
        lemma_absent_key_unchanged(rest, k, v);
        assert(seq![t[0]] + rest =~= t);
    }
}

/// The value of each variable, in the order given: `Version` is the text of
/// the project's current version.
pub open spec fn resolved(vars: Seq<(String, Variable)>, version: Seq<char>, out: Seq<(String, String)>) -> bool {
    &&& out.len() == vars.len()
    &&& forall|i: int| 0 <= i < vars.len() ==> (#[trigger] out[i]).0@ == vars[i].0@ && match vars[i].1 {
        Variable::Version => out[i].1@ == version,
    }
}

/// Resolves each variable against the text of the project's current version.
pub fn resolve_variables(variables: &Vec<(String, Variable)>, version: &str) -> (r: Vec<(String, String)>)
    ensures
        resolved(variables@, version@, r@),
{
    let text = String::from_str(version);
    let mut out: Vec<(String, String)> = Vec::new();
    let mut i: usize = 0;
    while i < variables.len()
        invariant
            i <= variables@.len(),
            text@ == version@,
            out@.len() == i,
            forall|j: int| 0 <= j < i ==> (#[trigger] out@[j]).0@ == variables@[j].0@ && match variables@[j].1 {
                Variable::Version => out@[j].1@ == version@,
            },
        decreases variables@.len() - i,
    {
        let (k, v) = &variables[i];
        let value = match v {
            Variable::Version => text.clone(),
        };
        out.push((k.clone(), value));
        i = i + 1;
    }
    out
}

/// The command line of a `Command` step: its template with each variable
/// resolved against the current version and substituted in order.
pub fn command_line(template: &str, variables: &Vec<(String, Variable)>, version: &str) -> (r: String)
    ensures
        exists|vals: Seq<(String, String)>| resolved(variables@, version@, vals) && r@
            == substituted(template@, vals),
{
    let vals = resolve_variables(variables, version);
    substitute(template, &vals)
}

} // verus!
