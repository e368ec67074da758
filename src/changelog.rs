//! Changelog sections built from commit messages, and their insertion above
//! the newest version header.

use vstd::prelude::*;
use crate::commits::{classify_spec, description_spec, parse_commit, Kind};
use crate::semver::{bumped, fits, version_text, Rule, Version};
use crate::text::{chars_of, matches_at, occurs_at, push_all, string_of};

verus! {

/// Why a changelog could not be updated.
#[derive(Debug, PartialEq, Eq, Structural)]
pub enum ChangelogError {
    /// The changelog holds no level-2 header to insert above.
    MissingVersionHeader,
    /// The new version would not fit.
    VersionTooLarge,
}

/// A new version together with the changelog that records it.
pub struct Release {
    pub version: Version,
    pub changelog: String,
}

/// The texts of a list of messages.
pub open spec fn texts(v: Seq<String>) -> Seq<Seq<char>> {
    v.map_values(|s: String| s@)
}

/// Whether some message is classified as `k`.
pub open spec fn any_kind(msgs: Seq<Seq<char>>, k: Kind) -> bool {
    exists|i: int| 0 <= i < msgs.len() && #[trigger] classify_spec(msgs[i]) == k
}

/// The rule that a set of commits calls for: a breaking change gives Major,
/// else a feature gives Minor, else Patch (also when nothing is conventional).
pub open spec fn derived_rule(msgs: Seq<Seq<char>>) -> Rule {
    if any_kind(msgs, Kind::Breaking) {
        Rule::Major
    } else if any_kind(msgs, Kind::Feature) {
        Rule::Minor
    } else {
        Rule::Patch
    }
}

/// The list item for a message, if it is of kind `k`.
pub open spec fn entry(m: Seq<char>, k: Kind) -> Seq<char> {
    if classify_spec(m) == k {
        seq!['-', ' '] + description_spec(m) + seq!['\n']
    } else {
        Seq::empty()
    }
}

/// The list items of kind `k`, in the order of the messages.
pub open spec fn entries(msgs: Seq<Seq<char>>, k: Kind) -> Seq<char>
    decreases msgs.len(),
{
    if msgs.len() == 0 {
        Seq::empty()
    } else {
        entries(msgs.drop_last(), k) + entry(msgs.last(), k)
    }
}

/// A level-3 subsection, left out entirely when it has no items.
pub open spec fn subsection(title: Seq<char>, body: Seq<char>) -> Seq<char> {
    if body.len() == 0 {
        Seq::empty()
    } else {
        seq!['\n'] + title + seq!['\n', '\n'] + body
    }
}

pub open spec fn breaking_title() -> Seq<char> {
    "### Breaking Changes"@
}

pub open spec fn features_title() -> Seq<char> {
    "### Features"@
}

pub open spec fn fixes_title() -> Seq<char> {
    "### Fixes"@
}

/// The changelog section for `version` and the given commit messages.
pub open spec fn section_text(version: Seq<char>, msgs: Seq<Seq<char>>) -> Seq<char> {
    seq!['#', '#', ' '] + version + seq!['\n']
        + subsection(breaking_title(), entries(msgs, Kind::Breaking))
        + subsection(features_title(), entries(msgs, Kind::Feature))
        + subsection(fixes_title(), entries(msgs, Kind::Fix))
}

pub open spec fn line_start(c: Seq<char>, i: int) -> bool {
    i == 0 || c[i - 1] == '\n'
}

pub open spec fn header_mark() -> Seq<char> {
    seq!['#', '#', ' ']
}

/// The first level-2 header at or after `i`, or the length when there is none.
pub open spec fn header_from(c: Seq<char>, i: int) -> int
    decreases c.len() - i,
{
    if i < 0 || i >= c.len() {
        c.len() as int
    } else if line_start(c, i) && occurs_at(c, i, header_mark()) {
        i
    } else {
        header_from(c, i + 1)
    }
}

/// Where the topmost level-2 header starts; the length when there is none.
pub open spec fn first_header(c: Seq<char>) -> int {
    header_from(c, 0)
}

/// `section` and a blank line put in front of the first level-2 header.
pub open spec fn spliced(c: Seq<char>, section: Seq<char>) -> Seq<char> {
    let h = first_header(c);
    c.take(h) + section + seq!['\n'] + c.skip(h)
}

pub proof fn lemma_header_from_bounds(c: Seq<char>, i: int)
    requires
        0 <= i <= c.len(),
    ensures
        i <= header_from(c, i) <= c.len(),
    decreases c.len() - i,
{
    if i < c.len() && !(line_start(c, i) && occurs_at(c, i, header_mark())) {
        lemma_header_from_bounds(c, i + 1);
    }
}

fn first_header_exec(c: &Vec<char>) -> (r: usize)
    ensures
        r == first_header(c@),
        r <= c@.len(),
{
    let mark: Vec<char> = vec!['#', '#', ' '];
    assert(mark@ =~= header_mark());
    let mut i: usize = 0;
    while i < c.len() && !((i == 0 || c[i - 1] == '\n') && matches_at(c, i, &mark))
        invariant
            i <= c@.len(),
            mark@ == header_mark(),
            header_from(c@, 0) == header_from(c@, i as int),
        decreases c@.len() - i,
    {
        i = i + 1;
    }
    proof {
        lemma_header_from_bounds(c@, 0);
    }
    i
}

fn splice_chars(c: &Vec<char>, h: usize, section: &Vec<char>) -> (r: Vec<char>)
    requires
        h <= c@.len(),
    ensures
        r@ == c@.take(h as int) + section@ + seq!['\n'] + c@.skip(h as int),
{
    let mut out: Vec<char> = Vec::new();
    let mut i: usize = 0;
    while i < h
        invariant
            i <= h <= c@.len(),
            out@ == c@.take(i as int),
        decreases h - i,
    {
        out.push(c[i]);
        i = i + 1;
        assert(out@ =~= c@.take(i as int));
    }
    push_all(&mut out, section);
    out.push('\n');
    let ghost before = out@;
    while i < c.len()
        invariant
            h <= i <= c@.len(),
            out@ == before + c@.subrange(h as int, i as int),
        decreases c@.len() - i,
    {
        out.push(c[i]);
        i = i + 1;
        assert(out@ =~= before + c@.subrange(h as int, i as int));
    }
    assert(c@.subrange(h as int, i as int) =~= c@.skip(h as int));
    out
}

/// Inserts `section` above the topmost level-2 header of `changelog`. Fails
/// when there is no such header; everything from that header on is kept as it
/// was.
pub fn insert_section(changelog: &str, section: &str) -> (r: Result<String, ChangelogError>)
    ensures
        r is Err <==> first_header(changelog@) == changelog@.len(),
        r is Err ==> r == Err::<String, ChangelogError>(ChangelogError::MissingVersionHeader),
        r matches Ok(s) ==> s@ == spliced(changelog@, section@),
        r matches Ok(s) ==> s@.skip(s@.len() - changelog@.skip(first_header(changelog@)).len())
            == changelog@.skip(first_header(changelog@)),
{
    let c = chars_of(changelog);
    let h = first_header_exec(&c);
    if h == c.len() {
        return Err(ChangelogError::MissingVersionHeader);
    }
    let out = splice_chars(&c, h, &chars_of(section));
    proof {
        let t = changelog@.skip(h as int);
        assert(out@.skip(out@.len() - t.len()) =~= t);
    }
    Ok(string_of(&out))
}

/// The rule that the given commit messages call for.
pub fn derive_rule(messages: &Vec<String>) -> (r: Rule)
    ensures
        r == derived_rule(texts(messages@)),
{
    let ghost msgs = texts(messages@);
    let mut breaking = false;
    let mut feature = false;
    let mut i: usize = 0;
    while i < messages.len()
        invariant
            i <= messages@.len(),
            msgs == texts(messages@),
            breaking == exists|j: int| 0 <= j < i && #[trigger] classify_spec(msgs[j]) == Kind::Breaking,
            feature == exists|j: int| 0 <= j < i && #[trigger] classify_spec(msgs[j]) == Kind::Feature,
        decreases messages@.len() - i,
    {
        let k = crate::commits::classify(messages[i].as_str());
        assert(msgs[i as int] == messages@[i as int]@);
        if k == Kind::Breaking {
            breaking = true;
        }
        if k == Kind::Feature {
            feature = true;
        }
        i = i + 1;
    }
    if breaking {
        Rule::Major
    } else if feature {
        Rule::Minor
    } else {
        Rule::Patch
    }
}

fn push_subsection(out: &mut Vec<char>, title: &str, body: &Vec<char>)
    ensures
        final(out)@ == old(out)@ + subsection(title@, body@),
{
    if body.len() > 0 {
        out.push('\n');
        push_all(out, &chars_of(title));
        out.push('\n');
        out.push('\n');
        push_all(out, body);
    }
    assert(final(out)@ =~= old(out)@ + subsection(title@, body@));
}

/// The changelog section for `version` built from the commit messages.
pub fn render_section(version: &Version, messages: &Vec<String>) -> (r: String)
    ensures
        r@ == section_text(version_text(version@), texts(messages@)),
{
    let ghost msgs = texts(messages@);
    let mut b: Vec<char> = Vec::new();
    let mut f: Vec<char> = Vec::new();
    let mut x: Vec<char> = Vec::new();
    let mut i: usize = 0;
    while i < messages.len()
        invariant
            i <= messages@.len(),
            msgs == texts(messages@),
            b@ == entries(msgs.take(i as int), Kind::Breaking),
            f@ == entries(msgs.take(i as int), Kind::Feature),
            x@ == entries(msgs.take(i as int), Kind::Fix),
        decreases messages@.len() - i,
    {
        let rec = parse_commit(messages[i].as_str());
        let ghost m = msgs[i as int];
        assert(m == messages@[i as int]@);
        let mut item: Vec<char> = vec!['-', ' '];
        push_all(&mut item, &chars_of(rec.description.as_str()));
        item.push('\n');
        assert(item@ =~= seq!['-', ' '] + description_spec(m) + seq!['\n']);
        let ghost b0 = b@;
        let ghost f0 = f@;
        let ghost x0 = x@;
        match rec.kind {
            Kind::Breaking => push_all(&mut b, &item),
            Kind::Feature => push_all(&mut f, &item),
            Kind::Fix => push_all(&mut x, &item),
            Kind::Other => {},
        }
        proof {
            let pre = msgs.take(i + 1);
            assert(pre.drop_last() =~= msgs.take(i as int));
            assert(pre.last() == m);
            assert(b@ =~= b0 + entry(m, Kind::Breaking));
            assert(f@ =~= f0 + entry(m, Kind::Feature));
            assert(x@ =~= x0 + entry(m, Kind::Fix));
        }
        i = i + 1;
    }
    assert(msgs.take(i as int) =~= msgs);
    let mut out: Vec<char> = vec!['#', '#', ' '];
    push_all(&mut out, &version.text_chars());
    out.push('\n');
    push_subsection(&mut out, "### Breaking Changes", &b);
    push_subsection(&mut out, "### Features", &f);
    push_subsection(&mut out, "### Fixes", &x);
    assert(out@ =~= section_text(version_text(version@), msgs));
    string_of(&out)
}

/// The rule that is applied: the pinned one, else the one the commits call for.
pub open spec fn chosen_rule(pinned: Option<Rule>, msgs: Seq<Seq<char>>) -> Rule {
    match pinned {
        Some(r) => r,
        None => derived_rule(msgs),
    }
}

/// Bumps `current` by the pinned rule or the one that the commit messages call
/// for, and records the new version in the changelog.
pub fn update_from_commits(
    changelog: &str,
    messages: &Vec<String>,
    current: &Version,
    pinned: Option<Rule>,
) -> (r: Result<Release, ChangelogError>)
    ensures
        first_header(changelog@) == changelog@.len() ==> r == Err::<Release, ChangelogError>(
            ChangelogError::MissingVersionHeader,
        ),
        first_header(changelog@) < changelog@.len() ==> (r is Err <==> !fits(
            bumped(current@, chosen_rule(pinned, texts(messages@))),
        )),
        first_header(changelog@) < changelog@.len() && r is Err ==> r == Err::<Release, ChangelogError>(
            ChangelogError::VersionTooLarge,
        ),
        r matches Ok(rel) ==> {
            let v = bumped(current@, chosen_rule(pinned, texts(messages@)));
            &&& rel.version@ == v
            &&& rel.changelog@ == spliced(changelog@, section_text(version_text(v), texts(messages@)))
        },
{
    let c = chars_of(changelog);
    let h = first_header_exec(&c);
    if h == c.len() {
        return Err(ChangelogError::MissingVersionHeader);
    }
    let rule = match pinned {
        Some(r) => r,
        None => derive_rule(messages),
    };
    let version = match current.bump(&rule) {
        Ok(v) => v,
        Err(_) => return Err(ChangelogError::VersionTooLarge),
    };
    let section = render_section(&version, messages);
    let out = splice_chars(&c, h, &chars_of(section.as_str()));
    Ok(Release { version, changelog: string_of(&out) })
}

/// No list item is made from messages that are all of another kind.
pub proof fn lemma_entries_empty(msgs: Seq<Seq<char>>, k: Kind)
    requires
        forall|i: int| 0 <= i < msgs.len() ==> #[trigger] classify_spec(msgs[i]) != k,
    ensures
        entries(msgs, k) == Seq::<char>::empty(),
    decreases msgs.len(),
{
    if msgs.len() > 0 {
        let init = msgs.drop_last();
        assert forall|i: int| 0 <= i < init.len() implies #[trigger] classify_spec(init[i]) != k by {
            assert(init[i] == msgs[i]);
        }
        lemma_entries_empty(init, k);
        assert(classify_spec(msgs[msgs.len() - 1]) != k);
        assert(entries(msgs, k) =~= Seq::<char>::empty());
    }
}

/// When no message is a conventional feature, fix or breaking change, the
/// derived rule is Patch and the new section is its header alone.
pub proof fn lemma_no_conventional_commits(version: Seq<char>, msgs: Seq<Seq<char>>)
    requires
        forall|i: int| 0 <= i < msgs.len() ==> #[trigger] classify_spec(msgs[i]) == Kind::Other,
    ensures
        derived_rule(msgs) == Rule::Patch,
        section_text(version, msgs) == seq!['#', '#', ' '] + version + seq!['\n'],
{
    lemma_entries_empty(msgs, Kind::Breaking);
    lemma_entries_empty(msgs, Kind::Feature);
    lemma_entries_empty(msgs, Kind::Fix);
    assert(section_text(version, msgs) =~= seq!['#', '#', ' '] + version + seq!['\n']);
}

/// Splicing a section in keeps every character from the first level-2 header
/// on: the changelog's tail is the result's tail.
pub proof fn lemma_splice_keeps_tail(c: Seq<char>, section: Seq<char>)
    requires
        first_header(c) < c.len(),
    ensures
        ({
            let r = spliced(c, section);
            let tail = c.skip(first_header(c));
            r.skip(r.len() - tail.len()) == tail
        }),
{
    let r = spliced(c, section);
    let tail = c.skip(first_header(c));
    lemma_header_from_bounds(c, 0);
    assert(r.skip(r.len() - tail.len()) =~= tail);
}

} // verus!
