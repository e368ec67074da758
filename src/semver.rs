//! Semantic versions and the rules that bump them.

use vstd::prelude::*;
use vstd::string::*;
use crate::text::{decimal, find_char, find_from, lemma_find_from_bounds, push_all, push_decimal, string_of, chars_of};

verus! {

/// A prerelease suffix of the form `label.number`.
pub struct Prerelease {
    pub label: String,
    pub number: u64,
}

/// A semantic version `major.minor.patch[-label.number]`.
pub struct Version {
    pub major: u64,
    pub minor: u64,
    pub patch: u64,
    pub pre: Option<Prerelease>,
}

/// The mathematical value of a version.
pub struct SemVer {
    pub major: nat,
    pub minor: nat,
    pub patch: nat,
    pub pre: Option<(Seq<char>, nat)>,
}

/// How a version is to be changed.
#[derive(Debug)]
pub enum Rule {
    Major,
    Minor,
    Patch,
    Pre { label: String },
    Release,
}

/// Why a version could not be bumped or read.
#[derive(Debug, PartialEq, Eq, Structural)]
pub enum VersionError {
    /// A component would grow past what a `u64` holds.
    TooLarge,
    /// The text is not a version.
    Malformed,
}

impl View for Version {
    type V = SemVer;

    open spec fn view(&self) -> SemVer {
        SemVer {
            major: self.major as nat,
            minor: self.minor as nat,
            patch: self.patch as nat,
            pre: match self.pre {
                Some(p) => Some((p.label@, p.number as nat)),
                None => None,
            },
        }
    }
}

/// Whether every component of `v` fits in a `u64`.
pub open spec fn fits(v: SemVer) -> bool {
    &&& v.major <= u64::MAX
    &&& v.minor <= u64::MAX
    &&& v.patch <= u64::MAX
    &&& v.pre matches Some((_, n)) ==> n <= u64::MAX
}

/// The version that `rule` makes of `v`.
pub open spec fn bumped(v: SemVer, rule: Rule) -> SemVer {
    match rule {
        Rule::Major => SemVer { major: v.major + 1, minor: 0, patch: 0, pre: None },
        Rule::Minor => SemVer { major: v.major, minor: v.minor + 1, patch: 0, pre: None },
        Rule::Patch => SemVer { major: v.major, minor: v.minor, patch: v.patch + 1, pre: None },
        Rule::Pre { label } => SemVer {
            pre: match v.pre {
                Some((l, n)) if l == label@ => Some((l, n + 1)),
                _ => Some((label@, 0)),
            },
            ..v
        },
        Rule::Release => SemVer { pre: None, ..v },
    }
}

/// The text of a version: `1.2.3` or `1.2.3-rc.0`.
pub open spec fn version_text(v: SemVer) -> Seq<char> {
    let core = decimal(v.major) + seq!['.'] + decimal(v.minor) + seq!['.'] + decimal(v.patch);
    match v.pre {
        Some((l, n)) => core + seq!['-'] + l + seq!['.'] + decimal(n),
        None => core,
    }
}

impl Version {
    /// A version without a prerelease suffix.
    pub fn new(major: u64, minor: u64, patch: u64) -> (r: Version)
        ensures
            r@ == (SemVer { major: major as nat, minor: minor as nat, patch: patch as nat, pre: None }),
    {
        Version { major, minor, patch, pre: None }
    }

    /// A version with the prerelease suffix `label.number`.
    pub fn with_pre(major: u64, minor: u64, patch: u64, label: &str, number: u64) -> (r: Version)
        ensures
            r@ == (SemVer {
                major: major as nat,
                minor: minor as nat,
                patch: patch as nat,
                pre: Some((label@, number as nat)),
            }),
    {
        let l = String::from_str(label);
        Version { major, minor, patch, pre: Some(Prerelease { label: l, number }) }
    }

    /// Applies `rule`; fails only where a component would overflow.
    pub fn bump(&self, rule: &Rule) -> (r: Result<Version, VersionError>)
        ensures
            r is Ok <==> fits(bumped(self@, *rule)),
            r is Err ==> r == Err::<Version, VersionError>(VersionError::TooLarge),
            r matches Ok(v) ==> v@ == bumped(self@, *rule),
    {
        match rule {
            Rule::Major => {
                if self.major == u64::MAX {
                    return Err(VersionError::TooLarge);
                }
                Ok(Version { major: self.major + 1, minor: 0, patch: 0, pre: None })
            },
            Rule::Minor => {
                if self.minor == u64::MAX {
                    return Err(VersionError::TooLarge);
                }
                Ok(Version { major: self.major, minor: self.minor + 1, patch: 0, pre: None })
            },
            Rule::Patch => {
                if self.patch == u64::MAX {
                    return Err(VersionError::TooLarge);
                }
                Ok(Version { major: self.major, minor: self.minor, patch: self.patch + 1, pre: None })
            },
            Rule::Pre { label } => {
                let pre = match &self.pre {
                    Some(p) => {
                        if p.label == *label {
                            if p.number == u64::MAX {
                                return Err(VersionError::TooLarge);
                            }
                            Prerelease { label: p.label.clone(), number: p.number + 1 }
                        } else {
                            Prerelease { label: label.clone(), number: 0 }
                        }
                    },
                    None => Prerelease { label: label.clone(), number: 0 },
                };
                Ok(Version { major: self.major, minor: self.minor, patch: self.patch, pre: Some(pre) })
            },
            Rule::Release => {
                Ok(Version { major: self.major, minor: self.minor, patch: self.patch, pre: None })
            },
        }
    }

    /// The characters of `version_text(self@)`.
    pub fn text_chars(&self) -> (r: Vec<char>)
        ensures
            r@ == version_text(self@),
    {
        let mut out: Vec<char> = Vec::new();
        push_decimal(&mut out, self.major);
        out.push('.');
        push_decimal(&mut out, self.minor);
        out.push('.');
        push_decimal(&mut out, self.patch);
        match &self.pre {
            Some(p) => {
                out.push('-');
                push_all(&mut out, &chars_of(p.label.as_str()));
                out.push('.');
                push_decimal(&mut out, p.number);
            },
            None => {},
        }
        out
    }

    /// The text of this version, as `version_text` gives it.
    pub fn to_text(&self) -> (r: String)
        ensures
            r@ == version_text(self@),
    {
        string_of(&self.text_chars())
    }
}

/// Starting a prerelease on a release version gives `label.0`, repeating the
/// same prerelease rule counts up to `label.1`, and releasing it gives back the
/// version that was started from.
pub proof fn lemma_prerelease_round_trip(v: SemVer, label: String)
    requires
        v.pre is None,
    ensures
        bumped(v, Rule::Pre { label }) == (SemVer { pre: Some((label@, 0)), ..v }),
        bumped(bumped(v, Rule::Pre { label }), Rule::Pre { label }) == (SemVer {
            pre: Some((label@, 1)),
            ..v
        }),
        bumped(bumped(bumped(v, Rule::Pre { label }), Rule::Pre { label }), Rule::Release) == v,
{
}

pub open spec fn is_digit(c: char) -> bool {
    '0' <= c && c <= '9'
}

/// A non-empty run of decimal digits.
pub open spec fn is_digits(s: Seq<char>) -> bool {
    s.len() > 0 && forall|i: int| 0 <= i < s.len() ==> #[trigger] is_digit(s[i])
}

/// The number that a run of decimal digits denotes.
pub open spec fn digits_value(s: Seq<char>) -> nat
    decreases s.len(),
{
    if s.len() == 0 {
        0
    } else {
        digits_value(s.drop_last()) * 10 + (s.last() as nat - '0' as nat) as nat
    }
}

/// The three dot-separated numbers of `major.minor.patch`.
pub open spec fn core_parts(c: Seq<char>) -> Option<(nat, nat, nat)> {
    let d1 = find_from(c, 0, '.');
    let d2 = find_from(c, d1 + 1, '.');
    if d2 < c.len() && is_digits(c.take(d1)) && is_digits(c.subrange(d1 + 1, d2))
        && is_digits(c.skip(d2 + 1)) {
        Some((digits_value(c.take(d1)), digits_value(c.subrange(d1 + 1, d2)), digits_value(c.skip(d2 + 1))))
    } else {
        None
    }
}

/// The label and number of a prerelease suffix `label.number`.
pub open spec fn pre_parts(p: Seq<char>) -> Option<(Seq<char>, nat)> {
    let d = find_from(p, 0, '.');
    if 0 < d < p.len() && is_digits(p.skip(d + 1)) {
        Some((p.take(d), digits_value(p.skip(d + 1))))
    } else {
        None
    }
}

/// The version that a text denotes: `major.minor.patch`, optionally followed
/// by `-label.number` where the label holds no dot.
pub open spec fn parse_spec(s: Seq<char>) -> Option<SemVer> {
    let dash = find_from(s, 0, '-');
    match core_parts(s.take(dash)) {
        None => None,
        Some((ma, mi, pa)) => if dash == s.len() {
            Some(SemVer { major: ma, minor: mi, patch: pa, pre: None })
        } else {
            match pre_parts(s.skip(dash + 1)) {
                None => None,
                Some(pre) => Some(SemVer { major: ma, minor: mi, patch: pa, pre: Some(pre) }),
            }
        },
    }
}

pub proof fn lemma_digits_value_grows(s: Seq<char>, i: int)
    requires
        0 <= i <= s.len(),
    ensures
        digits_value(s.take(i)) <= digits_value(s),
    decreases s.len() - i,
{
    if i < s.len() {
        assert(s.drop_last().take(i) =~= s.take(i));
        lemma_digits_value_grows(s.drop_last(), i);
    } else {
        assert(s.take(i) =~= s);
    }
}

/// Searching a prefix finds what searching the whole finds, cut at the prefix's end.
pub proof fn lemma_find_in_prefix(t: Seq<char>, n: int, i: int, ch: char)
    requires
        0 <= i <= n <= t.len(),
    ensures
        find_from(t.take(n), i, ch) == if find_from(t, i, ch) < n { find_from(t, i, ch) } else { n },
    decreases n - i,
{
    lemma_find_from_bounds(t, i, ch);
    if i < n && t[i] != ch {
        lemma_find_in_prefix(t, n, i + 1, ch);
    }
}

/// The value of the digits in `s[a..b]`; `None` when they are not all digits,
/// or the run is empty, or the value does not fit.
pub(crate) fn number_in(s: &Vec<char>, a: usize, b: usize) -> (r: Option<u64>)
    requires
        a <= b <= s@.len(),
    ensures
        r matches Some(n) ==> is_digits(s@.subrange(a as int, b as int)) && n == digits_value(
            s@.subrange(a as int, b as int),
        ),
        r is None ==> !is_digits(s@.subrange(a as int, b as int)) || digits_value(
            s@.subrange(a as int, b as int),
        ) > u64::MAX,
{
    if a == b {
        return None;
    }
    let ghost whole = s@.subrange(a as int, b as int);
    let mut n: u64 = 0;
    let mut i: usize = a;
    while i < b
        invariant
            a <= i <= b <= s@.len(),
            whole == s@.subrange(a as int, b as int),
            forall|j: int| a <= j < i ==> #[trigger] is_digit(s@[j]),
            n == digits_value(s@.subrange(a as int, i as int)),
        decreases b - i,
    {
        let c = s[i];
        if !('0' <= c && c <= '9') {
            assert(!is_digit(whole[i - a]));
            return None;
        }
        let d: u64 = (c as u32 - '0' as u32) as u64;
        assert(s@.subrange(a as int, i + 1).drop_last() =~= s@.subrange(a as int, i as int));
        if n > (u64::MAX - d) / 10 {
            proof {
                assert(whole.take(i + 1 - a) =~= s@.subrange(a as int, i + 1));
                lemma_digits_value_grows(whole, i + 1 - a);
            }
            return None;
        }
        n = n * 10 + d;
        i = i + 1;
    }
    assert(is_digits(whole)) by {
        assert forall|j: int| 0 <= j < whole.len() implies #[trigger] is_digit(whole[j]) by {
            assert(whole[j] == s@[a + j]);
        }
    }
    Some(n)
}

/// Reads a version from its text. Malformed text and numbers that do not fit
/// in a `u64` are errors.
pub fn parse_version(text: &str) -> (r: Result<Version, VersionError>)
    ensures
        r == Err::<Version, VersionError>(VersionError::Malformed) <==> parse_spec(text@) is None,
        r == Err::<Version, VersionError>(VersionError::TooLarge) <==> (parse_spec(text@) matches Some(v) && !fits(v)),
        r matches Ok(v) ==> parse_spec(text@) == Some(v@),
{
    let s = chars_of(text);
    let ghost t = s@;
    let dash = find_char(&s, 0, '-');
    proof {
        lemma_find_from_bounds(t, 0, '-');
    }
    let ghost c = t.take(dash as int);
    let d1 = find_char(&s, 0, '.');
    proof {
        lemma_find_from_bounds(t, 0, '.');
        lemma_find_from_bounds(c, 0, '.');
        lemma_find_in_prefix(t, dash as int, 0, '.');
    }
    let ghost td1 = find_from(t, 0, '.');
    let ghost cd1 = find_from(c, 0, '.');
    assert(cd1 == td1 || (cd1 == c.len() && td1 >= dash));
    if d1 >= dash {
        assert(cd1 == c.len());
        return Err(VersionError::Malformed);
    }
    let d2 = find_char(&s, d1 + 1, '.');
    proof {
        lemma_find_from_bounds(t, d1 + 1, '.');
        lemma_find_from_bounds(c, d1 + 1, '.');
        lemma_find_in_prefix(t, dash as int, d1 + 1, '.');
    }
    let ghost cd2 = find_from(c, d1 + 1, '.');
    assert(cd2 == d2 || (cd2 == c.len() && d2 >= dash));
    if d2 >= dash {
        return Err(VersionError::Malformed);
    }
    assert(c.take(d1 as int) =~= t.subrange(0, d1 as int));
    assert(c.subrange(d1 + 1, d2 as int) =~= t.subrange(d1 + 1, d2 as int));
    assert(c.skip(d2 + 1) =~= t.subrange(d2 + 1, dash as int));
    if !(digits_in(&s, 0, d1) && digits_in(&s, d1 + 1, d2) && digits_in(&s, d2 + 1, dash)) {
        return Err(VersionError::Malformed);
    }
    let mut pre_dot: usize = dash;
    if dash < s.len() {
        let ghost p = t.skip(dash + 1);
        let d = find_char(&s, dash + 1, '.');
        proof {
            lemma_find_from_bounds(t, dash + 1, '.');
            lemma_find_from_bounds(p, 0, '.');
            crate::text::lemma_find_in_suffix(t, dash + 1, 0, '.');
        }
        let ghost pd = find_from(p, 0, '.');
        assert(pd == d - dash - 1);
        if d == dash + 1 || d == s.len() {
            return Err(VersionError::Malformed);
        }
        assert(p.skip(pd + 1) =~= t.subrange(d + 1, t.len() as int));
        assert(p.take(pd) =~= t.subrange(dash + 1, d as int));
        if !digits_in(&s, d + 1, s.len()) {
            return Err(VersionError::Malformed);
        }
        pre_dot = d;
    } else {
        assert(c =~= t);
    }
    let (major, minor, patch) = match (number_in(&s, 0, d1), number_in(&s, d1 + 1, d2), number_in(&s, d2 + 1, dash)) {
        (Some(x), Some(y), Some(z)) => (x, y, z),
        _ => return Err(VersionError::TooLarge),
    };
    if dash == s.len() {
        return Ok(Version { major, minor, patch, pre: None });
    }
    let d = pre_dot;
    match number_in(&s, d + 1, s.len()) {
        Some(number) => {
            let mut label: Vec<char> = Vec::new();
            let mut i: usize = dash + 1;
            while i < d
                invariant
                    dash + 1 <= i <= d <= t.len(),
                    s@ == t,
                    label@ == t.subrange(dash + 1, i as int),
                decreases d - i,
            {
                label.push(s[i]);
                i = i + 1;
                assert(label@ =~= t.subrange(dash + 1, i as int));
            }
            Ok(Version { major, minor, patch, pre: Some(Prerelease { label: string_of(&label), number }) })
        },
        None => Err(VersionError::TooLarge),
    }
}

/// Whether `s[a..b]` is a non-empty run of digits.
pub(crate) fn digits_in(s: &Vec<char>, a: usize, b: usize) -> (r: bool)
    requires
        a <= b <= s@.len(),
    ensures
        r == is_digits(s@.subrange(a as int, b as int)),
{
    let ghost whole = s@.subrange(a as int, b as int);
    if a == b {
        return false;
    }
    let mut i: usize = a;
    while i < b
        invariant
            a <= i <= b <= s@.len(),
            whole == s@.subrange(a as int, b as int),
            forall|j: int| 0 <= j < i - a ==> #[trigger] is_digit(whole[j]),
        decreases b - i,
    {
        if !('0' <= s[i] && s[i] <= '9') {
            assert(!is_digit(whole[i - a]));
            return false;
        }
        i = i + 1;
    }
    true
}
/// Reads a version from its text, bumps it by `rule` and gives the new text.
pub fn bump_version_text(current: &str, rule: &Rule) -> (r: Result<String, VersionError>)
    ensures
        parse_spec(current@) is None ==> r == Err::<String, VersionError>(VersionError::Malformed),
        parse_spec(current@) matches Some(v) ==> {
            &&& !fits(v) ==> r == Err::<String, VersionError>(VersionError::TooLarge)
            &&& fits(v) && !fits(bumped(v, *rule)) ==> r == Err::<String, VersionError>(VersionError::TooLarge)
            &&& fits(v) && fits(bumped(v, *rule)) ==> (r matches Ok(t) && t@ == version_text(bumped(v, *rule)))
        },
{
    let v = parse_version(current)?;
    let next = v.bump(rule)?;
    Ok(next.to_text())
}

/// The decimal digits of a number read back as that number.
pub proof fn lemma_decimal_digits(n: nat)
    ensures
        is_digits(decimal(n)),
        digits_value(decimal(n)) == n,
        forall|i: int| 0 <= i < decimal(n).len() ==> #[trigger] is_digit(decimal(n)[i]),
    decreases n,
{
    if n >= 10 {
        lemma_decimal_digits(n / 10);
        let s = decimal(n);
        assert(s.drop_last() == decimal(n / 10));
        assert(s.last() as nat == n % 10 + 48);
        assert((n / 10) * 10 + n % 10 == n);
        assert(digits_value(s) == digits_value(s.drop_last()) * 10 + (s.last() as nat - '0' as nat) as nat);
        assert(digits_value(s) == (n / 10) * 10 + n % 10);
        assert forall|i: int| 0 <= i < s.len() implies #[trigger] is_digit(s[i]) by {
            if i < s.len() - 1 {
                assert(s[i] == decimal(n / 10)[i]);
            }
        }
    } else {
        assert(is_digit(decimal(n)[0]));
        assert(decimal(n).drop_last() =~= Seq::<char>::empty());
        assert(decimal(n).last() as nat == n + 48);
        assert(digits_value(decimal(n)) == digits_value(decimal(n).drop_last()) * 10 + (decimal(n).last() as nat - '0' as nat) as nat);
    }
}

/// A search that starts before a stretch free of `ch` finds what a search
/// from the end of that stretch finds.
pub proof fn lemma_find_skips_free(s: Seq<char>, i: int, j: int, ch: char)
    requires
        0 <= i <= j <= s.len(),
        forall|k: int| i <= k < j ==> s[k] != ch,
    ensures
        find_from(s, i, ch) == find_from(s, j, ch),
    decreases j - i,
{
    if i < j {
        lemma_find_skips_free(s, i + 1, j, ch);
    }
}

/// In `a + b`, where `a` does not hold `ch`, the first `ch` is the first of `b`.
pub proof fn lemma_find_after_free(a: Seq<char>, b: Seq<char>, ch: char)
    requires
        forall|k: int| 0 <= k < a.len() ==> a[k] != ch,
    ensures
        find_from(a + b, 0, ch) == a.len() + find_from(b, 0, ch),
{
    let s = a + b;
    assert forall|k: int| 0 <= k < a.len() implies s[k] != ch by {
        assert(s[k] == a[k]);
    }
    lemma_find_skips_free(s, 0, a.len() as int, ch);
    crate::text::lemma_find_in_suffix(s, a.len() as int, 0, ch);
    assert(s.skip(a.len() as int) =~= b);
}

/// Whether a prerelease label can be written and read back: not empty, no dot.
pub open spec fn label_ok(l: Seq<char>) -> bool {
    l.len() > 0 && forall|i: int| 0 <= i < l.len() ==> l[i] != '.'
}

/// Reading the text of a version gives back that version.
pub proof fn lemma_text_round_trip(v: SemVer)
    requires
        v.pre matches Some((l, _)) ==> label_ok(l),
    ensures
        parse_spec(version_text(v)) == Some(v),
{
    let a = decimal(v.major);
    let b = decimal(v.minor);
    let c = decimal(v.patch);
    lemma_decimal_digits(v.major);
    lemma_decimal_digits(v.minor);
    lemma_decimal_digits(v.patch);
    let core = a + seq!['.'] + b + seq!['.'] + c;
    let t = version_text(v);
    assert forall|k: int| 0 <= k < core.len() implies core[k] != '-' by {
        if k < a.len() {
            assert(core[k] == a[k] && is_digit(a[k]));
        } else if a.len() < k < a.len() + 1 + b.len() {
            assert(core[k] == b[k - a.len() - 1] && is_digit(b[k - a.len() - 1]));
        } else if a.len() + 1 + b.len() < k {
            assert(core[k] == c[k - a.len() - 2 - b.len()] && is_digit(c[k - a.len() - 2 - b.len()]));
        }
    }
    assert forall|k: int| 0 <= k < a.len() implies a[k] != '.' by {
        assert(is_digit(a[k]));
    }
    assert forall|k: int| 0 <= k < b.len() implies b[k] != '.' by {
        assert(is_digit(b[k]));
    }
    lemma_find_after_free(a, seq!['.'] + b + seq!['.'] + c, '.');
    assert(core =~= a + (seq!['.'] + b + seq!['.'] + c));
    let rest = b + seq!['.'] + c;
    lemma_find_after_free(b, seq!['.'] + c, '.');
    crate::text::lemma_find_in_suffix(core, a.len() as int + 1, 0, '.');
    assert(core.skip(a.len() as int + 1) =~= b + (seq!['.'] + c));
    assert(core.take(a.len() as int) =~= a);
    assert(core.subrange(a.len() as int + 1, a.len() as int + 1 + b.len()) =~= b);
    assert(core.skip(a.len() as int + 2 + b.len()) =~= c);
    match v.pre {
        None => {
            assert(t == core);
            lemma_find_skips_free(t, 0, t.len() as int, '-');
            assert(t.take(t.len() as int) =~= t);
        },
        Some((l, n)) => {
            let p = l + seq!['.'] + decimal(n);
            lemma_decimal_digits(n);
            assert(t =~= core + (seq!['-'] + p));
            lemma_find_after_free(core, seq!['-'] + p, '-');
            assert(t.take(core.len() as int) =~= core);
            assert(t.skip(core.len() as int + 1) =~= p);
            lemma_find_after_free(l, seq!['.'] + decimal(n), '.');
            assert(p =~= l + (seq!['.'] + decimal(n)));
            assert(p.take(l.len() as int) =~= l);
            assert(p.skip(l.len() as int + 1) =~= decimal(n));
        },
    }
}

} // verus!
