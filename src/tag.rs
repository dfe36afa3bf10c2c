//! Tags and their version-aware order: tags that read as semantic versions
//! (after one leading `v`) come first, newest first; the others follow in
//! byte-wise order of their names.

use vstd::prelude::*;
use core::cmp::Ordering;
use crate::text::substring;

verus! {

/// Whether semver accepts `s` as a version (`MAJOR.MINOR.PATCH[-pre][+build]`).
pub uninterp spec fn is_semver(s: Seq<char>) -> bool;

/// How semver orders the versions that it reads from `a` and `b`.
pub uninterp spec fn semver_order(a: Seq<char>, b: Seq<char>) -> Ordering;

/// semver's version value, carried opaquely.
#[verifier::external_type_specification]
#[verifier::external_body]
pub struct ExVersion(semver::Version);

/// A version read by semver, together with the text that it was read from.
/// `parse_version` is its only constructor.
pub struct ParsedVersion {
    text: String,
    version: semver::Version,
}

impl ParsedVersion {
    pub closed spec fn text(&self) -> Seq<char> {
        self.text@
    }
}

/// Relies on `semver::Version::parse`: it accepts a text or refuses it, and an
/// accepted text starts with the digits of the major number.
#[verifier::external_body]
fn parse_version(s: &str) -> (r: Option<ParsedVersion>)
    ensures
        r is Some == is_semver(s@),
        r matches Some(v) ==> v.text() == s@ && s@.len() > 0 && '0' <= s@[0] <= '9',
{
    semver::Version::parse(s).ok().map(|v| ParsedVersion { text: s.to_string(), version: v })
}

/// Relies on the `Ord` that `semver::Version` derives (major, minor, patch,
/// pre-release, build metadata in turn), a total order: swapping the operands
/// reverses the result. Both values come from `parse_version`, so equal texts
/// give equal versions.
#[verifier::external_body]
fn compare_versions(a: &ParsedVersion, b: &ParsedVersion) -> (r: Ordering)
    ensures
        r == semver_order(a.text(), b.text()),
        reversed(r) == semver_order(b.text(), a.text()),
        a.text() == b.text() ==> r == Ordering::Equal,
{
    a.version.cmp(&b.version)
}

/// Byte-wise order of two names (the order of their code points, which UTF-8
/// keeps).
pub open spec fn lex_order(a: Seq<char>, b: Seq<char>) -> Ordering
    decreases a.len(),
{
    if a.len() == 0 {
        if b.len() == 0 { Ordering::Equal } else { Ordering::Less }
    } else if b.len() == 0 {
        Ordering::Greater
    } else if a[0] < b[0] {
        Ordering::Less
    } else if a[0] > b[0] {
        Ordering::Greater
    } else {
        lex_order(a.drop_first(), b.drop_first())
    }
}

/// The name with one leading `v` taken off, if it has one.
pub open spec fn strip_v(s: Seq<char>) -> Seq<char> {
    if s.len() > 0 && s[0] == 'v' { s.drop_first() } else { s }
}

/// Whether the tag reads as a version once a leading `v` is taken off.
pub open spec fn is_versioned(name: Seq<char>) -> bool {
    is_semver(strip_v(name))
}

/// The order of tags: versions first, newer before older, equal versions
/// byte-wise by name; then the other names, byte-wise ascending.
pub open spec fn tag_order(a: Seq<char>, b: Seq<char>) -> Ordering {
    if is_versioned(a) && is_versioned(b) {
        if semver_order(strip_v(b), strip_v(a)) == Ordering::Equal {
            lex_order(a, b)
        } else {
            semver_order(strip_v(b), strip_v(a))
        }
    } else if is_versioned(a) {
        Ordering::Less
    } else if is_versioned(b) {
        Ordering::Greater
    } else {
        lex_order(a, b)
    }
}

pub open spec fn reversed(o: Ordering) -> Ordering {
    match o {
        Ordering::Less => Ordering::Greater,
        Ordering::Equal => Ordering::Equal,
        Ordering::Greater => Ordering::Less,
    }
}

proof fn lemma_lex_step(a: Seq<char>, b: Seq<char>, i: int)
    requires
        0 <= i < a.len(),
        i < b.len(),
        a[i] == b[i],
    ensures
        lex_order(a.skip(i), b.skip(i)) == lex_order(a.skip(i + 1), b.skip(i + 1)),
{
    assert(a.skip(i).drop_first() =~= a.skip(i + 1));
    assert(b.skip(i).drop_first() =~= b.skip(i + 1));
}

/// Compares two names byte-wise.
pub fn compare_names(a: &str, b: &str) -> (r: Ordering)
    ensures
        r == lex_order(a@, b@),
{
    let n = a.unicode_len();
    let m = b.unicode_len();
    let mut i: usize = 0;
    assert(a@.skip(0) =~= a@);
    assert(b@.skip(0) =~= b@);
    while i < n && i < m
        invariant
            n == a@.len(),
            m == b@.len(),
            i <= n,
            i <= m,
            lex_order(a@, b@) == lex_order(a@.skip(i as int), b@.skip(i as int)),
        decreases n - i,
    {
        let x = a.get_char(i);
        let y = b.get_char(i);
        if x < y {
            return Ordering::Less;
        } else if x > y {
            return Ordering::Greater;
        }
        proof {
            lemma_lex_step(a@, b@, i as int);
        }
        i = i + 1;
    }
    if i == n {
        if i == m { Ordering::Equal } else { Ordering::Less }
    } else {
        Ordering::Greater
    }
}

proof fn lemma_lex_antisymmetric(a: Seq<char>, b: Seq<char>)
    ensures
        lex_order(a, b) == reversed(lex_order(b, a)),
    decreases a.len(),
{
    if a.len() > 0 && b.len() > 0 && a[0] == b[0] {
        lemma_lex_antisymmetric(a.drop_first(), b.drop_first());
    }
}

proof fn lemma_lex_reflexive(a: Seq<char>)
    ensures
        lex_order(a, a) == Ordering::Equal,
    decreases a.len(),
{
    if a.len() > 0 {
        lemma_lex_reflexive(a.drop_first());
    }
}

proof fn lemma_lex_transitive(a: Seq<char>, b: Seq<char>, c: Seq<char>, o: Ordering)
    requires
        o != Ordering::Equal,
        lex_order(a, b) == o,
        lex_order(b, c) == o,
    ensures
        lex_order(a, c) == o,
    decreases a.len(),
{
    if a.len() > 0 && b.len() > 0 && c.len() > 0 && a[0] == b[0] && b[0] == c[0] {
        lemma_lex_transitive(a.drop_first(), b.drop_first(), c.drop_first(), o);
    }
}

/// Two names that do not both read as versions compare in opposite ways when
/// swapped.
pub proof fn lemma_tag_order_antisymmetric(a: Seq<char>, b: Seq<char>)
    requires
        !(is_versioned(a) && is_versioned(b)),
    ensures
        tag_order(a, b) == reversed(tag_order(b, a)),
{
    lemma_lex_antisymmetric(a, b);
}

/// A name that does not read as a version is equal to itself, and only to
/// itself, among the other such names.
pub proof fn lemma_tag_order_reflexive(a: Seq<char>, b: Seq<char>)
    requires
        !is_versioned(a),
        !is_versioned(b),
    ensures
        tag_order(a, a) == Ordering::Equal,
        tag_order(a, b) == Ordering::Equal <==> a == b,
{
    lemma_lex_reflexive(a);
    lemma_lex_equal(a, b);
}

proof fn lemma_lex_equal(a: Seq<char>, b: Seq<char>)
    ensures
        lex_order(a, b) == Ordering::Equal <==> a == b,
    decreases a.len(),
{
    lemma_lex_reflexive(a);
    if a.len() > 0 && b.len() > 0 && a[0] == b[0] {
        lemma_lex_equal(a.drop_first(), b.drop_first());
        if lex_order(a, b) == Ordering::Equal {
            assert(a.drop_first() == b.drop_first());
            assert forall|i: int| 0 <= i < a.len() implies a[i] == b[i] by {
                if i > 0 {
                    assert(a[i] == a.drop_first()[i - 1]);
                    assert(b[i] == b.drop_first()[i - 1]);
                }
            }
            assert(a =~= b);
        }
    } else if a.len() == 0 && b.len() == 0 {
        assert(a =~= b);
    }
}

/// The order is transitive on every three names of which at least one does
/// not read as a version.
pub proof fn lemma_tag_order_transitive(a: Seq<char>, b: Seq<char>, c: Seq<char>, o: Ordering)
    requires
        !(is_versioned(a) && is_versioned(b) && is_versioned(c)),
        o != Ordering::Equal,
        tag_order(a, b) == o,
        tag_order(b, c) == o,
    ensures
        tag_order(a, c) == o,
{
    if !is_versioned(a) && !is_versioned(b) && !is_versioned(c) {
        lemma_lex_transitive(a, b, c, o);
    }
}

/// A newer version sorts before an older one, with or without a leading `v`
/// on either tag.
pub proof fn lemma_newer_version_first(x: Seq<char>, y: Seq<char>, tx: Seq<char>, ty: Seq<char>)
    requires
        is_semver(x),
        is_semver(y),
        x.len() > 0 && '0' <= x[0] <= '9',
        y.len() > 0 && '0' <= y[0] <= '9',
        semver_order(y, x) == Ordering::Less,
        tx == x || tx == seq!['v'] + x,
        ty == y || ty == seq!['v'] + y,
    ensures
        tag_order(tx, ty) == Ordering::Less,
{
    assert((seq!['v'] + x).drop_first() =~= x);
    assert((seq!['v'] + y).drop_first() =~= y);
    assert(strip_v(tx) == x);
    assert(strip_v(ty) == y);
    assert(tag_order(tx, ty) == semver_order(y, x));
}

/// A tag of an image.
#[derive(Debug)]
pub struct Tag {
    pub name: String,
}

impl Tag {
    pub fn new(name: &str) -> (r: Tag)
        ensures
            r.name@ == name@,
    {
        Tag { name: String::from_str(name) }
    }

    pub fn to_string(&self) -> (r: String)
        ensures
            r@ == self.name@,
    {
        self.name.clone()
    }

    /// Where `self` stands relative to `other` in the order of tags.
    pub fn cmp(&self, other: &Tag) -> (r: Ordering)
        ensures
            r == tag_order(self.name@, other.name@),
            r == reversed(tag_order(other.name@, self.name@)),
            r == Ordering::Equal <==> self.name@ == other.name@,
    {
        let a = strip_leading_v(self.name.as_str());
        let b = strip_leading_v(other.name.as_str());
        let va = parse_version(a.as_str());
        let vb = parse_version(b.as_str());
        match (va, vb) {
            (Some(x), Some(y)) => {
                let o = compare_versions(&y, &x);
                proof {
                    lemma_lex_antisymmetric(self.name@, other.name@);
                    lemma_lex_equal(self.name@, other.name@);
                }
                match o {
                    Ordering::Equal => compare_names(self.name.as_str(), other.name.as_str()),
                    _ => o,
                }
            },
            (Some(_), None) => Ordering::Less,
            (None, Some(_)) => Ordering::Greater,
            (None, None) => {
                proof {
                    lemma_lex_antisymmetric(self.name@, other.name@);
                    lemma_lex_equal(self.name@, other.name@);
                }
                compare_names(self.name.as_str(), other.name.as_str())
            },
        }
    }

    pub fn partial_cmp(&self, other: &Tag) -> (r: Option<Ordering>)
        ensures
            r == Some(tag_order(self.name@, other.name@)),
            r == Some(reversed(tag_order(other.name@, self.name@))),
    {
        Some(self.cmp(other))
    }
}

/// The name with one leading `v` taken off, if it has one.
pub fn strip_leading_v(s: &str) -> (r: String)
    ensures
        r@ == strip_v(s@),
{
    let n = s.unicode_len();
    if n > 0 && s.get_char(0) == 'v' {
        substring(s, 1, n)
    } else {
        substring(s, 0, n)
    }
}

} // verus!
