//! The registry's authentication challenge, the value of a
//! `WWW-Authenticate` header: `<scheme> key1="v1",key2="v2",...`.

use vstd::prelude::*;
use crate::text::{find_char, index_of, substring};

verus! {

/// Whether `c` is white space in Unicode's sense (the `White_Space` property).
pub open spec fn is_white_space(c: char) -> bool {
    ('\t' <= c <= '\r') || c == ' ' || c == '\u{85}' || c == '\u{a0}' || c == '\u{1680}'
        || ('\u{2000}' <= c <= '\u{200a}') || c == '\u{2028}' || c == '\u{2029}'
        || c == '\u{202f}' || c == '\u{205f}' || c == '\u{3000}'
}

/// The characters that a trim takes off: white space, or double quotes.
pub open spec fn is_trimmed(c: char, white: bool) -> bool {
    if white { is_white_space(c) } else { c == '"' }
}

pub open spec fn trim_start(s: Seq<char>, white: bool) -> Seq<char>
    decreases s.len(),
{
    if s.len() > 0 && is_trimmed(s[0], white) { trim_start(s.drop_first(), white) } else { s }
}

pub open spec fn trim_end(s: Seq<char>, white: bool) -> Seq<char>
    decreases s.len(),
{
    if s.len() > 0 && is_trimmed(s.last(), white) { trim_end(s.drop_last(), white) } else { s }
}

/// `s` without the white space (or the double quotes) at either end.
pub open spec fn trim(s: Seq<char>, white: bool) -> Seq<char> {
    trim_end(trim_start(s, white), white)
}

fn trimmed_char(c: char, white: bool) -> (r: bool)
    ensures
        r == is_trimmed(c, white),
{
    if white {
        ('\t' <= c && c <= '\r') || c == ' ' || c == '\u{85}' || c == '\u{a0}' || c == '\u{1680}'
            || ('\u{2000}' <= c && c <= '\u{200a}') || c == '\u{2028}' || c == '\u{2029}'
            || c == '\u{202f}' || c == '\u{205f}' || c == '\u{3000}'
    } else {
        c == '"'
    }
}

/// Takes the white space (`white`) or the double quotes (`!white`) off both
/// ends of `s`.
pub fn trim_str(s: &str, white: bool) -> (r: String)
    ensures
        r@ == trim(s@, white),
{
    let n = s.unicode_len();
    let mut i: usize = 0;
    assert(s@.subrange(0, n as int) =~= s@);
    while i < n && trimmed_char(s.get_char(i), white)
        invariant
            n == s@.len(),
            i <= n,
            trim_start(s@, white) == trim_start(s@.subrange(i as int, n as int), white),
        decreases n - i,
    {
        assert(s@.subrange(i as int, n as int).drop_first() =~= s@.subrange(i + 1, n as int));
        i = i + 1;
    }
    let mut j: usize = n;
    while j > i && trimmed_char(s.get_char(j - 1), white)
        invariant
            n == s@.len(),
            i <= j <= n,
            trim_start(s@, white) == s@.subrange(i as int, n as int),
            trim(s@, white) == trim_end(s@.subrange(i as int, j as int), white),
        decreases j,
    {
        assert(s@.subrange(i as int, j as int).drop_last() =~= s@.subrange(i as int, j - 1));
        j = j - 1;
    }
    substring(s, i, j)
}

/// Parameters as pairs of name and value, in the order of their first
/// appearance.
pub type Params = Seq<(Seq<char>, Seq<char>)>;

pub open spec fn has_key(m: Params, k: Seq<char>) -> bool {
    exists|i: int| 0 <= i < m.len() && m[i].0 == k
}

pub open spec fn key_at(m: Params, k: Seq<char>) -> int {
    choose|i: int| 0 <= i < m.len() && m[i].0 == k
}

/// No name appears twice.
pub open spec fn keys_unique(m: Params) -> bool {
    forall|i: int, j: int| 0 <= i < m.len() && 0 <= j < m.len() && m[i].0 == m[j].0 ==> i == j
}

/// Sets `k` to `v`: in place where `k` is present, else at the end.
pub open spec fn put(m: Params, k: Seq<char>, v: Seq<char>) -> Params {
    if has_key(m, k) { m.update(key_at(m, k), (k, v)) } else { m.push((k, v)) }
}

/// What one comma-separated piece adds: `name=value` sets the trimmed name to
/// the trimmed value without its quotes; a piece without `=` adds nothing.
pub open spec fn add_param(m: Params, piece: Seq<char>) -> Params {
    let i = index_of(piece, '=');
    if i < piece.len() {
        put(
            m,
            trim(piece.subrange(0, i), true),
            trim(trim(piece.subrange(i + 1, piece.len() as int), true), false),
        )
    } else {
        m
    }
}

/// The parameters that the comma-separated list `s` adds to `m`, piece by piece.
pub open spec fn params_of(m: Params, s: Seq<char>) -> Params
    decreases s.len(),
{
    let i = index_of(s, ',');
    if 0 <= i < s.len() {
        params_of(add_param(m, s.subrange(0, i)), s.subrange(i + 1, s.len() as int))
    } else {
        add_param(m, s)
    }
}

pub open spec fn pairs_view(v: Seq<(String, String)>) -> Params {
    v.map_values(|p: (String, String)| (p.0@, p.1@))
}

/// Sets `k` to `v` in the list `m`.
pub fn put_param(m: &mut Vec<(String, String)>, k: String, v: String)
    requires
        keys_unique(pairs_view(old(m)@)),
    ensures
        pairs_view(final(m)@) == put(pairs_view(old(m)@), k@, v@),
        keys_unique(pairs_view(final(m)@)),
{
    let ghost before = pairs_view(m@);
    let n = m.len();
    let mut i: usize = 0;
    let mut found = false;
    while i < n && !found
        invariant
            n == m@.len(),
            before == pairs_view(m@),
            keys_unique(before),
            i <= n,
            found ==> i < n && before[i as int].0 == k@,
            forall|j: int| 0 <= j < i ==> before[j].0 != k@,
        decreases n - i + (if found { 0int } else { 1int }),
    {
        if m[i].0 == k {
            found = true;
        } else {
            i = i + 1;
        }
    }
    let ghost kv = (k@, v@);
    if found {
        proof {
            assert(has_key(before, k@));
            let c = key_at(before, k@);
            assert(c == i);
        }
        m.set(i, (k, v));
        assert(pairs_view(m@) =~= before.update(i as int, kv));
    } else {
        m.push((k, v));
        assert(pairs_view(m@) =~= before.push(kv));
    }
}

/// Adds what the piece `piece` of a parameter list says.
fn add_piece(m: &mut Vec<(String, String)>, piece: &str)
    requires
        keys_unique(pairs_view(old(m)@)),
    ensures
        pairs_view(final(m)@) == add_param(pairs_view(old(m)@), piece@),
        keys_unique(pairs_view(final(m)@)),
{
    let n = piece.unicode_len();
    let i = find_char(piece, '=');
    if i < n {
        let name = substring(piece, 0, i);
        let value = substring(piece, i + 1, n);
        let name = trim_str(name.as_str(), true);
        let value = trim_str(value.as_str(), true);
        let value = trim_str(value.as_str(), false);
        put_param(m, name, value);
    }
}

/// Reads a comma-separated list of `name=value` parameters; a later value of
/// a name replaces an earlier one.
pub fn parse_params(s: &str) -> (r: Vec<(String, String)>)
    ensures
        pairs_view(r@) == params_of(Seq::empty(), s@),
        keys_unique(pairs_view(r@)),
{
    let mut m: Vec<(String, String)> = Vec::new();
    let mut cur = String::from_str(s);
    assert(pairs_view(m@) =~= Seq::empty());
    loop
        invariant
            keys_unique(pairs_view(m@)),
            params_of(pairs_view(m@), cur@) == params_of(Seq::empty(), s@),
        decreases cur@.len(),
    {
        let n = cur.as_str().unicode_len();
        let i = find_char(cur.as_str(), ',');
        let piece = substring(cur.as_str(), 0, i);
        add_piece(&mut m, piece.as_str());
        if i < n {
            cur = substring(cur.as_str(), i + 1, n);
        } else {
            assert(piece@ =~= cur@);
            return m;
        }
    }
}

/// Where the name `k` stands in `m`, if it is there.
pub fn find_key(m: &Vec<(String, String)>, k: &String) -> (r: Option<usize>)
    requires
        keys_unique(pairs_view(m@)),
    ensures
        r is Some == has_key(pairs_view(m@), k@),
        r matches Some(i) ==> i == key_at(pairs_view(m@), k@) && i < m@.len(),
{
    let ghost v = pairs_view(m@);
    let n = m.len();
    let mut i: usize = 0;
    while i < n
        invariant
            n == m@.len(),
            v == pairs_view(m@),
            keys_unique(v),
            i <= n,
            forall|j: int| 0 <= j < i ==> v[j].0 != k@,
        decreases n - i,
    {
        if m[i].0 == *k {
            proof {
                assert(v[i as int].0 == k@);
                assert(has_key(v, k@));
                let c = key_at(v, k@);
                assert(c == i);
            }
            return Some(i);
        }
        i = i + 1;
    }
    None
}

/// Why a challenge could not be used.
#[derive(Debug, Clone, Copy, PartialEq, Eq, Structural)]
pub enum ChallengeError {
    /// The header has no space between the scheme and the parameters.
    Malformed,
    /// No `realm` parameter.
    NoRealm,
    /// The realm, with the other parameters as its query, is no URL.
    BadRealm,
}

/// A parsed challenge: the scheme, the token endpoint, and the parameters
/// other than `realm`, which are forwarded to it.
pub struct Challenge {
    pub scheme: String,
    pub realm: String,
    pub params: Vec<(String, String)>,
}

pub open spec fn scheme_of(h: Seq<char>) -> Seq<char> {
    h.subrange(0, index_of(h, ' '))
}

/// All the parameters of the header, `realm` included.
pub open spec fn header_params(h: Seq<char>) -> Params {
    params_of(Seq::empty(), h.subrange(index_of(h, ' ') + 1, h.len() as int))
}

pub open spec fn realm_key() -> Seq<char> {
    "realm"@
}

pub open spec fn has_realm(h: Seq<char>) -> bool {
    has_key(header_params(h), realm_key())
}

pub open spec fn realm_of(h: Seq<char>) -> Seq<char> {
    header_params(h)[key_at(header_params(h), realm_key())].1
}

pub open spec fn forwarded_params(h: Seq<char>) -> Params {
    header_params(h).remove(key_at(header_params(h), realm_key()))
}

/// Reads a `WWW-Authenticate` value: the scheme up to the first space, then
/// the parameters, of which `realm` is required.
pub fn parse_challenge(h: &str) -> (r: Result<Challenge, ChallengeError>)
    ensures
        (r == Err::<Challenge, ChallengeError>(ChallengeError::Malformed)) <==> !h@.contains(' '),
        (r == Err::<Challenge, ChallengeError>(ChallengeError::NoRealm)) <==> (h@.contains(' ')
            && !has_realm(h@)),
        r is Ok <==> h@.contains(' ') && has_realm(h@),
        r matches Ok(c) ==> c.scheme@ == scheme_of(h@) && c.realm@ == realm_of(h@)
            && pairs_view(c.params@) == forwarded_params(h@),
{
    let n = h.unicode_len();
    let i = find_char(h, ' ');
    if i == n {
        return Err(ChallengeError::Malformed);
    }
    let scheme = substring(h, 0, i);
    let rest = substring(h, i + 1, n);
    let mut params = parse_params(rest.as_str());
    let key = String::from_str("realm");
    match find_key(&params, &key) {
        None => Err(ChallengeError::NoRealm),
        Some(k) => {
            let ghost all = pairs_view(params@);
            let (_, realm) = params.remove(k);
            assert(pairs_view(params@) =~= all.remove(k as int));
            Ok(Challenge { scheme, realm, params })
        },
    }
}

} // verus!
