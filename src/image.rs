//! Image references: a registry host and a repository path.

use vstd::prelude::*;
use crate::text::{find_char, index_of, lemma_index_of_contains, substring};

verus! {

/// The host name of the public registry that a reference without a host names.
pub open spec fn default_registry() -> Seq<char> {
    "docker.io"@
}

/// What a reference is read as: `(registry, repository)`, or `None` where it is
/// not a valid image reference. The reference is cut at each `/`; a first
/// segment that holds a `.` is a registry host.
pub open spec fn parse_reference(s: Seq<char>) -> Option<(Seq<char>, Seq<char>)> {
    let i = index_of(s, '/');
    if i == s.len() {
        Some((default_registry(), s))
    } else {
        let head = s.subrange(0, i);
        let tail = s.subrange(i + 1, s.len() as int);
        let j = index_of(tail, '/');
        if j == tail.len() {
            if head.contains('.') {
                Some((head, tail))
            } else {
                Some((default_registry(), s))
            }
        } else {
            let rest = tail.subrange(j + 1, tail.len() as int);
            if head.contains('.') && !rest.contains('/') {
                Some((head, tail))
            } else {
                None
            }
        }
    }
}

/// The registry that a valid reference names never holds a `/`.
pub proof fn lemma_registry_has_no_slash(s: Seq<char>)
    requires
        parse_reference(s) is Some,
    ensures
        parse_reference(s) matches Some(p) ==> !p.0.contains('/'),
{
    reveal_strlit("docker.io");
    lemma_index_of_contains(s, '/');
    let i = index_of(s, '/');
    let p = parse_reference(s)->0;
    let r = p.0;
    if r != default_registry() {
        assert(r =~= s.subrange(0, i));
        assert forall|k: int| 0 <= k < r.len() implies r[k] != '/' by {
            assert(r[k] == s[k]);
        }
    } else {
        assert forall|k: int| 0 <= k < r.len() implies r[k] != '/' by {
        }
    }
}

/// A container image: the registry that serves it and its repository path.
#[derive(Debug)]
pub struct Image {
    pub registry: String,
    pub repository: String,
}

impl Image {
    pub fn new(registry: &str, repository: &str) -> (r: Image)
        ensures
            r.registry@ == registry@,
            r.repository@ == repository@,
    {
        Image { registry: String::from_str(registry), repository: String::from_str(repository) }
    }

    /// Reads an image reference: `name`, `namespace/name`, `host/name` or
    /// `host/namespace/name`, where a host is told apart by a `.`.
    pub fn try_from(value: &str) -> (r: Result<Image, &'static str>)
        ensures
            parse_reference(value@) is None <==> r is Err,
            r matches Ok(img) ==> parse_reference(value@) == Some((img.registry@, img.repository@)),
            r matches Err(e) ==> e@ == "Invalid image format"@,
    {
        let n = value.unicode_len();
        let i = find_char(value, '/');
        proof {
            reveal_strlit("docker.io");
        }
        if i == n {
            return Ok(Image::new("docker.io", value));
        }
        let head = substring(value, 0, i);
        let tail = substring(value, i + 1, n);
        let dot = find_char(head.as_str(), '.');
        let has_dot = dot < head.as_str().unicode_len();
        let tn = tail.as_str().unicode_len();
        let j = find_char(tail.as_str(), '/');
        if j == tn {
            if has_dot {
                Ok(Image { registry: head, repository: tail })
            } else {
                Ok(Image::new("docker.io", value))
            }
        } else {
            let rest = substring(tail.as_str(), j + 1, tn);
            let k = find_char(rest.as_str(), '/');
            if has_dot && k == rest.as_str().unicode_len() {
                Ok(Image { registry: head, repository: tail })
            } else {
                Err("Invalid image format")
            }
        }
    }
}

} // verus!
