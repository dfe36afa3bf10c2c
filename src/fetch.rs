//! The paginated exchange with the registry's tag list, as a state machine:
//! the caller performs each request that a step asks for and hands back what
//! came of it.

use vstd::prelude::*;
use crate::challenge::{
    forwarded_params, has_realm, pairs_view, parse_challenge, realm_of, scheme_of, ChallengeError,
    Params,
};
use crate::image::{default_registry, Image};
use crate::tag::Tag;
use crate::text::find_char;

verus! {

/// The URL that `url::Url::parse_with_params` gives for `base` with the pairs
/// of `params` appended to its query.
pub uninterp spec fn url_with_query(base: Seq<char>, params: Params) -> Seq<char>;

/// Whether `url::Url::parse` accepts `base` as a URL.
pub uninterp spec fn is_url(base: Seq<char>) -> bool;

/// Relies on `reqwest::Url::parse_with_params` (the `url` crate): it parses
/// `base` and form-encodes each pair onto its query, in order; it fails only
/// where `base` is no URL, since appending the pairs cannot fail.
#[verifier::external_body]
fn url_with_params(base: &str, params: &Vec<(String, String)>) -> (r: Option<String>)
    ensures
        r is Some == is_url(base@),
        r matches Some(u) ==> u@ == url_with_query(base@, pairs_view(params@)),
{
    reqwest::Url::parse_with_params(base, params.iter()).ok().map(|u| u.to_string())
}

/// The number of tags that a page is asked to hold.
pub const PAGE_SIZE: usize = 100;

/// The host that serves the public registry.
pub open spec fn hub_host() -> Seq<char> {
    "registry-1.docker.io"@
}

/// The host to contact for `registry`.
pub open spec fn effective_registry(registry: Seq<char>) -> Seq<char> {
    if registry == default_registry() { hub_host() } else { registry }
}

/// The repository path to ask for: on the public registry a name without a
/// namespace stands in `library/`.
pub open spec fn effective_repository(registry: Seq<char>, repository: Seq<char>) -> Seq<char> {
    if registry == default_registry() && !repository.contains('/') {
        "library/"@ + repository
    } else {
        repository
    }
}

/// The first page's URL for an image.
pub open spec fn tags_url(registry: Seq<char>, repository: Seq<char>) -> Seq<char> {
    "https://"@ + effective_registry(registry) + "/v2/"@ + effective_repository(registry, repository)
        + "/tags/list?n=100"@
}

/// The key under which the local credential store keeps the registry's login.
pub open spec fn credential_key(registry: Seq<char>) -> Seq<char> {
    if registry == default_registry() { "https://index.docker.io/v1/"@ } else { registry }
}

/// The URL of the page after the one that ended with `last`: the first
/// page's URL with `last` as cursor, never the previous page's URL.
pub open spec fn page_after(base: Seq<char>, last: Seq<char>) -> Seq<char> {
    url_with_query(base, seq![("last"@, last)])
}

impl Image {
    /// The URL of the first page of this image's tag list.
    pub fn tags_url(&self) -> (r: String)
        ensures
            r@ == tags_url(self.registry@, self.repository@),
    {
        let hub = String::from_str("docker.io");
        let on_hub = self.registry == hub;
        let host = if on_hub {
            String::from_str("registry-1.docker.io")
        } else {
            self.registry.clone()
        };
        let n = self.repository.as_str().unicode_len();
        let slash = find_char(self.repository.as_str(), '/');
        let repository = if on_hub && slash == n {
            String::from_str("library/").concat(self.repository.as_str())
        } else {
            self.repository.clone()
        };
        String::from_str("https://").concat(host.as_str()).concat("/v2/").concat(
            repository.as_str(),
        ).concat("/tags/list?n=100")
    }

    /// The key of this image's registry in the local credential store.
    pub fn credential_key(&self) -> (r: String)
        ensures
            r@ == credential_key(self.registry@),
    {
        if self.registry == String::from_str("docker.io") {
            String::from_str("https://index.docker.io/v1/")
        } else {
            self.registry.clone()
        }
    }
}

/// The request to the token endpoint that a challenge asks for.
pub struct AuthRequest {
    pub scheme: String,
    pub url: String,
}

/// Reads a challenge and builds the URL of its token request: the realm with
/// every other parameter in its query.
pub fn prepare_auth(header: &str) -> (r: Result<AuthRequest, ChallengeError>)
    ensures
        (r == Err::<AuthRequest, ChallengeError>(ChallengeError::Malformed)) <==> !header@.contains(
            ' ',
        ),
        (r == Err::<AuthRequest, ChallengeError>(ChallengeError::NoRealm)) <==> (header@.contains(
            ' ',
        ) && !has_realm(header@)),
        r is Ok <==> header@.contains(' ') && has_realm(header@) && is_url(realm_of(header@)),
        r matches Ok(a) ==> a.scheme@ == scheme_of(header@) && a.url@ == url_with_query(
            realm_of(header@),
            forwarded_params(header@),
        ),
{
    match parse_challenge(header) {
        Err(e) => Err(e),
        Ok(c) => match url_with_params(c.realm.as_str(), &c.params) {
            Some(url) => Ok(AuthRequest { scheme: c.scheme, url }),
            None => Err(ChallengeError::BadRealm),
        },
    }
}

/// What the registry answered to a tag-list request.
pub enum Response {
    /// `200`, with the tags of the page.
    Page(Vec<String>),
    /// `401`, with the `WWW-Authenticate` value where there was one.
    Unauthorized(Option<String>),
    /// `404`.
    NotFound,
    /// Any other status.
    Status(u16),
}

/// Why a fetch failed.
#[derive(Debug, PartialEq, Eq)]
pub enum FetchError {
    /// The image does not exist or may not be read; with the cause, where
    /// there is one.
    NotFound(Option<String>),
    /// An unexpected HTTP status.
    Status(u16),
    /// The URL of the next page could not be built.
    BadUrl,
}

impl FetchError {
    /// The top message of the error.
    pub fn message(&self) -> (r: String)
        ensures
            r@ == match self {
                FetchError::NotFound(_) => "Image not found"@,
                FetchError::Status(_) => "Unexpected HTTP status"@,
                FetchError::BadUrl => "Failed to parse URL"@,
            },
    {
        match self {
            FetchError::NotFound(_) => String::from_str("Image not found"),
            FetchError::Status(_) => String::from_str("Unexpected HTTP status"),
            FetchError::BadUrl => String::from_str("Failed to parse URL"),
        }
    }
}

/// What the caller is to do next.
pub enum Step {
    /// Send a request for `next`, with the bearer token where one is held.
    Request,
    /// Answer this challenge and hand back the token, or why there is none.
    Authenticate(String),
    /// All pages are in.
    Done,
    /// The fetch failed.
    Failed(FetchError),
}

pub open spec fn names(tags: Seq<Tag>) -> Seq<Seq<char>> {
    tags.map_values(|t: Tag| t.name@)
}

pub open spec fn strings(v: Seq<String>) -> Seq<Seq<char>> {
    v.map_values(|s: String| s@)
}

/// The message that stands under "Image not found" when a token was refused.
pub open spec fn refused_token_cause() -> Seq<char> {
    "Got HTTP 401 with authentication token"@
}

/// One fetch of an image's tags: the first page's URL, the URL to ask next,
/// the bearer token once there is one, and the tags gathered so far.
pub struct TagFetch {
    pub base: String,
    pub next: String,
    pub token: Option<String>,
    pub tags: Vec<Tag>,
}

impl TagFetch {
    /// A fetch that has asked for nothing yet.
    pub fn start(image: &Image) -> (r: TagFetch)
        ensures
            r.base@ == tags_url(image.registry@, image.repository@),
            r.next@ == r.base@,
            r.token is None,
            r.tags@.len() == 0,
    {
        let base = image.tags_url();
        let next = base.clone();
        TagFetch { base, next, token: None, tags: Vec::new() }
    }

    /// Takes the registry's answer to the request for `next`.
    pub fn on_response(&mut self, resp: Response) -> (r: Step)
        ensures
            final(self).base@ == old(self).base@,
            final(self).token == old(self).token,
            match resp {
                Response::Page(page) => {
                    &&& names(final(self).tags@) == names(old(self).tags@) + strings(page@)
                    &&& page@.len() < PAGE_SIZE ==> r is Done && final(self).next@ == old(self).next@
                    &&& page@.len() >= PAGE_SIZE ==> (r is Request || r == Step::Failed(FetchError::BadUrl))
                    &&& page@.len() >= PAGE_SIZE ==> (r is Request <==> is_url(old(self).base@))
                    &&& r is Request ==> final(self).next@ == page_after(
                        old(self).base@,
                        page@.last()@,
                    )
                },
                Response::Unauthorized(challenge) => {
                    &&& final(self).tags@ == old(self).tags@
                    &&& final(self).next@ == old(self).next@
                    &&& match (old(self).token, challenge) {
                        (Some(_), _) => r matches Step::Failed(FetchError::NotFound(Some(c)))
                            && c@ == refused_token_cause(),
                        (None, Some(h)) => r matches Step::Authenticate(a) && a@ == h@,
                        (None, None) => r == Step::Failed(FetchError::Status(401)),
                    }
                },
                Response::NotFound => {
                    &&& final(self).tags@ == old(self).tags@
                    &&& final(self).next@ == old(self).next@
                    &&& r == Step::Failed(FetchError::NotFound(None))
                },
                Response::Status(code) => {
                    &&& final(self).tags@ == old(self).tags@
                    &&& final(self).next@ == old(self).next@
                    &&& r == Step::Failed(FetchError::Status(code))
                },
            },
    {
        match resp {
            Response::Page(page) => {
                let n = page.len();
                let ghost before = names(self.tags@);
                let mut i: usize = 0;
                while i < n
                    invariant
                        n == page@.len(),
                        i <= n,
                        self.base == old(self).base,
                        self.next == old(self).next,
                        self.token == old(self).token,
                        names(self.tags@) == before + strings(page@.subrange(0, i as int)),
                    decreases n - i,
                {
                    let ghost prev = self.tags@;
                    let name = page[i].clone();
                    assert(name@ == page@[i as int]@);
                    self.tags.push(Tag { name });
                    proof {
                        assert(names(self.tags@) =~= names(prev).push(page@[i as int]@));
                        assert(strings(page@.subrange(0, i + 1)) =~= strings(
                            page@.subrange(0, i as int),
                        ).push(page@[i as int]@));
                        assert(names(self.tags@) =~= before + strings(page@.subrange(0, i + 1)));
                    }
                    i = i + 1;
                }
                assert(page@.subrange(0, n as int) =~= page@);
                if n < PAGE_SIZE {
                    return Step::Done;
                }
                let cursor = vec![(String::from_str("last"), page[n - 1].clone())];
                assert(pairs_view(cursor@) =~= seq![("last"@, page@.last()@)]);
                match url_with_params(self.base.as_str(), &cursor) {
                    Some(url) => {
                        self.next = url;
                        Step::Request
                    },
                    None => Step::Failed(FetchError::BadUrl),
                }
            },
            Response::Unauthorized(challenge) => {
                if self.token.is_some() {
                    Step::Failed(
                        FetchError::NotFound(
                            Some(String::from_str("Got HTTP 401 with authentication token")),
                        ),
                    )
                } else {
                    match challenge {
                        Some(h) => Step::Authenticate(h),
                        None => Step::Failed(FetchError::Status(401)),
                    }
                }
            },
            Response::NotFound => Step::Failed(FetchError::NotFound(None)),
            Response::Status(code) => Step::Failed(FetchError::Status(code)),
        }
    }

    /// Takes the outcome of answering a challenge: the token, or the message
    /// of why none was had.
    pub fn on_token(&mut self, outcome: Result<String, String>) -> (r: Step)
        ensures
            final(self).base == old(self).base,
            final(self).next == old(self).next,
            final(self).tags == old(self).tags,
            match outcome {
                Ok(t) => r is Request && final(self).token == Some(t),
                Err(cause) => r == Step::Failed(FetchError::NotFound(Some(cause)))
                    && final(self).token == old(self).token,
            },
    {
        match outcome {
            Ok(t) => {
                self.token = Some(t);
                Step::Request
            },
            Err(cause) => Step::Failed(FetchError::NotFound(Some(cause))),
        }
    }
}

} // verus!
