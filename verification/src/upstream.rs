//! Request shaping: the cache fingerprint, the upstream URL, and the
//! outbound request with the injected bearer credential.
//!
//! The fingerprint is the inbound path, joined to the raw query by a literal
//! `?` when one is present. It is both the cache key and the suffix appended
//! to the upstream base URL, so byte-equal path and query means one cache
//! entry and one upstream target.

use vstd::prelude::*;
use vstd::string::StringExecFns;

use crate::headers::opt_view;

verus! {

/// The fingerprint of a request: path, then `?` and the raw query if any.
pub open spec fn spec_fingerprint(path: Seq<char>, query: Option<Seq<char>>) -> Seq<char> {
    match query {
        Some(q) => path + "?"@ + q,
        None => path,
    }
}

/// The upstream URL for a fingerprint.
pub open spec fn spec_upstream_url(fingerprint: Seq<char>) -> Seq<char> {
    "https://api.github.com/repos/"@ + fingerprint
}

/// The credential header value: the bearer scheme before the token.
pub open spec fn spec_bearer(token: Seq<char>) -> Seq<char> {
    "Bearer "@ + token
}

/// Computes the fingerprint of an inbound request.
pub fn cache_key(path: &str, query: &Option<String>) -> (r: String)
    ensures
        r@ == spec_fingerprint(path@, opt_view(*query)),
{
    match query {
        Some(q) => String::from_str(path).concat("?").concat(q.as_str()),
        None => String::from_str(path),
    }
}

/// Everything the outbound call carries. These three strings are the whole
/// of the upstream request: no inbound header is among them.
pub struct UpstreamRequest {
    pub url: String,
    pub user_agent: String,
    pub authorization: String,
}

/// Shapes the one outbound request for an uncached inbound request. The
/// URL is a function of path and query alone; the two headers are the fixed
/// identifier and the injected credential.
pub fn build_upstream_request(path: &str, query: &Option<String>, token: &String) -> (r:
    UpstreamRequest)
    ensures
        r.url@ == spec_upstream_url(spec_fingerprint(path@, opt_view(*query))),
        r.user_agent@ == "rust-cors-proxy/1.0"@,
        r.authorization@ == spec_bearer(token@),
{
    let key = cache_key(path, query);
    UpstreamRequest {
        url: String::from_str("https://api.github.com/repos/").concat(key.as_str()),
        user_agent: String::from_str("rust-cors-proxy/1.0"),
        authorization: String::from_str("Bearer ").concat(token.as_str()),
    }
}

/// Joining distinct raw queries to one path yields distinct fingerprints,
/// so such requests occupy distinct cache entries and upstream targets.
pub proof fn lemma_fingerprint_distinguishes_queries(
    path: Seq<char>,
    q1: Seq<char>,
    q2: Seq<char>,
)
    requires
        q1 != q2,
    ensures
        spec_fingerprint(path, Some(q1)) != spec_fingerprint(path, Some(q2)),
{
    let f1 = spec_fingerprint(path, Some(q1));
    let f2 = spec_fingerprint(path, Some(q2));
    let head = path + "?"@;
    if f1 == f2 {
        assert(q1 =~= q2) by {
            assert(f1.len() == head.len() + q1.len());
            assert(f2.len() == head.len() + q2.len());
            assert(q1.len() == q2.len());
            assert(forall|i: int|
                0 <= i < q1.len() ==> q1[i] == #[trigger] q2[i]) by {
                assert(forall|i: int| 0 <= i < q1.len() ==> f1[head.len() + i] == #[trigger] q1[i]);
                assert(forall|i: int| 0 <= i < q2.len() ==> f2[head.len() + i] == #[trigger] q2[i]);
            }
        }
    }
}

} // verus!
