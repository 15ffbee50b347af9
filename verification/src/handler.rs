//! The proxy handler, as a state machine over plain values.
//!
//! A retrieval is handled in two steps with one suspension point between
//! them. [`ProxyService::handle_get`] takes a request up to the point where
//! the outcome is known: a denial, a cache hit, or an instruction to fetch
//! one shaped upstream request. When a fetch was instructed, the caller
//! performs it and hands whatever happened to
//! [`ProxyService::complete_fetch`], which stores a received body and emits
//! the response. The caller contributes no decision of its own.

use vstd::prelude::*;

use crate::cache::{copy_bytes, lemma_insert_then_fresh_lookup, ResponseCache, CACHE_TTL_MILLIS};
use crate::headers::{
    cors_response, error_headers, error_response, header_views, opt_view, spec_acao,
    success_headers, ProxyResponse,
};
use crate::origin::{is_allowed_origin, spec_allowed_origin};
use crate::upstream::{
    build_upstream_request, cache_key, spec_bearer, spec_fingerprint, spec_upstream_url,
    UpstreamRequest,
};

verus! {

/// A request proceeds past the policy check exactly when it carries no
/// origin or an admitted one.
pub open spec fn spec_admitted(origin: Option<Seq<char>>) -> bool {
    match origin {
        Some(o) => spec_allowed_origin(o),
        None => true,
    }
}

/// What a retrieval's first step decided: a finished response, or the one
/// upstream request that must be fetched before responding.
pub enum GetStep {
    Respond(ProxyResponse),
    Fetch(UpstreamRequest),
}

/// How the instructed fetch ended: the full body was received, the request
/// could not be sent, or the body could not be read.
pub enum FetchOutcome {
    Body(Vec<u8>),
    SendFailure,
    ReadFailure,
}

/// The proxy's whole state: the response cache and the bearer credential.
/// The credential reaches only the authorization value of shaped upstream
/// requests; no response carries it.
pub struct ProxyService {
    pub cache: ResponseCache,
    pub token: String,
}

impl ProxyService {
    /// The bearer credential.
    pub open spec fn token_view(self) -> Seq<char> {
        self.token@
    }

    /// Well-formed: the cache is.
    pub open spec fn wf(self) -> bool {
        self.cache.wf()
    }

    /// A service with an empty cache holding the given credential.
    pub fn new(token: String) -> (r: ProxyService)
        ensures
            r.wf(),
            r.token_view() == token@,
            r.cache.contents() == Seq::<(Seq<char>, Seq<u8>, u64)>::empty(),
            r.cache.clock() == 0,
    {
        ProxyService { cache: ResponseCache::new(), token }
    }

    /// Takes a retrieval up to the suspension point. A present, rejected
    /// origin is denied with 403 and nothing else happens; an admitted
    /// request with a live cache entry is answered from it; otherwise the
    /// one upstream request to fetch is returned, carrying the credential
    /// and the fixed identifier and nothing taken from the inbound request
    /// but path and query.
    pub fn handle_get(
        &self,
        origin: &Option<String>,
        path: &str,
        query: &Option<String>,
        now: u64,
    ) -> (r: GetStep)
        requires
            self.wf(),
            self.cache.clock() <= now,
        ensures
            ({
                let ov = opt_view(*origin);
                let fp = spec_fingerprint(path@, opt_view(*query));
                &&& !spec_admitted(ov) ==> (r matches GetStep::Respond(resp) && resp.status == 403
                    && header_views(resp.headers) == error_headers() && resp.body@ == Seq::<
                    u8,
                >::empty())
                &&& spec_admitted(ov) ==> match self.cache.spec_lookup(fp, now) {
                    Some(b) => r matches GetStep::Respond(resp) && resp.status == 200
                        && header_views(resp.headers) == success_headers(spec_acao(ov))
                        && resp.body@ == b,
                    None => r matches GetStep::Fetch(req) && req.url@ == spec_upstream_url(fp)
                        && req.user_agent@ == "rust-cors-proxy/1.0"@ && req.authorization@
                        == spec_bearer(self.token_view()),
                }
            }),
    {
        if let Some(o) = origin {
            if !is_allowed_origin(o.as_str()) {
                return GetStep::Respond(error_response(403));
            }
        }
        let key = cache_key(path, query);
        match self.cache.lookup(&key, now) {
            Some(b) => GetStep::Respond(cors_response(b, origin)),
            None => GetStep::Fetch(build_upstream_request(path, query, &self.token)),
        }
    }

    /// Finishes a retrieval whose fetch was instructed. A received body is
    /// stored under the request's fingerprint with its age reset and is
    /// returned as a success; a send failure answers 502 and a read failure
    /// 500, both with the wildcard echo and an untouched cache.
    pub fn complete_fetch(
        &mut self,
        origin: &Option<String>,
        path: &str,
        query: &Option<String>,
        outcome: FetchOutcome,
        now: u64,
    ) -> (r: ProxyResponse)
        requires
            old(self).wf(),
            old(self).cache.clock() <= now,
        ensures
            final(self).wf(),
            final(self).token_view() == old(self).token_view(),
            ({
                let ov = opt_view(*origin);
                let fp = spec_fingerprint(path@, opt_view(*query));
                match outcome {
                    FetchOutcome::Body(b) => {
                        &&& r.status == 200
                        &&& header_views(r.headers) == success_headers(spec_acao(ov))
                        &&& r.body@ == b@
                        &&& ResponseCache::inserted_rel(
                            old(self).cache,
                            final(self).cache,
                            fp,
                            b@,
                            now,
                        )
                    },
                    FetchOutcome::SendFailure => r.status == 502 && header_views(r.headers)
                        == error_headers() && r.body@ == Seq::<u8>::empty() && final(self).cache
                        == old(self).cache,
                    FetchOutcome::ReadFailure => r.status == 500 && header_views(r.headers)
                        == error_headers() && r.body@ == Seq::<u8>::empty() && final(self).cache
                        == old(self).cache,
                }
            }),
    {
        match outcome {
            FetchOutcome::Body(b) => {
                let key = cache_key(path, query);
                let stored = copy_bytes(&b);
                self.cache.insert(key, stored, now);
                cors_response(b, origin)
            },
            FetchOutcome::SendFailure => error_response(502),
            FetchOutcome::ReadFailure => error_response(500),
        }
    }
}

/// Law: once a fetched body has been stored for a fingerprint (the service
/// states [`ResponseCache::inserted_rel`] after `complete_fetch` received
/// it), every retrieval of a byte-equal path and query within the TTL finds
/// that body in the cache — and by the contract of
/// [`ProxyService::handle_get`], a retrieval that finds a body responds with
/// it and instructs no second upstream fetch.
pub proof fn lemma_completed_fetch_serves_repeats(
    pre: ProxyService,
    post: ProxyService,
    fingerprint: Seq<char>,
    body: Seq<u8>,
    t1: u64,
    t2: u64,
)
    requires
        ResponseCache::inserted_rel(pre.cache, post.cache, fingerprint, body, t1),
        t1 <= t2,
        t2 - t1 <= CACHE_TTL_MILLIS,
    ensures
        post.cache.spec_lookup(fingerprint, t2) == Some(body),
{
    lemma_insert_then_fresh_lookup(pre.cache, post.cache, fingerprint, body, t1, t2);
}

} // verus!
