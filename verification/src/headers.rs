//! Response assembly: the cross-origin echo and the three response shapes.
//!
//! Every response the proxy emits is one of three shapes: a success carrying
//! an upstream body, a bodyless error, or a preflight answer. Each carries an
//! `access-control-allow-origin` header; a success adds the content type and
//! a cache directive aligned with the cache's TTL, a preflight adds the
//! capability headers.

use vstd::prelude::*;
use vstd::string::{StrSliceExecFns, StringExecFns};

verus! {

/// A character that a header value may carry: horizontal tab or visible
/// ASCII including space (code points 9 and 32 through 126).
pub open spec fn is_header_value_char(c: char) -> bool {
    c == '\t' || (' ' <= c && c <= '~')
}

/// A string representable as an outbound header value.
pub open spec fn is_header_value(s: Seq<char>) -> bool {
    forall|i: int| 0 <= i < s.len() ==> is_header_value_char(#[trigger] s[i])
}

/// The view of an optional header value.
pub open spec fn opt_view(o: Option<String>) -> Option<Seq<char>> {
    match o {
        Some(s) => Some(s@),
        None => None,
    }
}

/// The `access-control-allow-origin` value: the inbound origin verbatim when
/// present and representable in a header, else `*`.
pub open spec fn spec_acao(origin: Option<Seq<char>>) -> Seq<char> {
    match origin {
        Some(o) => if is_header_value(o) {
            o
        } else {
            "*"@
        },
        None => "*"@,
    }
}

/// Checks representability of a header value.
pub fn check_header_value(s: &str) -> (r: bool)
    ensures
        r == is_header_value(s@),
{
    let len = s.unicode_len();
    let mut i: usize = 0;
    while i < len
        invariant
            len == s@.len(),
            i <= len,
            forall|j: int| 0 <= j < i ==> is_header_value_char(#[trigger] s@[j]),
        decreases len - i,
    {
        let c = s.get_char(i);
        if !(c == '\t' || (c >= ' ' && c <= '~')) {
            return false;
        }
        i += 1;
    }
    true
}

/// Computes the `access-control-allow-origin` value for an inbound origin.
pub fn acao_value(origin: &Option<String>) -> (r: String)
    ensures
        r@ == spec_acao(opt_view(*origin)),
{
    match origin {
        Some(o) => {
            if check_header_value(o.as_str()) {
                o.clone()
            } else {
                String::from_str("*")
            }
        },
        None => String::from_str("*"),
    }
}

/// A complete response: status, header pairs in order, body bytes.
pub struct ProxyResponse {
    pub status: u16,
    pub headers: Vec<(String, String)>,
    pub body: Vec<u8>,
}

/// The header pairs of a response, as character sequences.
pub open spec fn header_views(hs: Vec<(String, String)>) -> Seq<(Seq<char>, Seq<char>)> {
    hs@.map_values(|p: (String, String)| (p.0@, p.1@))
}

/// Headers of a success response echoing `acao`.
pub open spec fn success_headers(acao: Seq<char>) -> Seq<(Seq<char>, Seq<char>)> {
    seq![
        ("access-control-allow-origin"@, acao),
        ("content-type"@, "application/json"@),
        ("cache-control"@, "public, max-age=10"@),
    ]
}

/// Headers of a bodyless error response.
pub open spec fn error_headers() -> Seq<(Seq<char>, Seq<char>)> {
    seq![("access-control-allow-origin"@, "*"@)]
}

/// Headers of a preflight answer echoing `acao`.
pub open spec fn preflight_headers(acao: Seq<char>) -> Seq<(Seq<char>, Seq<char>)> {
    seq![
        ("access-control-allow-origin"@, acao),
        ("access-control-allow-methods"@, "GET, OPTIONS"@),
        ("access-control-allow-headers"@, "*"@),
        ("access-control-max-age"@, "3600"@),
    ]
}

/// A success response is status 200, the cross-origin echo, the JSON label,
/// the cache directive, and the body verbatim.
pub fn cors_response(body: Vec<u8>, origin: &Option<String>) -> (r: ProxyResponse)
    ensures
        r.status == 200,
        header_views(r.headers) == success_headers(spec_acao(opt_view(*origin))),
        r.body@ == body@,
{
    let acao = acao_value(origin);
    let mut headers: Vec<(String, String)> = Vec::new();
    headers.push((String::from_str("access-control-allow-origin"), acao));
    headers.push((String::from_str("content-type"), String::from_str("application/json")));
    headers.push((String::from_str("cache-control"), String::from_str("public, max-age=10")));
    proof {
        assert(header_views(headers) =~= success_headers(spec_acao(opt_view(*origin))));
    }
    ProxyResponse { status: 200, headers, body }
}

/// An error response is the given status, the wildcard echo, and no body.
pub fn error_response(status: u16) -> (r: ProxyResponse)
    ensures
        r.status == status,
        header_views(r.headers) == error_headers(),
        r.body@ == Seq::<u8>::empty(),
{
    let mut headers: Vec<(String, String)> = Vec::new();
    headers.push((String::from_str("access-control-allow-origin"), String::from_str("*")));
    proof {
        assert(header_views(headers) =~= error_headers());
    }
    ProxyResponse { status, headers, body: Vec::new() }
}

/// A preflight answer is status 200, the cross-origin echo, and the three
/// fixed capability headers; it has no body and consults no policy.
pub fn preflight_response(origin: &Option<String>) -> (r: ProxyResponse)
    ensures
        r.status == 200,
        header_views(r.headers) == preflight_headers(spec_acao(opt_view(*origin))),
        r.body@ == Seq::<u8>::empty(),
{
    let acao = acao_value(origin);
    let mut headers: Vec<(String, String)> = Vec::new();
    headers.push((String::from_str("access-control-allow-origin"), acao));
    headers.push((String::from_str("access-control-allow-methods"), String::from_str("GET, OPTIONS")));
    headers.push((String::from_str("access-control-allow-headers"), String::from_str("*")));
    headers.push((String::from_str("access-control-max-age"), String::from_str("3600")));
    proof {
        assert(header_views(headers) =~= preflight_headers(spec_acao(opt_view(*origin))));
    }
    ProxyResponse { status: 200, headers, body: Vec::new() }
}

} // verus!
