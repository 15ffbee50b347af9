use cors_proxy::cache::ResponseCache;
use cors_proxy::headers::{acao_value, check_header_value, cors_response, error_response, preflight_response};
use cors_proxy::origin::is_allowed_origin;
use cors_proxy::upstream::{build_upstream_request, cache_key};

#[test]
fn apex_origins_are_allowed() {
    assert!(is_allowed_origin("https://prigoana.com"));
    assert!(is_allowed_origin("http://prigoana.com"));
}

#[test]
fn subdomain_origins_are_allowed() {
    assert!(is_allowed_origin("https://app.prigoana.com"));
    assert!(is_allowed_origin("http://x.prigoana.com"));
    assert!(is_allowed_origin("https://a.b.prigoana.com"));
}

#[test]
fn foreign_origins_are_rejected() {
    assert!(!is_allowed_origin("https://evil.com"));
    assert!(!is_allowed_origin("https://prigoana.com.evil.com"));
    assert!(!is_allowed_origin("ftp://prigoana.com"));
    assert!(!is_allowed_origin("prigoana.com"));
    assert!(!is_allowed_origin(""));
}

#[test]
fn lookalike_host_is_rejected() {
    assert!(!is_allowed_origin("https://evilprigoana.com"));
    assert!(!is_allowed_origin("http://evilprigoana.com"));
}

#[test]
fn origin_with_port_or_path_is_rejected() {
    assert!(!is_allowed_origin("https://prigoana.com:8443"));
    assert!(!is_allowed_origin("https://app.prigoana.com/path"));
}

#[test]
fn header_value_check_accepts_visible_ascii_and_tab() {
    assert!(check_header_value("https://app.prigoana.com"));
    assert!(check_header_value("a\tb"));
    assert!(check_header_value(""));
}

#[test]
fn header_value_check_rejects_control_and_non_ascii() {
    assert!(!check_header_value("a\nb"));
    assert!(!check_header_value("a\rb"));
    assert!(!check_header_value("caf\u{e9}"));
    assert!(!check_header_value("\u{7f}"));
}

#[test]
fn acao_echoes_representable_origin() {
    let origin = Some(String::from("https://app.prigoana.com"));
    assert_eq!(acao_value(&origin), "https://app.prigoana.com");
}

#[test]
fn acao_falls_back_to_star() {
    assert_eq!(acao_value(&None), "*");
    let bad = Some(String::from("x\ny"));
    assert_eq!(acao_value(&bad), "*");
}

#[test]
fn success_response_carries_cors_headers_and_body() {
    let origin = Some(String::from("https://app.prigoana.com"));
    let r = cors_response(b"{\"ok\":true}".to_vec(), &origin);
    assert_eq!(r.status, 200);
    assert_eq!(r.headers.len(), 3);
    assert_eq!(r.headers[0].0, "access-control-allow-origin");
    assert_eq!(r.headers[0].1, "https://app.prigoana.com");
    assert_eq!(r.headers[1].0, "content-type");
    assert_eq!(r.headers[1].1, "application/json");
    assert_eq!(r.headers[2].0, "cache-control");
    assert_eq!(r.headers[2].1, "public, max-age=10");
    assert_eq!(r.body, b"{\"ok\":true}".to_vec());
}

#[test]
fn error_response_is_bodyless_with_wildcard_echo() {
    let r = error_response(403);
    assert_eq!(r.status, 403);
    assert_eq!(r.headers.len(), 1);
    assert_eq!(r.headers[0].0, "access-control-allow-origin");
    assert_eq!(r.headers[0].1, "*");
    assert!(r.body.is_empty());
}

#[test]
fn preflight_carries_the_four_headers() {
    let origin = Some(String::from("https://prigoana.com"));
    let r = preflight_response(&origin);
    assert_eq!(r.status, 200);
    assert_eq!(r.headers.len(), 4);
    assert_eq!(r.headers[0].0, "access-control-allow-origin");
    assert_eq!(r.headers[0].1, "https://prigoana.com");
    assert_eq!(r.headers[1].0, "access-control-allow-methods");
    assert_eq!(r.headers[1].1, "GET, OPTIONS");
    assert_eq!(r.headers[2].0, "access-control-allow-headers");
    assert_eq!(r.headers[2].1, "*");
    assert_eq!(r.headers[3].0, "access-control-max-age");
    assert_eq!(r.headers[3].1, "3600");
    assert!(r.body.is_empty());
}

#[test]
fn preflight_without_origin_echoes_star() {
    let r = preflight_response(&None);
    assert_eq!(r.headers[0].1, "*");
}

#[test]
fn cache_key_joins_path_and_query() {
    assert_eq!(cache_key("x/y", &None), "x/y");
    assert_eq!(cache_key("x/y", &Some(String::from("ref=main"))), "x/y?ref=main");
}

#[test]
fn distinct_queries_give_distinct_keys() {
    let k1 = cache_key("x/y", &Some(String::from("ref=main")));
    let k2 = cache_key("x/y", &Some(String::from("ref=dev")));
    assert_ne!(k1, k2);
}

#[test]
fn upstream_request_is_shaped_with_credential() {
    let tok = String::from("tok-abc123");
    let req = build_upstream_request("octocat/Hello-World", &None, &tok);
    assert_eq!(req.url, "https://api.github.com/repos/octocat/Hello-World");
    assert_eq!(req.user_agent, "rust-cors-proxy/1.0");
    assert_eq!(req.authorization, format!("Bearer {}", tok));
}

#[test]
fn upstream_request_keeps_the_raw_query() {
    let tok = String::from("t");
    let req = build_upstream_request("x/y", &Some(String::from("ref=dev")), &tok);
    assert_eq!(req.url, "https://api.github.com/repos/x/y?ref=dev");
}

#[test]
fn cache_returns_what_was_inserted() {
    let mut c = ResponseCache::new();
    c.insert(String::from("x/y"), b"body".to_vec(), 100);
    assert_eq!(c.lookup(&String::from("x/y"), 100), Some(b"body".to_vec()));
    assert_eq!(c.lookup(&String::from("x/y"), 5100), Some(b"body".to_vec()));
    assert_eq!(c.lookup(&String::from("other"), 100), None);
}

#[test]
fn cache_entry_expires_after_ttl() {
    let mut c = ResponseCache::new();
    c.insert(String::from("x/y"), b"body".to_vec(), 100);
    assert_eq!(c.lookup(&String::from("x/y"), 10100), Some(b"body".to_vec()));
    assert_eq!(c.lookup(&String::from("x/y"), 10101), None);
}

#[test]
fn cache_replacement_resets_age_and_body() {
    let mut c = ResponseCache::new();
    c.insert(String::from("x/y"), b"old".to_vec(), 0);
    c.insert(String::from("x/y"), b"new".to_vec(), 9000);
    assert_eq!(c.len(), 1);
    assert_eq!(c.lookup(&String::from("x/y"), 15000), Some(b"new".to_vec()));
}

#[test]
fn cache_holds_distinct_fingerprints_separately() {
    let mut c = ResponseCache::new();
    c.insert(String::from("x/y?ref=main"), b"main".to_vec(), 0);
    c.insert(String::from("x/y?ref=dev"), b"dev".to_vec(), 0);
    assert_eq!(c.len(), 2);
    assert_eq!(c.lookup(&String::from("x/y?ref=main"), 0), Some(b"main".to_vec()));
    assert_eq!(c.lookup(&String::from("x/y?ref=dev"), 0), Some(b"dev".to_vec()));
}

#[test]
fn full_cache_evicts_the_oldest_insertion() {
    let mut c = ResponseCache::new();
    for i in 0..10000u64 {
        c.insert(format!("k{}", i), b"b".to_vec(), i);
    }
    assert_eq!(c.len(), 10000);
    c.insert(String::from("fresh"), b"f".to_vec(), 10000);
    assert_eq!(c.len(), 10000);
    assert_eq!(c.lookup(&String::from("fresh"), 10000), Some(b"f".to_vec()));
    assert_eq!(c.lookup(&String::from("k0"), 10000), None);
    assert_eq!(c.lookup(&String::from("k1"), 10000), Some(b"b".to_vec()));
}
