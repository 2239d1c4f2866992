//! Header filtering, SSE detection, SSE hygiene and trace snapshots.

use axum::http::{HeaderMap, HeaderName, HeaderValue};

use replayable_proxy::headers::{
    add_sse_hygiene_headers, captured_headers, forwardable_request_headers,
    forwardable_response_headers, header_map_new, header_name_count, is_hop_by_hop, is_scrubbed,
    is_sse_response, try_add_sse_hygiene_headers, try_forwardable_request_headers,
    try_forwardable_response_headers, APPEND_SAFE_NAMES, REDACTED,
};

fn map(pairs: &[(&'static str, &'static str)]) -> HeaderMap {
    let mut h = HeaderMap::new();
    for (k, v) in pairs {
        h.append(HeaderName::from_bytes(k.as_bytes()).unwrap(), HeaderValue::from_static(v));
    }
    h
}

fn values(h: &HeaderMap, name: &str) -> Vec<String> {
    h.get_all(name).iter().map(|v| v.to_str().unwrap().to_string()).collect()
}

fn pairs(h: &HeaderMap) -> Vec<(String, String)> {
    h.iter().map(|(k, v)| (k.as_str().to_string(), v.to_str().unwrap().to_string())).collect()
}

#[test]
fn hop_by_hop_names_any_case() {
    for n in [
        "connection",
        "Keep-Alive",
        "PROXY-AUTHENTICATE",
        "proxy-authorization",
        "proxy-connection",
        "TE",
        "trailers",
        "Transfer-Encoding",
        "upgrade",
        "Host",
        "content-length",
        "CoNnEcTion",
    ] {
        assert!(is_hop_by_hop(n), "{n} is hop-by-hop");
    }
    for n in ["authorization", "content-type", "x-connection", "connections", "", "tee"] {
        assert!(!is_hop_by_hop(n), "{n} is not hop-by-hop");
    }
}

#[test]
fn request_filter_strips_hop_by_hop_and_keeps_the_rest_in_order() {
    let long_secret = "x".repeat(8192);
    let mut src = map(&[
        ("connection", "close"),
        ("keep-alive", "timeout=5"),
        ("x-custom-trace", "abc-123"),
        ("upgrade", "h2c"),
        ("x-custom-tenant", "acme"),
        ("host", "example.com"),
        ("content-length", "12"),
    ]);
    src.append(
        "authorization",
        HeaderValue::from_str(&format!("Bearer {long_secret}")).unwrap(),
    );
    let out = forwardable_request_headers(&src);
    assert_eq!(
        pairs(&out),
        vec![
            ("x-custom-trace".to_string(), "abc-123".to_string()),
            ("x-custom-tenant".to_string(), "acme".to_string()),
            ("authorization".to_string(), format!("Bearer {long_secret}")),
        ]
    );
}

#[test]
fn request_filter_keeps_every_value_of_multi_valued_headers() {
    let src = map(&[
        ("accept", "application/json"),
        ("te", "trailers"),
        ("accept", "text/event-stream"),
        ("cookie", "a=1"),
        ("cookie", "b=2"),
    ]);
    let out = forwardable_request_headers(&src);
    assert_eq!(values(&out, "accept"), vec!["application/json", "text/event-stream"]);
    assert_eq!(values(&out, "cookie"), vec!["a=1", "b=2"]);
    assert!(out.get("te").is_none());
    assert_eq!(out.len(), 4);
}

#[test]
fn response_filter_keeps_both_set_cookies() {
    let src = map(&[
        ("set-cookie", "session=abc; Path=/"),
        ("connection", "close"),
        ("set-cookie", "csrf=xyz; Path=/; HttpOnly"),
        ("keep-alive", "timeout=5"),
        ("x-custom-audit", "logged"),
        ("transfer-encoding", "chunked"),
    ]);
    let out = forwardable_response_headers(&src);
    assert_eq!(values(&out, "set-cookie"), vec!["session=abc; Path=/", "csrf=xyz; Path=/; HttpOnly"]);
    assert_eq!(values(&out, "x-custom-audit"), vec!["logged"]);
    assert!(out.get("connection").is_none());
    assert!(out.get("keep-alive").is_none());
    assert!(out.get("transfer-encoding").is_none());
}

#[test]
fn filtering_an_empty_map() {
    let out = forwardable_request_headers(&header_map_new());
    assert!(out.is_empty());
}

#[test]
fn sse_detection() {
    let yes = [
        "text/event-stream",
        "text/event-stream; charset=utf-8",
        "Text/Event-Stream",
        "  text/event-stream  ;x=y",
    ];
    for v in yes {
        assert!(is_sse_response(&map(&[("content-type", v)])), "{v:?} is SSE");
    }
    let no = ["application/json", "text/event-streams", "text/plain; text/event-stream", ""];
    for v in no {
        assert!(!is_sse_response(&map(&[("content-type", v)])), "{v:?} is not SSE");
    }
    assert!(!is_sse_response(&HeaderMap::new()));
    let mut opaque = HeaderMap::new();
    opaque.append("content-type", HeaderValue::from_bytes(b"text/event-stream\xff").unwrap());
    assert!(!is_sse_response(&opaque));
    let first_wins = map(&[("content-type", "application/json"), ("content-type", "text/event-stream")]);
    assert!(!is_sse_response(&first_wins));
}

#[test]
fn sse_hygiene_sets_both_headers_and_keeps_others() {
    let mut h = map(&[
        ("content-type", "text/event-stream"),
        ("cache-control", "max-age=60"),
        ("cache-control", "public"),
        ("x-request-id", "r1"),
    ]);
    add_sse_hygiene_headers(&mut h);
    assert_eq!(values(&h, "x-accel-buffering"), vec!["no"]);
    assert_eq!(values(&h, "cache-control"), vec!["no-transform, no-cache"]);
    assert_eq!(values(&h, "content-type"), vec!["text/event-stream"]);
    assert_eq!(values(&h, "x-request-id"), vec!["r1"]);
    assert_eq!(
        pairs(&h),
        vec![
            ("content-type".to_string(), "text/event-stream".to_string()),
            ("cache-control".to_string(), "no-transform, no-cache".to_string()),
            ("x-request-id".to_string(), "r1".to_string()),
            ("x-accel-buffering".to_string(), "no".to_string()),
        ]
    );
}

#[test]
fn sse_hygiene_on_empty_headers() {
    let mut h = HeaderMap::new();
    add_sse_hygiene_headers(&mut h);
    assert_eq!(
        pairs(&h),
        vec![
            ("x-accel-buffering".to_string(), "no".to_string()),
            ("cache-control".to_string(), "no-transform, no-cache".to_string()),
        ]
    );
}

#[test]
fn scrubbed_names() {
    for n in ["authorization", "Proxy-Authorization", "X-API-KEY", "api-key", "Cookie", "set-cookie"] {
        let cs: Vec<char> = n.chars().collect();
        assert!(is_scrubbed(&cs), "{n} is scrubbed");
    }
    for n in ["x-api-keys", "content-type", "authorizations", ""] {
        let cs: Vec<char> = n.chars().collect();
        assert!(!is_scrubbed(&cs), "{n} is not scrubbed");
    }
}

#[test]
fn snapshot_redacts_and_joins() {
    let h = map(&[
        ("authorization", "Bearer sk-1"),
        ("x-api-key", "another-secret"),
        ("cookie", "session=xyz123"),
        ("cookie", "theme=dark"),
        ("via", "1.1 a"),
        ("via", "1.1 b"),
        ("user-agent", "test"),
    ]);
    let snap = captured_headers(&h);
    assert_eq!(
        snap,
        vec![
            ("authorization".to_string(), REDACTED.to_string()),
            ("x-api-key".to_string(), "[REDACTED]".to_string()),
            ("cookie".to_string(), "[REDACTED]".to_string()),
            ("via".to_string(), "1.1 a, 1.1 b".to_string()),
            ("user-agent".to_string(), "test".to_string()),
        ]
    );
    assert!(captured_headers(&HeaderMap::new()).is_empty());
}

#[test]
fn snapshot_text_is_lossy_utf8() {
    let mut h = HeaderMap::new();
    h.append("x-bin", HeaderValue::from_bytes(b"a\xe9b").unwrap());
    assert_eq!(captured_headers(&h), vec![("x-bin".to_string(), "a\u{FFFD}b".to_string())]);
}

#[test]
fn name_count_counts_distinct_names() {
    let h = map(&[("a", "1"), ("b", "2"), ("a", "3"), ("c", "4")]);
    assert_eq!(header_name_count(&h), 3);
    assert_eq!(header_name_count(&HeaderMap::new()), 0);
}

fn many_names(n: usize) -> HeaderMap {
    let mut h = HeaderMap::new();
    for i in 0..n {
        h.append(HeaderName::from_bytes(format!("x-h{i}").as_bytes()).unwrap(), HeaderValue::from_static("v"));
    }
    h
}

#[test]
fn checked_filters_refuse_maps_with_too_many_names() {
    let limit = APPEND_SAFE_NAMES as usize;
    let ok = many_names(limit - 2);
    let req = try_forwardable_request_headers(&ok).expect("room for the copy");
    assert_eq!(req.keys_len(), limit - 2);
    let resp = try_forwardable_response_headers(&ok).expect("room for the copy and hygiene");
    assert_eq!(resp.keys_len(), limit - 2);

    let edge = many_names(limit - 1);
    assert!(try_forwardable_request_headers(&edge).is_some());
    assert!(try_forwardable_response_headers(&edge).is_none());

    let over = many_names(limit);
    assert!(try_forwardable_request_headers(&over).is_none());
}

#[test]
fn checked_hygiene_applies_or_leaves_the_map() {
    let mut small = map(&[("content-type", "text/event-stream")]);
    assert!(try_add_sse_hygiene_headers(&mut small));
    assert_eq!(values(&small, "x-accel-buffering"), vec!["no"]);

    let limit = APPEND_SAFE_NAMES as usize;
    let mut full = many_names(limit - 1);
    let before = full.clone();
    assert!(!try_add_sse_hygiene_headers(&mut full));
    assert_eq!(full, before);
}
