//! Trace records and the writer pipeline's decisions.

use axum::http::{HeaderMap, HeaderValue};

use replayable_proxy::headers::{forwardable_request_headers, forwardable_response_headers};

use replayable_proxy::trace::{
    assemble_trace, build_failure_trace, build_trace, new_trace_id, now_rfc3339,
    provider_from_url, saturating_millis, submit_verdict, timestamp_or_epoch, FlushPolicy,
    SendOutcome, TokenUsage, WriterEvent, WriterStep, CAPTURE_LAYER, EPOCH_RFC3339,
    FLUSH_BATCH_SIZE, FRAMEWORK_TAG, SCHEMA_VERSION,
};

fn request_headers() -> HeaderMap {
    let mut h = HeaderMap::new();
    h.append("authorization", HeaderValue::from_static("Bearer sk-secret"));
    h.append("x-trace", HeaderValue::from_static("abc"));
    h.append("accept", HeaderValue::from_static("application/json"));
    h.append("accept", HeaderValue::from_static("text/event-stream"));
    h
}

fn response_headers() -> HeaderMap {
    let mut h = HeaderMap::new();
    h.append("content-type", HeaderValue::from_static("application/json"));
    h.append("set-cookie", HeaderValue::from_static("session=abc"));
    h.append("set-cookie", HeaderValue::from_static("csrf=xyz"));
    h
}

const REQUEST: &[u8] = br#"{"model":"gpt-test","messages":[{"role":"user","content":"hi"}]}"#;
const RESPONSE: &[u8] =
    br#"{"id":"x","usage":{"prompt_tokens":10,"completion_tokens":5,"total_tokens":15}}"#;

#[test]
fn trace_id_is_uuidv7() {
    let id = new_trace_id();
    let uuid = uuid::Uuid::parse_str(&id).unwrap();
    assert_eq!(uuid.get_version_num(), 7);
}

#[test]
fn trace_ids_are_fresh_lowercase_hyphenated() {
    let a = new_trace_id();
    let b = new_trace_id();
    assert_ne!(a, b);
    assert_eq!(a.len(), 36);
    assert_eq!(a.as_bytes()[14], b'7');
    assert!(a.chars().all(|c| c == '-' || c.is_ascii_digit() || ('a'..='f').contains(&c)));
}

#[test]
fn now_is_rfc3339_utc() {
    let t = now_rfc3339();
    let b = t.as_bytes();
    assert!(b.len() >= 20, "{t}");
    assert_eq!(b[4], b'-');
    assert_eq!(b[7], b'-');
    assert_eq!(b[10], b'T');
    assert_eq!(b[13], b':');
    assert_eq!(b[16], b':');
    assert!(t.ends_with('Z'), "{t}");
    assert!(b[..4].iter().all(u8::is_ascii_digit), "{t}");
}

#[test]
fn timestamp_falls_back_to_epoch() {
    assert_eq!(timestamp_or_epoch(None), EPOCH_RFC3339);
    assert_eq!(timestamp_or_epoch(None), "1970-01-01T00:00:00Z");
    assert_eq!(
        timestamp_or_epoch(Some("2024-05-01T12:00:00Z".to_string())),
        "2024-05-01T12:00:00Z"
    );
}

#[test]
fn provider_is_the_host_part() {
    assert_eq!(provider_from_url("https://api.openai.com"), "api.openai.com");
    assert_eq!(provider_from_url("https://api.openai.com/v1/x"), "api.openai.com");
    assert_eq!(provider_from_url("http://127.0.0.1:11434"), "127.0.0.1:11434");
    assert_eq!(provider_from_url("https://https://x.io/y"), "x.io");
    assert_eq!(provider_from_url("https://http://x.io"), "x.io");
    assert_eq!(provider_from_url("api.example.com/v1"), "api.example.com");
    assert_eq!(provider_from_url(""), "");
    assert_eq!(provider_from_url("/path"), "");
}

#[test]
fn millis_saturate_at_u64_max() {
    assert_eq!(saturating_millis(0), 0);
    assert_eq!(saturating_millis(1234), 1234);
    assert_eq!(saturating_millis(u64::MAX as u128), u64::MAX);
    assert_eq!(saturating_millis(u64::MAX as u128 + 1), u64::MAX);
    assert_eq!(saturating_millis(u128::MAX), u64::MAX);
}

#[test]
fn capture_off_trace_holds_metadata_only() {
    let req = request_headers();
    let resp = response_headers();
    let t = assemble_trace(
        "id-1".to_string(),
        "2024-01-01T00:00:00Z",
        "2024-01-01T00:00:01Z".to_string(),
        "https://api.openai.com",
        REQUEST,
        RESPONSE,
        200,
        false,
        42,
        false,
        &req,
        Some(&resp),
    );
    assert_eq!(t.trace_id, "id-1");
    assert_eq!(t.timestamp_start, "2024-01-01T00:00:00Z");
    assert_eq!(t.timestamp_end, "2024-01-01T00:00:01Z");
    assert_eq!(t.framework, FRAMEWORK_TAG);
    assert_eq!(t.framework, "openai-compat-proxy");
    assert_eq!(t.schema_version, SCHEMA_VERSION);
    assert_eq!(t.capture_layer, CAPTURE_LAYER);
    assert_eq!(t.capture_layer, "l4");
    assert_eq!(t.model_calls.len(), 1);
    let c = &t.model_calls[0];
    assert_eq!(c.provider, "api.openai.com");
    assert_eq!(c.model.as_deref(), Some("gpt-test"));
    assert_eq!(c.input, "");
    assert_eq!(c.output, "");
    assert!(c.request_headers.is_empty());
    assert!(c.response_headers.is_empty());
    assert_eq!(c.status, 200);
    assert!(!c.streamed);
    assert_eq!(c.latency_ms, 42);
    assert_eq!(
        c.tokens,
        Some(TokenUsage { input_tokens: Some(10), output_tokens: Some(5), total_tokens: Some(15) })
    );
}

#[test]
fn capture_on_trace_holds_bodies_and_scrubbed_headers() {
    let req = request_headers();
    let resp = response_headers();
    let t = assemble_trace(
        "id-2".to_string(),
        "s",
        "e".to_string(),
        "https://api.openai.com/",
        REQUEST,
        RESPONSE,
        201,
        false,
        7,
        true,
        &req,
        Some(&resp),
    );
    let c = &t.model_calls[0];
    assert_eq!(c.input.as_bytes(), REQUEST);
    assert_eq!(c.output.as_bytes(), RESPONSE);
    assert_eq!(
        c.request_headers,
        vec![
            ("authorization".to_string(), "[REDACTED]".to_string()),
            ("x-trace".to_string(), "abc".to_string()),
            ("accept".to_string(), "application/json, text/event-stream".to_string()),
        ]
    );
    assert_eq!(
        c.response_headers,
        vec![
            ("content-type".to_string(), "application/json".to_string()),
            ("set-cookie".to_string(), "[REDACTED]".to_string()),
        ]
    );
    let raw = format!("{t:?}");
    assert!(!raw.contains("sk-secret"));
    assert!(!raw.contains("session=abc"));
}

#[test]
fn streamed_trace_has_no_token_usage() {
    let req = HeaderMap::new();
    let t = assemble_trace(
        "id-3".to_string(),
        "s",
        "e".to_string(),
        "https://api.openai.com",
        REQUEST,
        RESPONSE,
        200,
        true,
        1,
        true,
        &req,
        None,
    );
    let c = &t.model_calls[0];
    assert!(c.streamed);
    assert_eq!(c.tokens, None);
    assert!(c.response_headers.is_empty());
}

#[test]
fn lossy_text_replaces_invalid_utf8() {
    let req = HeaderMap::new();
    let t = assemble_trace(
        "id-4".to_string(),
        "s",
        "e".to_string(),
        "u",
        b"ok\xffend",
        b"",
        200,
        false,
        0,
        true,
        &req,
        None,
    );
    assert_eq!(t.model_calls[0].input, "ok\u{FFFD}end");
    assert_eq!(t.model_calls[0].model, None);
    assert_eq!(t.model_calls[0].tokens, None);
}

#[test]
fn failure_trace_records_status_zero() {
    let started = std::time::Instant::now();
    let req = request_headers();
    let t = build_failure_trace("https://api.openai.com", REQUEST, &started, "2024-01-01T00:00:00Z", false, &req);
    let c = &t.model_calls[0];
    assert_eq!(c.status, 0);
    assert_eq!(c.output, "");
    assert!(!c.streamed);
    assert_eq!(c.tokens, None);
    assert!(c.response_headers.is_empty());
    assert_eq!(c.model.as_deref(), Some("gpt-test"));
    assert_eq!(uuid::Uuid::parse_str(&t.trace_id).unwrap().get_version_num(), 7);
    assert!(t.timestamp_end.ends_with('Z'));
    assert_eq!(t.timestamp_start, "2024-01-01T00:00:00Z");
}

#[test]
fn built_trace_measures_latency() {
    let started = std::time::Instant::now() - std::time::Duration::from_millis(30);
    let req = HeaderMap::new();
    let t = build_trace("https://x.io", b"{}", RESPONSE, 200, false, &started, "s", false, &req, None);
    assert!(t.model_calls[0].latency_ms >= 30);
    assert_eq!(t.model_calls[0].tokens.unwrap().total_tokens, Some(15));
}

#[test]
fn flush_policy_batches_of_thirty_two() {
    let mut p = FlushPolicy::new();
    assert_eq!(p.pending_records(), 0);
    for i in 1..FLUSH_BATCH_SIZE {
        let s = p.on_event(WriterEvent::Written);
        assert_eq!(s, WriterStep { flush: false, reset_deadline: false, stop: false });
        assert_eq!(p.pending_records(), i);
    }
    let s = p.on_event(WriterEvent::Written);
    assert_eq!(s, WriterStep { flush: true, reset_deadline: true, stop: false });
    assert_eq!(p.pending_records(), 0);
    assert_eq!(FLUSH_BATCH_SIZE, 32);
}

#[test]
fn flush_policy_ticks_and_failures() {
    let mut p = FlushPolicy::new();
    assert_eq!(
        p.on_event(WriterEvent::Tick),
        WriterStep { flush: false, reset_deadline: true, stop: false }
    );
    p.on_event(WriterEvent::Written);
    assert_eq!(
        p.on_event(WriterEvent::WriteFailed),
        WriterStep { flush: false, reset_deadline: false, stop: false }
    );
    assert_eq!(p.pending_records(), 1);
    assert_eq!(
        p.on_event(WriterEvent::Tick),
        WriterStep { flush: true, reset_deadline: true, stop: false }
    );
    assert_eq!(p.pending_records(), 0);
}

#[test]
fn flush_policy_close_flushes_and_stops() {
    let mut p = FlushPolicy::new();
    for _ in 0..5 {
        p.on_event(WriterEvent::Written);
    }
    assert_eq!(
        p.on_event(WriterEvent::Closed),
        WriterStep { flush: true, reset_deadline: false, stop: true }
    );
    assert_eq!(p.pending_records(), 0);
    let mut q = FlushPolicy::new();
    assert_eq!(
        q.on_event(WriterEvent::Closed),
        WriterStep { flush: true, reset_deadline: false, stop: true }
    );
}

#[test]
fn pending_never_reaches_a_batch() {
    let mut p = FlushPolicy::new();
    let events = [WriterEvent::Written, WriterEvent::WriteFailed, WriterEvent::Written];
    for i in 0..1000 {
        p.on_event(events[i % 3]);
        assert!(p.pending_records() < FLUSH_BATCH_SIZE);
    }
}

#[test]
fn submit_verdicts() {
    let sent = submit_verdict(SendOutcome::Sent);
    assert!(sent.accepted && !sent.count_as_dropped);
    let full = submit_verdict(SendOutcome::Full);
    assert!(!full.accepted && full.count_as_dropped);
    let closed = submit_verdict(SendOutcome::Closed);
    assert!(!closed.accepted && !closed.count_as_dropped);
}

#[test]
fn dropped_counter_counts_full_refusals() {
    let outcomes = [
        SendOutcome::Sent,
        SendOutcome::Full,
        SendOutcome::Full,
        SendOutcome::Sent,
        SendOutcome::Full,
    ];
    let mut dropped = 0u64;
    let mut refused = 0u64;
    for o in outcomes {
        let v = submit_verdict(o);
        if v.count_as_dropped {
            dropped += 1;
        }
        if !v.accepted {
            refused += 1;
        }
    }
    assert_eq!(dropped, 3);
    assert_eq!(dropped, refused);
}

#[test]
fn capture_on_scrubs_forwarded_headers_end_to_end() {
    let mut client = HeaderMap::new();
    client.append("Authorization", HeaderValue::from_static("Bearer sk-live-SECRET"));
    client.append("X-Api-Key", HeaderValue::from_static("another-secret"));
    client.append("Cookie", HeaderValue::from_static("session=xyz123"));
    client.append("Proxy-Authorization", HeaderValue::from_static("Basic OPAQUE"));
    client.append("Content-Type", HeaderValue::from_static("application/json"));
    let mut upstream = HeaderMap::new();
    upstream.append("Set-Cookie", HeaderValue::from_static("session=abcdef; HttpOnly"));
    upstream.append("Connection", HeaderValue::from_static("close"));
    let fwd_req = forwardable_request_headers(&client);
    let fwd_resp = forwardable_response_headers(&upstream);
    let t = assemble_trace(
        "id".to_string(),
        "s",
        "e".to_string(),
        "https://api.openai.com",
        br#"{"model":"gpt-scrub"}"#,
        b"{}",
        200,
        false,
        3,
        true,
        &fwd_req,
        Some(&fwd_resp),
    );
    let c = &t.model_calls[0];
    let get = |v: &Vec<(String, String)>, k: &str| {
        v.iter().find(|(n, _)| n == k).map(|(_, val)| val.clone())
    };
    for h in ["authorization", "x-api-key", "cookie"] {
        assert_eq!(get(&c.request_headers, h).as_deref(), Some("[REDACTED]"), "{h}");
    }
    assert_eq!(get(&c.request_headers, "proxy-authorization"), None);
    assert_eq!(get(&c.request_headers, "content-type").as_deref(), Some("application/json"));
    assert_eq!(get(&c.response_headers, "set-cookie").as_deref(), Some("[REDACTED]"));
    assert_eq!(get(&c.response_headers, "connection"), None);
    let raw = format!("{t:?}");
    for secret in ["sk-live-SECRET", "another-secret", "session=xyz123", "session=abcdef", "OPAQUE"] {
        assert!(!raw.contains(secret), "{secret} leaked");
    }
}
