//! The canonical `AgentTrace` record the proxy emits for every forwarded
//! request, and the decisions of the pipeline that persists it: what a
//! record holds, when the JSONL writer flushes, and how a full queue is
//! counted.

use vstd::prelude::*;

use axum::http::HeaderMap;

use crate::headers::{captured_headers, header_fields, header_snapshot, snapshot_view};
use crate::json::{extract_model, extract_token_usage, model_of, usage_of};
use crate::text::{chars_of, has_prefix, string_from_chars, utf8_lossy, utf8_lossy_string};

verus! {

/// String constant identifying the proxy as the trace producer.
pub const FRAMEWORK_TAG: &'static str = "openai-compat-proxy";

/// Schema version emitted on every trace record.
pub const SCHEMA_VERSION: &'static str = "0.1.0";

/// The capture layer the proxy reports.
pub const CAPTURE_LAYER: &'static str = "l4";

/// Timestamp used when the current time cannot be rendered.
pub const EPOCH_RFC3339: &'static str = "1970-01-01T00:00:00Z";

/// Token-usage triple parsed from a non-streaming OpenAI-shaped response.
#[derive(Clone, Copy, Debug, PartialEq, Eq, Structural)]
pub struct TokenUsage {
    /// Prompt / input token count.
    pub input_tokens: Option<u64>,
    /// Completion / output token count.
    pub output_tokens: Option<u64>,
    /// Total token count, when the upstream reports it.
    pub total_tokens: Option<u64>,
}

/// One LLM API call inside an [`AgentTrace`].
#[derive(Debug, Clone)]
pub struct ModelCall {
    /// Provider host extracted from the upstream URL.
    pub provider: String,
    /// Model name extracted from the request body, when present.
    pub model: Option<String>,
    /// Request body (lossy UTF-8); empty unless content capture is on.
    pub input: String,
    /// Response body or aggregated stream (lossy UTF-8); empty unless
    /// content capture is on.
    pub output: String,
    /// HTTP status of the upstream response; 0 when there was none.
    pub status: u16,
    /// Token usage reported by the upstream, when present.
    pub tokens: Option<TokenUsage>,
    /// Whether the upstream response was an SSE stream.
    pub streamed: bool,
    /// Latency from request receipt to the last response byte.
    pub latency_ms: u64,
    /// Forwarded request headers, scrubbed; empty unless content capture is
    /// on.
    pub request_headers: Vec<(String, String)>,
    /// Forwarded response headers, scrubbed; empty unless content capture
    /// is on.
    pub response_headers: Vec<(String, String)>,
}

/// A single canonical `AgentTrace` record.
#[derive(Debug, Clone)]
pub struct AgentTrace {
    /// UUIDv7 identifying the trace.
    pub trace_id: String,
    /// RFC 3339 time the proxy received the client request.
    pub timestamp_start: String,
    /// RFC 3339 time the proxy finished the upstream response.
    pub timestamp_end: String,
    /// Always [`FRAMEWORK_TAG`].
    pub framework: String,
    /// Always [`SCHEMA_VERSION`].
    pub schema_version: String,
    /// Always [`CAPTURE_LAYER`].
    pub capture_layer: String,
    /// One entry per LLM API call captured in this trace.
    pub model_calls: Vec<ModelCall>,
}

// ---------------------------------------------------------------------
// Trace ids and timestamps
// ---------------------------------------------------------------------

/// A lower-case hexadecimal digit.
pub open spec fn is_lower_hex(c: char) -> bool {
    ('0' <= c && c <= '9') || ('a' <= c && c <= 'f')
}

/// The hyphenated text of a version-7, RFC 4122-variant UUID.
pub open spec fn is_uuid_v7_text(s: Seq<char>) -> bool {
    &&& s.len() == 36
    &&& s[8] == '-' && s[13] == '-' && s[18] == '-' && s[23] == '-'
    &&& forall|i: int|
        0 <= i < 36 && i != 8 && i != 13 && i != 18 && i != 23 ==> is_lower_hex(#[trigger] s[i])
    &&& s[14] == '7'
    &&& (s[19] == '8' || s[19] == '9' || s[19] == 'a' || s[19] == 'b')
}

/// Calls `uuid::Uuid::now_v7` and renders it with `to_string`. The value
/// depends on the clock and a random source, so only its shape is claimed:
/// the hyphenated lower-case form, version 7, RFC 4122 variant (as
/// `encode_unix_timestamp_millis` and the `LowerHex` formatter produce).
#[verifier::external_body]
fn current_uuid_v7_text() -> (s: String)
    ensures
        is_uuid_v7_text(s@),
{
    uuid::Uuid::now_v7().to_string()
}

/// Generate a fresh UUIDv7 string for use as a trace id.
pub fn new_trace_id() -> (s: String)
    ensures
        is_uuid_v7_text(s@),
{
    current_uuid_v7_text()
}

/// An ASCII digit.
pub open spec fn is_digit(c: char) -> bool {
    '0' <= c && c <= '9'
}

/// The shape of an RFC 3339 UTC timestamp: `YYYY-MM-DDTHH:MM:SS`, an
/// optional fraction, and `Z`.
pub open spec fn is_rfc3339_utc_text(s: Seq<char>) -> bool {
    &&& s.len() >= 20
    &&& is_digit(s[0]) && is_digit(s[1]) && is_digit(s[2]) && is_digit(s[3])
    &&& s[4] == '-' && is_digit(s[5]) && is_digit(s[6])
    &&& s[7] == '-' && is_digit(s[8]) && is_digit(s[9])
    &&& s[10] == 'T' && is_digit(s[11]) && is_digit(s[12])
    &&& s[13] == ':' && is_digit(s[14]) && is_digit(s[15])
    &&& s[16] == ':' && is_digit(s[17]) && is_digit(s[18])
    &&& s.last() == 'Z'
}

/// Calls `time::OffsetDateTime::now_utc` and formats it with the
/// well-known `Rfc3339` description, the error dropped. The value depends
/// on the clock, so only the shape of a successful rendering is claimed
/// (four-digit year, two-digit fields, `Z` for the UTC offset, as
/// `Rfc3339::format_into` writes them).
#[verifier::external_body]
fn format_now_utc_rfc3339() -> (r: Option<String>)
    ensures
        r matches Some(s) ==> is_rfc3339_utc_text(s@),
{
    time::OffsetDateTime::now_utc().format(&time::format_description::well_known::Rfc3339).ok()
}

/// The rendered time, or the epoch when rendering failed.
pub fn timestamp_or_epoch(formatted: Option<String>) -> (s: String)
    ensures
        s@ == match formatted {
            Some(t) => t@,
            None => EPOCH_RFC3339@,
        },
{
    match formatted {
        Some(t) => t,
        None => String::from_str(EPOCH_RFC3339),
    }
}

/// RFC 3339 text for the current wall-clock time (UTC).
pub fn now_rfc3339() -> (s: String)
    ensures
        is_rfc3339_utc_text(s@),
{
    proof {
        reveal_strlit("1970-01-01T00:00:00Z");
    }
    timestamp_or_epoch(format_now_utc_rfc3339())
}

// ---------------------------------------------------------------------
// Provider and latency
// ---------------------------------------------------------------------

/// `s` with every leading copy of `p` removed (`str::trim_start_matches`).
pub open spec fn strip_prefix_all(s: Seq<char>, p: Seq<char>) -> Seq<char>
    decreases s.len(),
{
    if p.len() > 0 && has_prefix(s, p) {
        strip_prefix_all(s.skip(p.len() as int), p)
    } else {
        s
    }
}

/// The text before the first `/` (`split('/').next()`).
pub open spec fn before_slash(s: Seq<char>) -> Seq<char>
    decreases s.len(),
{
    if s.len() == 0 {
        s
    } else if s[0] == '/' {
        Seq::<char>::empty()
    } else {
        seq![s[0]] + before_slash(s.drop_first())
    }
}

/// The provider recorded for an upstream URL: its scheme prefixes
/// stripped, up to the first `/`.
pub open spec fn provider_of(url: Seq<char>) -> Seq<char> {
    before_slash(strip_prefix_all(strip_prefix_all(url, "https://"@), "http://"@))
}

/// `n` copies of `p`.
pub open spec fn repeat(p: Seq<char>, n: nat) -> Seq<char>
    decreases n,
{
    if n == 0 {
        Seq::<char>::empty()
    } else {
        p + repeat(p, (n - 1) as nat)
    }
}

/// Stripping removes whole copies of `p` from the front, and no copy is
/// left at the front afterwards.
proof fn lemma_strip_count(s: Seq<char>, p: Seq<char>) -> (n: nat)
    requires
        p.len() > 0,
    ensures
        s == repeat(p, n) + strip_prefix_all(s, p),
        !has_prefix(strip_prefix_all(s, p), p),
    decreases s.len(),
{
    if has_prefix(s, p) {
        let rest = s.skip(p.len() as int);
        let k = lemma_strip_count(rest, p);
        assert(s =~= p + rest);
        assert(p + (repeat(p, k) + strip_prefix_all(rest, p)) =~= repeat(p, k + 1)
            + strip_prefix_all(rest, p));
        k + 1
    } else {
        assert(s =~= repeat(p, 0) + s);
        0
    }
}

/// The text before the first `/` is a prefix without `/`, followed by the
/// end of the text or a `/`.
proof fn lemma_before_slash(s: Seq<char>)
    ensures
        before_slash(s).len() <= s.len(),
        s.take(before_slash(s).len() as int) == before_slash(s),
        forall|i: int| 0 <= i < before_slash(s).len() ==> #[trigger] before_slash(s)[i] != '/',
        before_slash(s).len() == s.len() || s[before_slash(s).len() as int] == '/',
    decreases s.len(),
{
    if s.len() > 0 && s[0] != '/' {
        let t = s.drop_first();
        lemma_before_slash(t);
        let r = before_slash(s);
        assert(r == seq![s[0]] + before_slash(t));
        assert(s.take(r.len() as int) =~= seq![s[0]] + t.take(before_slash(t).len() as int));
        assert forall|i: int| 0 <= i < r.len() implies #[trigger] r[i] != '/' by {
            if i > 0 {
                assert(r[i] == before_slash(t)[i - 1]);
            }
        }
        if r.len() < s.len() {
            assert(s[r.len() as int] == t[before_slash(t).len() as int]);
        }
    }
}

/// `url` splits as `a` copies of `https://`, `b` copies of `http://`, the
/// provider, and a rest.
pub open spec fn provider_split(url: Seq<char>, a: nat, b: nat, rest: Seq<char>) -> bool {
    url == repeat("https://"@, a) + repeat("http://"@, b) + provider_of(url) + rest
}

/// The provider recorded for an upstream URL is its host part: it holds no
/// `/`, and the URL is some copies of `https://`, then some copies of
/// `http://`, then the provider, then either nothing or a `/`-path (the
/// scheme prefixes are stripped greedily, so no `http://` is left in front
/// of the provider).
pub proof fn lemma_provider_shape(url: Seq<char>)
    ensures
        forall|i: int| 0 <= i < provider_of(url).len() ==> #[trigger] provider_of(url)[i] != '/',
        exists|a: nat, b: nat, rest: Seq<char>|
            #[trigger] provider_split(url, a, b, rest) && (rest.len() == 0 || rest[0] == '/'),
        !has_prefix(strip_prefix_all(strip_prefix_all(url, "https://"@), "http://"@), "http://"@),
{
    reveal_strlit("https://");
    reveal_strlit("http://");
    let t1 = strip_prefix_all(url, "https://"@);
    let t = strip_prefix_all(t1, "http://"@);
    let a = lemma_strip_count(url, "https://"@);
    let b = lemma_strip_count(t1, "http://"@);
    lemma_before_slash(t);
    let r = provider_of(url);
    let rest = t.skip(r.len() as int);
    assert(t =~= r + rest);
    assert(url =~= repeat("https://"@, a) + repeat("http://"@, b) + r + rest);
    assert(provider_split(url, a, b, rest));
}

fn strip_prefix_all_chars(s: &[char], p: &[char]) -> (r: Vec<char>)
    requires
        p.len() > 0,
    ensures
        r@ == strip_prefix_all(s@, p@),
{
    let mut start: usize = 0;
    let n = s.len();
    assert(s@.skip(0) == s@);
    while p.len() <= n - start && starts_with_at(s, start, p)
        invariant
            n == s.len(),
            start <= n,
            p.len() > 0,
            strip_prefix_all(s@, p@) == strip_prefix_all(s@.skip(start as int), p@),
        decreases n - start,
    {
        assert(has_prefix(s@.skip(start as int), p@));
        assert(s@.skip(start as int).skip(p.len() as int) == s@.skip(start + p.len()));
        start = start + p.len();
    }
    proof {
        if start + p.len() <= n {
            assert(!has_prefix(s@.skip(start as int), p@));
        } else {
            assert(!has_prefix(s@.skip(start as int), p@));
        }
    }
    let mut r: Vec<char> = Vec::new();
    let mut i = start;
    while i < n
        invariant
            start <= i <= n,
            n == s.len(),
            r@ == s@.subrange(start as int, i as int),
        decreases n - i,
    {
        r.push(s[i]);
        assert(s@.subrange(start as int, i + 1) == s@.subrange(start as int, i as int).push(
            s@[i as int],
        ));
        i = i + 1;
    }
    assert(s@.skip(start as int) == s@.subrange(start as int, n as int));
    r
}

/// `s[at..]` starts with `p`.
fn starts_with_at(s: &[char], at: usize, p: &[char]) -> (r: bool)
    requires
        at + p.len() <= s.len(),
    ensures
        r == has_prefix(s@.skip(at as int), p@),
{
    let mut i: usize = 0;
    while i < p.len()
        invariant
            at + p.len() <= s.len(),
            i <= p.len(),
            forall|j: int| 0 <= j < i ==> s@[at + j] == p@[j],
        decreases p.len() - i,
    {
        if s[at + i] != p[i] {
            assert(s@.skip(at as int).take(p.len() as int)[i as int] != p@[i as int]);
            return false;
        }
        i = i + 1;
    }
    assert(s@.skip(at as int).take(p.len() as int) =~= p@);
    true
}

fn before_slash_chars(s: &[char]) -> (r: Vec<char>)
    ensures
        r@ == before_slash(s@),
{
    let mut r: Vec<char> = Vec::new();
    let mut k: usize = 0;
    assert(s@.skip(0) == s@);
    while k < s.len() && s[k] != '/'
        invariant
            k <= s.len(),
            r@ == s@.take(k as int),
            before_slash(s@) == r@ + before_slash(s@.skip(k as int)),
        decreases s.len() - k,
    {
        let c = s[k];
        assert(s@.skip(k as int).drop_first() == s@.skip(k + 1));
        assert(s@.skip(k as int)[0] == c);
        assert(seq![c] + before_slash(s@.skip(k + 1)) == before_slash(s@.skip(k as int)));
        r.push(c);
        assert(s@.take(k + 1) == s@.take(k as int).push(c));
        k = k + 1;
    }
    proof {
        if k < s.len() {
            assert(s@.skip(k as int)[0] == '/');
        }
        assert(before_slash(s@.skip(k as int)) == Seq::<char>::empty());
    }
    r
}

/// Best-effort host extraction for the trace `provider` field.
pub fn provider_from_url(url: &str) -> (r: String)
    ensures
        r@ == provider_of(url@),
{
    proof {
        reveal_strlit("https://");
        reveal_strlit("http://");
    }
    let s = chars_of(url);
    let https = chars_of("https://");
    let http = chars_of("http://");
    let a = strip_prefix_all_chars(s.as_slice(), https.as_slice());
    let b = strip_prefix_all_chars(a.as_slice(), http.as_slice());
    let c = before_slash_chars(b.as_slice());
    string_from_chars(c.as_slice())
}

/// A millisecond count clamped to `u64` (`u64::try_from(..).unwrap_or(MAX)`).
pub fn saturating_millis(ms: u128) -> (r: u64)
    ensures
        r == if ms <= u64::MAX as u128 {
            ms as u64
        } else {
            u64::MAX
        },
{
    if ms <= u64::MAX as u128 {
        ms as u64
    } else {
        u64::MAX
    }
}

#[verifier::external_type_specification]
#[verifier::external_body]
pub struct ExInstant(std::time::Instant);

/// Calls `Instant::elapsed` and its `as_millis`. The value depends on the
/// clock; nothing is claimed of it.
#[verifier::external_body]
fn elapsed_millis(started: &std::time::Instant) -> (ms: u128) {
    started.elapsed().as_millis()
}

// ---------------------------------------------------------------------
// Assembling a record
// ---------------------------------------------------------------------

/// The trace text of a body: the lossy UTF-8 text when content is
/// captured, empty otherwise.
pub open spec fn captured_body(capture: bool, body: Seq<u8>) -> Seq<char> {
    if capture {
        utf8_lossy(body)
    } else {
        Seq::<char>::empty()
    }
}

/// The header snapshot of a trace: the scrubbed snapshot of the map when
/// content is captured and there is a map, empty otherwise.
pub open spec fn captured_snapshot(capture: bool, m: Option<HeaderMap>) -> Seq<(Seq<char>, Seq<char>)> {
    match m {
        Some(h) => if capture {
            header_snapshot(header_fields(h))
        } else {
            Seq::empty()
        },
        None => Seq::empty(),
    }
}

/// What a request's trace record says, given its id and timestamps.
pub open spec fn is_trace_of(
    t: AgentTrace,
    trace_id: Seq<char>,
    started_at: Seq<char>,
    ended_at: Seq<char>,
    upstream_url: Seq<char>,
    request_body: Seq<u8>,
    response_body: Seq<u8>,
    status: u16,
    streamed: bool,
    latency_ms: u64,
    capture: bool,
    request_headers: HeaderMap,
    response_headers: Option<HeaderMap>,
) -> bool {
    &&& t.trace_id@ == trace_id
    &&& t.timestamp_start@ == started_at
    &&& t.timestamp_end@ == ended_at
    &&& t.framework@ == FRAMEWORK_TAG@
    &&& t.schema_version@ == SCHEMA_VERSION@
    &&& t.capture_layer@ == CAPTURE_LAYER@
    &&& t.model_calls@.len() == 1
    &&& {
        let c = t.model_calls@[0];
        &&& c.provider@ == provider_of(upstream_url)
        &&& match model_of(request_body) {
            Some(m) => c.model matches Some(x) && x@ == m,
            None => c.model is None,
        }
        &&& c.input@ == captured_body(capture, request_body)
        &&& c.output@ == captured_body(capture, response_body)
        &&& c.status == status
        &&& c.tokens == if streamed {
            None
        } else {
            usage_of(response_body)
        }
        &&& c.streamed == streamed
        &&& c.latency_ms == latency_ms
        &&& snapshot_view(c.request_headers@) == captured_snapshot(capture, Some(request_headers))
        &&& snapshot_view(c.response_headers@) == captured_snapshot(capture, response_headers)
    }
}

/// The trace text of a body.
fn body_text(capture: bool, body: &[u8]) -> (s: String)
    ensures
        s@ == captured_body(capture, body@),
        body@.len() == 0 ==> s@ == Seq::<char>::empty(),
{
    if capture {
        utf8_lossy_string(body)
    } else {
        String::new()
    }
}

/// The header snapshot of a trace.
fn snapshot_of(capture: bool, m: Option<&HeaderMap>) -> (v: Vec<(String, String)>)
    ensures
        snapshot_view(v@) == captured_snapshot(
            capture,
            match m {
                Some(h) => Some(*h),
                None => None,
            },
        ),
{
    match m {
        Some(h) => if capture {
            captured_headers(h)
        } else {
            Vec::new()
        },
        None => Vec::new(),
    }
}

/// Assemble the record of one forwarded request from its parts.
pub fn assemble_trace(
    trace_id: String,
    started_at: &str,
    ended_at: String,
    upstream_url: &str,
    request_body: &[u8],
    response_body: &[u8],
    status: u16,
    streamed: bool,
    latency_ms: u64,
    capture: bool,
    request_headers: &HeaderMap,
    response_headers: Option<&HeaderMap>,
) -> (t: AgentTrace)
    ensures
        is_trace_of(
            t,
            trace_id@,
            started_at@,
            ended_at@,
            upstream_url@,
            request_body@,
            response_body@,
            status,
            streamed,
            latency_ms,
            capture,
            *request_headers,
            match response_headers {
                Some(h) => Some(*h),
                None => None,
            },
        ),
        response_body@.len() == 0 ==> t.model_calls@[0].tokens is None,
        response_body@.len() == 0 ==> t.model_calls@[0].output@ == Seq::<char>::empty(),
{
    let tokens = if streamed {
        None
    } else {
        extract_token_usage(response_body)
    };
    let call = ModelCall {
        provider: provider_from_url(upstream_url),
        model: extract_model(request_body),
        input: body_text(capture, request_body),
        output: body_text(capture, response_body),
        status,
        tokens,
        streamed,
        latency_ms,
        request_headers: snapshot_of(capture, Some(request_headers)),
        response_headers: snapshot_of(capture, response_headers),
    };
    let mut calls: Vec<ModelCall> = Vec::new();
    calls.push(call);
    AgentTrace {
        trace_id,
        timestamp_start: String::from_str(started_at),
        timestamp_end: ended_at,
        framework: String::from_str(FRAMEWORK_TAG),
        schema_version: String::from_str(SCHEMA_VERSION),
        capture_layer: String::from_str(CAPTURE_LAYER),
        model_calls: calls,
    }
}

/// Build the record of one forwarded request: a fresh UUIDv7 id, the end
/// time now, the latency since `started` (clamped to `u64`), and everything
/// else from the request and response.
pub fn build_trace(
    upstream_url: &str,
    request_body: &[u8],
    response_body: &[u8],
    status: u16,
    streamed: bool,
    started: &std::time::Instant,
    started_at: &str,
    capture: bool,
    request_headers: &HeaderMap,
    response_headers: Option<&HeaderMap>,
) -> (t: AgentTrace)
    ensures
        is_uuid_v7_text(t.trace_id@),
        is_rfc3339_utc_text(t.timestamp_end@),
        is_trace_of(
            t,
            t.trace_id@,
            started_at@,
            t.timestamp_end@,
            upstream_url@,
            request_body@,
            response_body@,
            status,
            streamed,
            t.model_calls@[0].latency_ms,
            capture,
            *request_headers,
            match response_headers {
                Some(h) => Some(*h),
                None => None,
            },
        ),
        response_body@.len() == 0 ==> t.model_calls@[0].tokens is None,
        response_body@.len() == 0 ==> t.model_calls@[0].output@ == Seq::<char>::empty(),
{
    let latency_ms = saturating_millis(elapsed_millis(started));
    assemble_trace(
        new_trace_id(),
        started_at,
        now_rfc3339(),
        upstream_url,
        request_body,
        response_body,
        status,
        streamed,
        latency_ms,
        capture,
        request_headers,
        response_headers,
    )
}

/// Build the record of a request whose upstream call failed: status 0 (no
/// upstream response), no response body or headers, not streamed.
pub fn build_failure_trace(
    upstream_url: &str,
    request_body: &[u8],
    started: &std::time::Instant,
    started_at: &str,
    capture: bool,
    request_headers: &HeaderMap,
) -> (t: AgentTrace)
    ensures
        is_uuid_v7_text(t.trace_id@),
        is_rfc3339_utc_text(t.timestamp_end@),
        is_trace_of(
            t,
            t.trace_id@,
            started_at@,
            t.timestamp_end@,
            upstream_url@,
            request_body@,
            Seq::<u8>::empty(),
            0,
            false,
            t.model_calls@[0].latency_ms,
            capture,
            *request_headers,
            None,
        ),
        t.model_calls@[0].tokens is None,
        t.model_calls@[0].output@ == Seq::<char>::empty(),
{
    let empty: Vec<u8> = Vec::new();
    build_trace(
        upstream_url,
        request_body,
        empty.as_slice(),
        0,
        false,
        started,
        started_at,
        capture,
        request_headers,
        None,
    )
}

/// With content capture off (the default), a record carries metadata only:
/// no request or response body and no headers, whatever the request held.
pub proof fn lemma_capture_off_records_no_content(
    t: AgentTrace,
    trace_id: Seq<char>,
    started_at: Seq<char>,
    ended_at: Seq<char>,
    upstream_url: Seq<char>,
    request_body: Seq<u8>,
    response_body: Seq<u8>,
    status: u16,
    streamed: bool,
    latency_ms: u64,
    request_headers: HeaderMap,
    response_headers: Option<HeaderMap>,
)
    requires
        is_trace_of(
            t,
            trace_id,
            started_at,
            ended_at,
            upstream_url,
            request_body,
            response_body,
            status,
            streamed,
            latency_ms,
            false,
            request_headers,
            response_headers,
        ),
    ensures
        t.model_calls@[0].input@.len() == 0,
        t.model_calls@[0].output@.len() == 0,
        t.model_calls@[0].request_headers@.len() == 0,
        t.model_calls@[0].response_headers@.len() == 0,
{
    let c = t.model_calls@[0];
    assert(snapshot_view(c.request_headers@).len() == c.request_headers@.len());
    assert(snapshot_view(c.response_headers@).len() == c.response_headers@.len());
}

/// With content capture on, a record carries the bodies as lossy UTF-8
/// text and the scrubbed header snapshots.
pub proof fn lemma_capture_on_records_content(
    t: AgentTrace,
    trace_id: Seq<char>,
    started_at: Seq<char>,
    ended_at: Seq<char>,
    upstream_url: Seq<char>,
    request_body: Seq<u8>,
    response_body: Seq<u8>,
    status: u16,
    streamed: bool,
    latency_ms: u64,
    request_headers: HeaderMap,
    response_headers: HeaderMap,
)
    requires
        is_trace_of(
            t,
            trace_id,
            started_at,
            ended_at,
            upstream_url,
            request_body,
            response_body,
            status,
            streamed,
            latency_ms,
            true,
            request_headers,
            Some(response_headers),
        ),
    ensures
        t.model_calls@[0].input@ == utf8_lossy(request_body),
        t.model_calls@[0].output@ == utf8_lossy(response_body),
        snapshot_view(t.model_calls@[0].request_headers@) == header_snapshot(
            header_fields(request_headers),
        ),
        snapshot_view(t.model_calls@[0].response_headers@) == header_snapshot(
            header_fields(response_headers),
        ),
{
}

// ---------------------------------------------------------------------
// The writer pipeline's decisions
// ---------------------------------------------------------------------

/// Maximum number of records buffered before forcing a flush.
pub const FLUSH_BATCH_SIZE: usize = 32;

/// Maximum wall-clock interval between flushes, in milliseconds.
pub const FLUSH_INTERVAL_MS: u64 = 250;

/// What the JSONL writer task observed.
#[derive(Clone, Copy, Debug, PartialEq, Eq, Structural)]
pub enum WriterEvent {
    /// A record was written to the buffer.
    Written,
    /// Writing a record failed (it is skipped).
    WriteFailed,
    /// The flush deadline passed.
    Tick,
    /// The channel closed: every producer is gone.
    Closed,
}

/// What the writer task does next.
#[derive(Clone, Copy, Debug, PartialEq, Eq, Structural)]
pub struct WriterStep {
    /// Flush the buffer.
    pub flush: bool,
    /// Start a new flush interval.
    pub reset_deadline: bool,
    /// Exit the loop.
    pub stop: bool,
}

/// The writer task's state: records written since the last flush.
#[derive(Clone, Copy, Debug, PartialEq, Eq, Structural)]
pub struct FlushPolicy {
    since_flush: usize,
}

impl FlushPolicy {
    /// Records written since the last flush.
    pub closed spec fn pending(&self) -> nat {
        self.since_flush as nat
    }

    /// Never more than a batch of unflushed records.
    pub closed spec fn wf(&self) -> bool {
        self.since_flush < FLUSH_BATCH_SIZE
    }

    /// A policy with nothing pending.
    pub fn new() -> (p: FlushPolicy)
        ensures
            p.pending() == 0,
            p.wf(),
    {
        FlushPolicy { since_flush: 0 }
    }

    /// Records written since the last flush.
    pub fn pending_records(&self) -> (n: usize)
        ensures
            n == self.pending(),
    {
        self.since_flush
    }

    /// The decision for one event:
    /// a written record flushes (and restarts the interval) when it
    /// completes a batch; a failed write changes nothing; a deadline
    /// flushes when anything is pending and always restarts the interval;
    /// a closed channel flushes and stops.
    pub fn on_event(&mut self, ev: WriterEvent) -> (s: WriterStep)
        requires
            old(self).wf(),
        ensures
            final(self).wf(),
            s == writer_step(old(self).pending(), ev),
            final(self).pending() == pending_after(old(self).pending(), ev),
    {
        match ev {
            WriterEvent::Written => {
                let n = self.since_flush + 1;
                if n >= FLUSH_BATCH_SIZE {
                    self.since_flush = 0;
                    WriterStep { flush: true, reset_deadline: true, stop: false }
                } else {
                    self.since_flush = n;
                    WriterStep { flush: false, reset_deadline: false, stop: false }
                }
            },
            WriterEvent::WriteFailed => WriterStep { flush: false, reset_deadline: false, stop: false },
            WriterEvent::Tick => {
                let had = self.since_flush > 0;
                self.since_flush = 0;
                WriterStep { flush: had, reset_deadline: true, stop: false }
            },
            WriterEvent::Closed => {
                self.since_flush = 0;
                WriterStep { flush: true, reset_deadline: false, stop: true }
            },
        }
    }
}

/// The writer's decision for an event, given the records pending.
pub open spec fn writer_step(pending: nat, ev: WriterEvent) -> WriterStep {
    match ev {
        WriterEvent::Written => if pending + 1 >= FLUSH_BATCH_SIZE {
            WriterStep { flush: true, reset_deadline: true, stop: false }
        } else {
            WriterStep { flush: false, reset_deadline: false, stop: false }
        },
        WriterEvent::WriteFailed => WriterStep { flush: false, reset_deadline: false, stop: false },
        WriterEvent::Tick => WriterStep { flush: pending > 0, reset_deadline: true, stop: false },
        WriterEvent::Closed => WriterStep { flush: true, reset_deadline: false, stop: true },
    }
}

/// Records pending after an event.
pub open spec fn pending_after(pending: nat, ev: WriterEvent) -> nat {
    match ev {
        WriterEvent::Written => if pending + 1 >= FLUSH_BATCH_SIZE {
            0
        } else {
            pending + 1
        },
        WriterEvent::WriteFailed => pending,
        WriterEvent::Tick => 0,
        WriterEvent::Closed => 0,
    }
}

/// How a non-blocking send to the trace channel ended.
#[derive(Clone, Copy, Debug, PartialEq, Eq, Structural)]
pub enum SendOutcome {
    /// The record was queued.
    Sent,
    /// The channel was full; the record was dropped.
    Full,
    /// The writer is gone; the record was dropped.
    Closed,
}

/// What `submit` reports and counts for a send outcome.
#[derive(Clone, Copy, Debug, PartialEq, Eq, Structural)]
pub struct SubmitVerdict {
    /// The record was accepted.
    pub accepted: bool,
    /// The record counts as dropped for backpressure.
    pub count_as_dropped: bool,
}

/// Fail-open submission: only a queued record is accepted, and only a
/// record refused by a full channel counts as dropped.
pub fn submit_verdict(outcome: SendOutcome) -> (v: SubmitVerdict)
    ensures
        v == verdict_of(outcome),
{
    match outcome {
        SendOutcome::Sent => SubmitVerdict { accepted: true, count_as_dropped: false },
        SendOutcome::Full => SubmitVerdict { accepted: false, count_as_dropped: true },
        SendOutcome::Closed => SubmitVerdict { accepted: false, count_as_dropped: false },
    }
}


/// The records pending and the steps taken after a sequence of writer
/// events, from a fresh policy.
pub open spec fn writer_run(evs: Seq<WriterEvent>) -> (nat, Seq<WriterStep>)
    decreases evs.len(),
{
    if evs.len() == 0 {
        (0, Seq::empty())
    } else {
        let (pending, steps) = writer_run(evs.drop_last());
        (pending_after(pending, evs.last()), steps.push(writer_step(pending, evs.last())))
    }
}

/// Whatever the writer observes, fewer than a batch of written records
/// are ever unflushed; and when the channel closes, everything pending is
/// flushed and the writer stops.
pub proof fn lemma_writer_flushes(evs: Seq<WriterEvent>)
    ensures
        writer_run(evs).0 < FLUSH_BATCH_SIZE,
        evs.len() > 0 && evs.last() == WriterEvent::Closed ==> {
            &&& writer_run(evs).0 == 0
            &&& writer_run(evs).1.last().flush
            &&& writer_run(evs).1.last().stop
        },
    decreases evs.len(),
{
    if evs.len() > 0 {
        lemma_writer_flushes(evs.drop_last());
    }
}

/// How many records were written in a sequence of writer events.
pub open spec fn count_written(evs: Seq<WriterEvent>) -> nat
    decreases evs.len(),
{
    if evs.len() == 0 {
        0
    } else {
        count_written(evs.drop_last()) + if evs.last() == WriterEvent::Written {
            1nat
        } else {
            0nat
        }
    }
}

/// The flush deadline flushes exactly when something is pending, whatever
/// came before: after any events, a deadline flushes iff records are
/// unflushed, and leaves nothing pending. As long as the writer has not
/// flushed, every record written is pending; so no written record stays
/// unflushed past the next deadline, the next full batch, or the close.
pub proof fn lemma_deadline_flushes_pending(evs: Seq<WriterEvent>, p: nat)
    ensures
        writer_step(p, WriterEvent::Tick).flush == (p > 0),
        writer_run(evs.push(WriterEvent::Tick)).1.last().flush == (writer_run(evs).0 > 0),
        writer_run(evs.push(WriterEvent::Tick)).0 == 0,
        (forall|i: int| 0 <= i < writer_run(evs).1.len() ==> !(#[trigger] writer_run(evs).1[i]).flush)
            ==> writer_run(evs).0 == count_written(evs),
    decreases evs.len(),
{
    let t = evs.push(WriterEvent::Tick);
    assert(t.drop_last() == evs);
    if evs.len() > 0 {
        let q = evs.drop_last();
        lemma_deadline_flushes_pending(q, p);
        let (pq, sq) = writer_run(q);
        let steps = writer_run(evs).1;
        assert(steps == sq.push(writer_step(pq, evs.last())));
        if forall|i: int| 0 <= i < steps.len() ==> !(#[trigger] steps[i]).flush {
            assert forall|i: int| 0 <= i < sq.len() implies !(#[trigger] sq[i]).flush by {
                assert(steps[i] == sq[i]);
            }
            assert(!steps[steps.len() - 1].flush);
        }
    }
}

/// How many outcomes satisfy `p`.
pub open spec fn count_outcomes(outs: Seq<SendOutcome>, p: spec_fn(SendOutcome) -> bool) -> nat
    decreases outs.len(),
{
    if outs.len() == 0 {
        0
    } else {
        count_outcomes(outs.drop_last(), p) + if p(outs.last()) {
            1nat
        } else {
            0nat
        }
    }
}

/// The verdict `submit` reaches for an outcome.
pub open spec fn verdict_of(o: SendOutcome) -> SubmitVerdict {
    SubmitVerdict { accepted: o == SendOutcome::Sent, count_as_dropped: o == SendOutcome::Full }
}

/// Over any run of submissions, the dropped counter equals the number of
/// records refused by a full channel, and every submission is either
/// accepted or refused; while the writer is alive, the counter equals the
/// number of submissions that returned `false`.
pub proof fn lemma_dropped_count(outs: Seq<SendOutcome>)
    ensures
        count_outcomes(outs, |o: SendOutcome| verdict_of(o).count_as_dropped) == count_outcomes(
            outs,
            |o: SendOutcome| o == SendOutcome::Full,
        ),
        count_outcomes(outs, |o: SendOutcome| verdict_of(o).accepted) + count_outcomes(
            outs,
            |o: SendOutcome| !verdict_of(o).accepted,
        ) == outs.len(),
        count_outcomes(outs, |o: SendOutcome| o == SendOutcome::Closed) == 0 ==> count_outcomes(
            outs,
            |o: SendOutcome| verdict_of(o).count_as_dropped,
        ) == count_outcomes(outs, |o: SendOutcome| !verdict_of(o).accepted),
    decreases outs.len(),
{
    if outs.len() > 0 {
        lemma_dropped_count(outs.drop_last());
    }
}

} // verus!
