//! HTTP header handling: the hop-by-hop filter applied in both directions,
//! SSE detection on upstream responses, and the scrubbed header snapshot
//! written to traces.
//!
//! Header maps are `http::HeaderMap`s (re-exported by axum). Their contents
//! are modelled, in iteration order, as a sequence of `(name, value bytes)`
//! fields ([`header_fields`]).

use vstd::prelude::*;

use axum::http::{HeaderMap, HeaderName, HeaderValue};

use crate::text::{
    ascii_lowercase, chars_eq, chars_eq_str, chars_of, eq_ignore_ascii_case, to_ascii_lowercase,
    trim, trim_chars,
};

verus! {

#[verifier::external_type_specification]
#[verifier::external_body]
#[verifier::reject_recursive_types(T)]
pub struct ExHeaderMap<T>(axum::http::HeaderMap<T>);

#[verifier::external_type_specification]
#[verifier::external_body]
pub struct ExHeaderName(axum::http::HeaderName);

#[verifier::external_type_specification]
#[verifier::external_body]
pub struct ExHeaderValue(axum::http::HeaderValue);

/// One header field: its (lower-case) name and its value bytes.
pub type Field = (Seq<char>, Seq<u8>);

/// The fields a header map holds, in iteration order: each name once per
/// value, the values of one name together and in the order they were added.
pub uninterp spec fn header_fields(m: HeaderMap) -> Seq<(Seq<char>, Seq<u8>)>;

/// Some field of `s` has name `n`.
pub open spec fn has_name(s: Seq<Field>, n: Seq<char>) -> bool {
    exists|i: int| 0 <= i < s.len() && #[trigger] s[i].0 == n
}

/// The fields of a map after `HeaderMap::append` of `f`: the new value goes
/// after the last value with the same name, or at the end for a new name.
pub open spec fn field_append(s: Seq<Field>, f: Field) -> Seq<Field>
    decreases s.len(),
{
    if s.len() == 0 || !has_name(s, f.0) || s.last().0 == f.0 {
        s.push(f)
    } else {
        field_append(s.drop_last(), f).push(s.last())
    }
}

/// All fields of one name stand together.
pub open spec fn fields_grouped(s: Seq<Field>) -> bool {
    forall|i: int, j: int, k: int|
        0 <= i < j < k < s.len() && #[trigger] s[i].0 == #[trigger] s[k].0 ==> #[trigger] s[j].0
            == s[i].0
}

/// The number of distinct names among the fields.
pub open spec fn name_count(s: Seq<Field>) -> nat
    decreases s.len(),
{
    if s.len() == 0 {
        0
    } else {
        name_count(s.drop_last()) + if has_name(s.drop_last(), s.last().0) {
            0nat
        } else {
            1nat
        }
    }
}

/// Below this many distinct names, `HeaderMap::append` cannot hit the map's
/// size limit (it panics when growing its index past `1 << 15` slots, which
/// takes at least this many names).
pub const APPEND_SAFE_NAMES: u64 = 6553;

/// The text of a header name (`HeaderName::as_str`).
pub uninterp spec fn header_name_text(n: HeaderName) -> Seq<char>;

/// The bytes of a header value (`HeaderValue::as_bytes`).
pub uninterp spec fn header_value_bytes(v: HeaderValue) -> Seq<u8>;

/// A header field handed out of a map: the field itself, for appending to
/// another map, with its name text and value bytes.
pub struct HeaderField {
    name: HeaderName,
    value: HeaderValue,
    name_text: String,
    value_bytes: Vec<u8>,
}

impl HeaderField {
    /// The text and bytes carried are those of the name and value.
    #[verifier::type_invariant]
    spec fn texts_match(self) -> bool {
        &&& self.name_text@ == header_name_text(self.name)
        &&& self.value_bytes@ == header_value_bytes(self.value)
    }

    /// The field as plain values.
    pub closed spec fn field(&self) -> Field {
        (header_name_text(self.name), header_value_bytes(self.value))
    }

    /// The lower-case name.
    pub fn name(&self) -> (r: &String)
        ensures
            r@ == self.field().0,
    {
        proof {
            use_type_invariant(self);
        }
        &self.name_text
    }

    /// The value bytes.
    pub fn value(&self) -> (r: &Vec<u8>)
        ensures
            r@ == self.field().1,
    {
        proof {
            use_type_invariant(self);
        }
        &self.value_bytes
    }
}

/// `HeaderMap::new`: an empty map.
#[verifier::external_body]
pub fn header_map_new() -> (m: HeaderMap)
    ensures
        header_fields(m) == Seq::<Field>::empty(),
{
    HeaderMap::new()
}

/// `HeaderMap::iter`, each field handed out with clones of its name and
/// value and their text (`HeaderName::as_str`) and bytes
/// (`HeaderValue::as_bytes`), which the type invariant of [`HeaderField`]
/// ties to the name and value. Claims: the fields come out in the map's
/// order, and (as `Iter::next` walks one entry's values before the next
/// entry) the values of one name stand together.
#[verifier::external_body]
fn header_map_fields(m: &HeaderMap) -> (v: Vec<HeaderField>)
    ensures
        v@.map_values(|f: HeaderField| f.field()) == header_fields(*m),
        fields_grouped(v@.map_values(|f: HeaderField| f.field())),
{
    m.iter().map(
        |(k, v)|
            HeaderField {
                name: k.clone(),
                value: v.clone(),
                name_text: k.as_str().to_string(),
                value_bytes: v.as_bytes().to_vec(),
            },
    ).collect()
}

/// `HeaderMap::append` of a field taken from a map. Claims: the value joins
/// the end of the values for its name (documented), which, in iteration
/// order, is right after the last field of that name.
#[verifier::external_body]
fn header_map_append(m: &mut HeaderMap, f: &HeaderField)
    requires
        name_count(header_fields(*old(m))) < APPEND_SAFE_NAMES,
    ensures
        header_fields(*final(m)) == field_append(
            header_fields(*old(m)),
            (header_name_text(f.name), header_value_bytes(f.value)),
        ),
{
    m.append(f.name.clone(), f.value.clone());
}

/// A non-empty, lower-case header name in `http`'s token alphabet.
pub open spec fn is_lowercase_header_name(n: Seq<char>) -> bool {
    n.len() > 0 && forall|i: int|
        0 <= i < n.len() ==> {
            let c = #[trigger] n[i];
            ||| 'a' <= c <= 'z'
            ||| '0' <= c <= '9'
            ||| c == '!' || c == '#' || c == '$' || c == '%' || c == '&' || c == '\''
            ||| c == '*' || c == '+' || c == '-' || c == '.' || c == '^' || c == '_'
            ||| c == '`' || c == '|' || c == '~'
        }
}

/// The first value stored under `n`, if any.
pub open spec fn first_value(s: Seq<Field>, n: Seq<char>) -> Option<Seq<u8>>
    decreases s.len(),
{
    if s.len() == 0 {
        None
    } else if s[0].0 == n {
        Some(s[0].1)
    } else {
        first_value(s.drop_first(), n)
    }
}

/// `HeaderMap::get`, value converted to its bytes. Claims the documented
/// behaviour: the first value associated with the name.
#[verifier::external_body]
fn header_map_get(m: &HeaderMap, name: &str) -> (r: Option<Vec<u8>>)
    requires
        is_lowercase_header_name(name@),
    ensures
        match first_value(header_fields(*m), name@) {
            Some(b) => r matches Some(v) && v@ == b,
            None => r is None,
        },
{
    match m.get(name) {
        Some(v) => Some(v.as_bytes().to_vec()),
        None => None,
    }
}

/// `HeaderMap::keys_len`: the number of distinct names in the map (one
/// entry per name, each holding at least one value).
#[verifier::external_body]
fn header_map_keys_len(m: &HeaderMap) -> (n: usize)
    ensures
        n == name_count(header_fields(*m)),
{
    m.keys_len()
}

/// The number of distinct header names in a map.
pub fn header_name_count(m: &HeaderMap) -> (n: usize)
    ensures
        n == name_count(header_fields(*m)),
{
    header_map_keys_len(m)
}

// ---------------------------------------------------------------------
// Hop-by-hop filtering
// ---------------------------------------------------------------------

/// Header names that are never forwarded: the RFC 7230 §6.1 hop-by-hop
/// headers, plus `host` (rewritten by the upstream client) and
/// `content-length` (recomputed by it). Compared case-insensitively.
pub open spec fn is_hop_by_hop_name(name: Seq<char>) -> bool {
    let n = ascii_lowercase(name);
    ||| n == "connection"@
    ||| n == "keep-alive"@
    ||| n == "proxy-authenticate"@
    ||| n == "proxy-authorization"@
    ||| n == "proxy-connection"@
    ||| n == "te"@
    ||| n == "trailers"@
    ||| n == "transfer-encoding"@
    ||| n == "upgrade"@
    ||| n == "host"@
    ||| n == "content-length"@
}

/// A field that may be forwarded.
pub open spec fn forwardable_field(f: Field) -> bool {
    !is_hop_by_hop_name(f.0)
}

/// The fields that are forwarded, in order.
pub open spec fn forwardable_fields(s: Seq<Field>) -> Seq<Field> {
    s.filter(|f: Field| forwardable_field(f))
}

/// Whether a header name is hop-by-hop (case-insensitive).
pub fn is_hop_by_hop(name: &str) -> (r: bool)
    ensures
        r == is_hop_by_hop_name(name@),
{
    let lower = to_ascii_lowercase(chars_of(name).as_slice());
    let n = lower.as_slice();
    chars_eq_str(n, "connection") || chars_eq_str(n, "keep-alive") || chars_eq_str(
        n,
        "proxy-authenticate",
    ) || chars_eq_str(n, "proxy-authorization") || chars_eq_str(n, "proxy-connection")
        || chars_eq_str(n, "te") || chars_eq_str(n, "trailers") || chars_eq_str(
        n,
        "transfer-encoding",
    ) || chars_eq_str(n, "upgrade") || chars_eq_str(n, "host") || chars_eq_str(n, "content-length")
}

/// A new map holding the forwardable fields of `src`, in order.
#[verifier::spinoff_prover]
#[verifier::rlimit(40)]
fn forwardable_headers(src: &HeaderMap) -> (out: HeaderMap)
    requires
        name_count(header_fields(*src)) < APPEND_SAFE_NAMES,
    ensures
        header_fields(out) == forwardable_fields(header_fields(*src)),
        name_count(header_fields(out)) <= name_count(header_fields(*src)),
{
    let ghost fields = header_fields(*src);
    let ghost p = |f: Field| forwardable_field(f);
    let items = header_map_fields(src);
    assert(items@.len() == fields.len());
    let mut out = header_map_new();
    let ghost mut last_src: int = -1;
    let mut i: usize = 0;
    assert(fields.take(0) == Seq::<Field>::empty());
    while i < items.len()
        invariant
            items@.map_values(|f: HeaderField| f.field()) == fields,
            items@.len() == fields.len(),
            fields_grouped(fields),
            name_count(fields) < APPEND_SAFE_NAMES,
            i <= items.len(),
            p == (|f: Field| forwardable_field(f)),
            header_fields(out) == fields.take(i as int).filter(p),
            -1 <= last_src < i,
            header_fields(out).len() > 0 ==> 0 <= last_src && header_fields(out).last()
                == fields[last_src],
            forall|n: Seq<char>|
                #[trigger] has_name(header_fields(out), n) ==> exists|a: int|
                    0 <= a <= last_src && #[trigger] fields[a].0 == n,
            name_count(header_fields(out)) <= name_count(fields.take(i as int)),
        decreases items.len() - i,
    {
        let ghost kept = header_fields(out);
        let ghost f = fields[i as int];
        assert(items@[i as int].field() == f);
        assert(fields.take(i + 1).drop_last() == fields.take(i as int));
        assert(fields.take(i + 1).last() == f);
        proof {
            lemma_name_count_prefix(fields, i as int + 1);
        }
        let keep = !is_hop_by_hop(items[i].name().as_str());
        if keep {
            proof {
                lemma_kept_name_count(fields, i as int, p);
                if has_name(kept, f.0) {
                    let a = choose|a: int| 0 <= a <= last_src && #[trigger] fields[a].0 == f.0;
                    if a < last_src {
                        assert(fields[a].0 == fields[i as int].0);
                    }
                    assert(kept.last().0 == f.0);
                }
                assert(field_append(kept, f) == kept.push(f));
            }
            header_map_append(&mut out, &items[i]);
            proof {
                last_src = i as int;
                let newk = header_fields(out);
                assert(newk == kept.push(f));
                assert forall|n: Seq<char>| #[trigger] has_name(newk, n) implies exists|a: int|
                    0 <= a <= last_src && #[trigger] fields[a].0 == n by {
                    let t = choose|t: int| 0 <= t < newk.len() && #[trigger] newk[t].0 == n;
                    if t < kept.len() {
                        assert(kept[t].0 == n);
                        assert(has_name(kept, n));
                    } else {
                        assert(fields[last_src].0 == n);
                    }
                }
            }
        } else {
            proof {
                lemma_dropped_name_count(fields, i as int, p);
            }
        }
        i = i + 1;
    }
    assert(fields.take(fields.len() as int) == fields);
    out
}

/// The name count of a prefix never exceeds that of the whole.
proof fn lemma_name_count_prefix(s: Seq<Field>, k: int)
    requires
        0 <= k <= s.len(),
    ensures
        name_count(s.take(k)) <= name_count(s),
    decreases s.len() - k,
{
    if k < s.len() {
        lemma_name_count_prefix(s, k + 1);
        assert(s.take(k + 1).drop_last() == s.take(k));
    } else {
        assert(s.take(k) == s);
    }
}

/// Keeping field `i` keeps the kept name count within the prefix's.
proof fn lemma_kept_name_count(s: Seq<Field>, i: int, p: spec_fn(Field) -> bool)
    requires
        0 <= i < s.len(),
        p == (|f: Field| forwardable_field(f)),
        p(s[i]),
        name_count(s.take(i).filter(p)) <= name_count(s.take(i)),
    ensures
        s.take(i + 1).filter(p) == s.take(i).filter(p).push(s[i]),
        name_count(s.take(i).filter(p).push(s[i])) <= name_count(s.take(i + 1)),
{
    reveal(Seq::filter);
    let kept = s.take(i).filter(p);
    let pre = s.take(i);
    let t = s.take(i + 1);
    assert(t.drop_last() =~= pre);
    assert(t.last() == s[i]);
    assert(t.filter(p) == kept.push(s[i]));
    assert(kept.push(s[i]).drop_last() == kept);
    if has_name(pre, s[i].0) && !has_name(kept, s[i].0) {
        let a = choose|a: int| 0 <= a < pre.len() && #[trigger] pre[a].0 == s[i].0;
        assert(p(pre[a]));
        broadcast use vstd::seq_lib::group_filter_ensures;
        assert(kept.contains(pre[a]));
        let t = choose|t: int| 0 <= t < kept.len() && kept[t] == pre[a];
        assert(kept[t].0 == s[i].0);
    }
}

/// Dropping field `i` leaves the kept name count within the prefix's.
proof fn lemma_dropped_name_count(s: Seq<Field>, i: int, p: spec_fn(Field) -> bool)
    requires
        0 <= i < s.len(),
        !p(s[i]),
        name_count(s.take(i).filter(p)) <= name_count(s.take(i)),
    ensures
        s.take(i + 1).filter(p) == s.take(i).filter(p),
        name_count(s.take(i + 1).filter(p)) <= name_count(s.take(i + 1)),
{
    reveal(Seq::filter);
    let t = s.take(i + 1);
    assert(t.drop_last() =~= s.take(i));
    assert(t.last() == s[i]);
    assert(t.len() > 0);
    assert(t.filter(p) == t.drop_last().filter(p));
}

/// Filter request headers down to the ones safe to forward upstream: every
/// field except the hop-by-hop ones, in order, with every value of a
/// multi-valued header kept.
pub fn forwardable_request_headers(src: &HeaderMap) -> (out: HeaderMap)
    requires
        name_count(header_fields(*src)) < APPEND_SAFE_NAMES,
    ensures
        header_fields(out) == forwardable_fields(header_fields(*src)),
        name_count(header_fields(out)) <= name_count(header_fields(*src)),
{
    forwardable_headers(src)
}

/// Filter response headers down to the ones safe to forward back to the
/// client; the same filter as for requests.
pub fn forwardable_response_headers(src: &HeaderMap) -> (out: HeaderMap)
    requires
        name_count(header_fields(*src)) < APPEND_SAFE_NAMES,
    ensures
        header_fields(out) == forwardable_fields(header_fields(*src)),
        name_count(header_fields(out)) <= name_count(header_fields(*src)),
{
    forwardable_headers(src)
}

/// [`forwardable_request_headers`] for any map: `None` when the map holds
/// too many names for a filtered copy to be built.
pub fn try_forwardable_request_headers(src: &HeaderMap) -> (r: Option<HeaderMap>)
    ensures
        match r {
            Some(out) => name_count(header_fields(*src)) < APPEND_SAFE_NAMES && header_fields(out)
                == forwardable_fields(header_fields(*src)),
            None => name_count(header_fields(*src)) >= APPEND_SAFE_NAMES,
        },
{
    if header_name_count(src) < APPEND_SAFE_NAMES as usize {
        Some(forwardable_request_headers(src))
    } else {
        None
    }
}

/// [`forwardable_response_headers`] for any map: `None` when the map holds
/// too many names for a filtered copy to be built and later given the two
/// SSE hygiene headers.
pub fn try_forwardable_response_headers(src: &HeaderMap) -> (r: Option<HeaderMap>)
    ensures
        match r {
            Some(out) => {
                &&& name_count(header_fields(*src)) + 1 < APPEND_SAFE_NAMES
                &&& header_fields(out) == forwardable_fields(header_fields(*src))
                &&& name_count(header_fields(out)) + 1 < APPEND_SAFE_NAMES
            },
            None => name_count(header_fields(*src)) + 1 >= APPEND_SAFE_NAMES,
        },
{
    let n = header_name_count(src);
    if n < APPEND_SAFE_NAMES as usize - 1 {
        Some(forwardable_response_headers(src))
    } else {
        None
    }
}

} // verus!

verus! {

// ---------------------------------------------------------------------
// SSE detection
// ---------------------------------------------------------------------

/// `HeaderValue::to_str` succeeds: every byte is visible ASCII or a tab.
pub open spec fn is_visible_ascii(b: Seq<u8>) -> bool {
    forall|i: int| 0 <= i < b.len() ==> (#[trigger] b[i] == 9 || (32 <= b[i] && b[i] < 127))
}

/// ASCII bytes as characters.
pub open spec fn ascii_chars(b: Seq<u8>) -> Seq<char> {
    b.map_values(|x: u8| x as char)
}

/// The text before the first `;` (`split(';').next()`).
pub open spec fn before_semicolon(s: Seq<char>) -> Seq<char>
    decreases s.len(),
{
    if s.len() == 0 {
        s
    } else if s[0] == ';' {
        Seq::<char>::empty()
    } else {
        seq![s[0]] + before_semicolon(s.drop_first())
    }
}

/// A `content-type` value that announces an SSE stream: its media type,
/// trimmed, is `text/event-stream` in any ASCII case.
pub open spec fn is_sse_content_type(v: Seq<u8>) -> bool {
    is_visible_ascii(v) && eq_ignore_ascii_case(
        trim(before_semicolon(ascii_chars(v))),
        "text/event-stream"@,
    )
}

/// The headers announce an SSE stream: the first `content-type` value does.
pub open spec fn is_sse_fields(fields: Seq<Field>) -> bool {
    match first_value(fields, "content-type"@) {
        Some(v) => is_sse_content_type(v),
        None => false,
    }
}

/// The media-type part of a `content-type` value, when the value is
/// visible ASCII.
fn media_type_of(v: &[u8]) -> (r: Option<Vec<char>>)
    ensures
        is_visible_ascii(v@) ==> (r matches Some(t) && t@ == before_semicolon(ascii_chars(v@))),
        !is_visible_ascii(v@) ==> r is None,
{
    let mut i: usize = 0;
    while i < v.len()
        invariant
            i <= v.len(),
            forall|j: int| 0 <= j < i ==> (#[trigger] v@[j] == 9 || (32 <= v@[j] && v@[j] < 127)),
        decreases v.len() - i,
    {
        let b = v[i];
        if !(b == 9 || (32 <= b && b < 127)) {
            return None;
        }
        i = i + 1;
    }
    let ghost cs = ascii_chars(v@);
    let mut out: Vec<char> = Vec::new();
    let mut k: usize = 0;
    assert(cs.skip(0) == cs);
    assert(cs.take(0) == Seq::<char>::empty());
    while k < v.len() && v[k] != 59u8
        invariant
            k <= v.len(),
            cs == ascii_chars(v@),
            forall|j: int| 0 <= j < k ==> #[trigger] v@[j] != 59u8,
            out@ == cs.take(k as int),
            before_semicolon(cs) == out@ + before_semicolon(cs.skip(k as int)),
        decreases v.len() - k,
    {
        let c = v[k] as char;
        assert(cs.skip(k as int).drop_first() == cs.skip(k + 1));
        assert(cs.skip(k as int)[0] == c);
        assert(seq![c] + before_semicolon(cs.skip(k + 1)) == before_semicolon(cs.skip(k as int)));
        out.push(c);
        assert(cs.take(k + 1) == cs.take(k as int).push(c));
        k = k + 1;
    }
    proof {
        if k < v.len() {
            assert(cs.skip(k as int)[0] == ';');
        } else {
            assert(cs.skip(k as int).len() == 0);
        }
        assert(before_semicolon(cs.skip(k as int)) == Seq::<char>::empty());
    }
    Some(out)
}

/// True when the upstream signalled an SSE stream (`Content-Type:
/// text/event-stream`, parameters ignored).
pub fn is_sse_response(headers: &HeaderMap) -> (r: bool)
    ensures
        r == is_sse_fields(header_fields(*headers)),
{
    proof {
        reveal_strlit("content-type");
        reveal_strlit("text/event-stream");
    }
    let v = match header_map_get(headers, "content-type") {
        Some(v) => v,
        None => {
            return false;
        },
    };
    match media_type_of(v.as_slice()) {
        None => false,
        Some(media) => {
            let t = trim_chars(media.as_slice());
            let lower = to_ascii_lowercase(t.as_slice());
            let expect = to_ascii_lowercase(chars_of("text/event-stream").as_slice());
            chars_eq(lower.as_slice(), expect.as_slice())
        },
    }
}

// ---------------------------------------------------------------------
// Header snapshots for traces
// ---------------------------------------------------------------------

/// The value written in place of a credential-bearing header.
pub const REDACTED: &'static str = "[REDACTED]";

/// Headers whose values are never written to a trace, compared
/// case-insensitively.
pub open spec fn is_scrubbed_name(name: Seq<char>) -> bool {
    let n = ascii_lowercase(name);
    ||| n == "authorization"@
    ||| n == "proxy-authorization"@
    ||| n == "x-api-key"@
    ||| n == "api-key"@
    ||| n == "cookie"@
    ||| n == "set-cookie"@
}

/// Whether a header's value must be redacted in traces.
pub fn is_scrubbed(name: &[char]) -> (r: bool)
    ensures
        r == is_scrubbed_name(name@),
{
    let lower = to_ascii_lowercase(name);
    let n = lower.as_slice();
    chars_eq_str(n, "authorization") || chars_eq_str(n, "proxy-authorization") || chars_eq_str(
        n,
        "x-api-key",
    ) || chars_eq_str(n, "api-key") || chars_eq_str(n, "cookie") || chars_eq_str(n, "set-cookie")
}

/// The index of the entry named `n`, or -1.
pub open spec fn entry_index(acc: Seq<(Seq<char>, Seq<char>)>, n: Seq<char>) -> int
    decreases acc.len(),
{
    if acc.len() == 0 {
        -1
    } else if acc.last().0 == n {
        acc.len() - 1
    } else {
        entry_index(acc.drop_last(), n)
    }
}

/// A found entry has the name looked for.
proof fn lemma_entry_index(acc: Seq<(Seq<char>, Seq<char>)>, n: Seq<char>)
    ensures
        -1 <= entry_index(acc, n) < acc.len(),
        entry_index(acc, n) >= 0 ==> acc[entry_index(acc, n)].0 == n,
    decreases acc.len(),
{
    if acc.len() > 0 && acc.last().0 != n {
        lemma_entry_index(acc.drop_last(), n);
    }
}

/// The trace text of one header value.
pub open spec fn captured_text(f: Field) -> Seq<char> {
    if is_scrubbed_name(f.0) {
        REDACTED@
    } else {
        crate::text::utf8_lossy(f.1)
    }
}

/// Adds one field to a snapshot: a new name gets an entry; another value
/// of a known name is appended to its entry after `", "`, except for
/// redacted names, whose entry stays `[REDACTED]`.
pub open spec fn snapshot_add(acc: Seq<(Seq<char>, Seq<char>)>, f: Field) -> Seq<(Seq<char>, Seq<char>)> {
    let k = entry_index(acc, f.0);
    if k < 0 {
        acc.push((f.0, captured_text(f)))
    } else if is_scrubbed_name(f.0) {
        acc
    } else {
        acc.update(k, (f.0, acc[k].1 + ", "@ + captured_text(f)))
    }
}

/// The snapshot of a header map written to a trace: one entry per name in
/// order of first appearance, values joined with `", "`, credential-bearing
/// headers redacted.
pub open spec fn header_snapshot(fields: Seq<Field>) -> Seq<(Seq<char>, Seq<char>)>
    decreases fields.len(),
{
    if fields.len() == 0 {
        Seq::empty()
    } else {
        snapshot_add(header_snapshot(fields.drop_last()), fields.last())
    }
}

/// A snapshot vector as plain values.
pub open spec fn snapshot_view(v: Seq<(String, String)>) -> Seq<(Seq<char>, Seq<char>)> {
    v.map_values(|e: (String, String)| (e.0@, e.1@))
}

/// The position of the entry named `n` in a snapshot vector.
fn find_entry(acc: &Vec<(String, String)>, n: &[char]) -> (r: Option<usize>)
    ensures
        match r {
            Some(k) => k < acc.len() && entry_index(snapshot_view(acc@), n@) == k,
            None => entry_index(snapshot_view(acc@), n@) == -1,
        },
{
    let mut i: usize = acc.len();
    let ghost sv = snapshot_view(acc@);
    assert(sv.take(i as int) == sv);
    while i > 0
        invariant
            i <= acc.len(),
            sv == snapshot_view(acc@),
            entry_index(sv, n@) == entry_index(sv.take(i as int), n@),
        decreases i,
    {
        let name = chars_of(acc[i - 1].0.as_str());
        assert(sv.take(i as int).last() == sv[i - 1]);
        assert(sv.take(i as int).drop_last() == sv.take(i - 1));
        if chars_eq(name.as_slice(), n) {
            return Some(i - 1);
        }
        i = i - 1;
    }
    None
}

/// The trace snapshot of a header map (see [`header_snapshot`]).
pub fn captured_headers(m: &HeaderMap) -> (r: Vec<(String, String)>)
    ensures
        snapshot_view(r@) == header_snapshot(header_fields(*m)),
{
    let ghost fields = header_fields(*m);
    let items = header_map_fields(m);
    let mut acc: Vec<(String, String)> = Vec::new();
    let mut i: usize = 0;
    assert(items@.len() == fields.len());
    assert(fields.take(0) == Seq::<Field>::empty());
    while i < items.len()
        invariant
            items@.map_values(|f: HeaderField| f.field()) == fields,
            items@.len() == fields.len(),
            i <= items.len(),
            snapshot_view(acc@) == header_snapshot(fields.take(i as int)),
        decreases items.len() - i,
    {
        let ghost f = fields[i as int];
        assert(items@[i as int].field() == f);
        assert(fields.take(i + 1).drop_last() == fields.take(i as int));
        assert(fields.take(i + 1).last() == f);
        let name = chars_of(items[i].name().as_str());
        let scrubbed = is_scrubbed(name.as_slice());
        let text = if scrubbed {
            String::from_str(REDACTED)
        } else {
            crate::text::utf8_lossy_string(items[i].value().as_slice())
        };
        assert(text@ == captured_text(f));
        let ghost before = snapshot_view(acc@);
        match find_entry(&acc, name.as_slice()) {
            None => {
                acc.push((items[i].name().clone(), text));
                assert(snapshot_view(acc@) == before.push((f.0, captured_text(f))));
            },
            Some(k) => {
                if !scrubbed {
                    let mut joined = acc[k].1.clone();
                    joined.append(", ");
                    joined.append(text.as_str());
                    let entry_name = acc[k].0.clone();
                    let ghost old_acc = acc@;
                    proof {
                        lemma_entry_index(before, f.0);
                    }
                    acc.set(k, (entry_name, joined));
                    assert(acc@ == old_acc.update(k as int, (entry_name, joined)));
                    assert(snapshot_view(acc@) =~= before.update(
                        k as int,
                        (f.0, before[k as int].1 + ", "@ + captured_text(f)),
                    ));
                }
            },
        }
        i = i + 1;
    }
    assert(fields.take(fields.len() as int) == fields);
    acc
}


// ---------------------------------------------------------------------
// Replacing a header (`HeaderMap::insert`) and SSE hygiene
// ---------------------------------------------------------------------

/// The fields after every field named `f.0` is replaced by `f`: the first
/// such field becomes `f`, the later ones are removed, every other field
/// stays where it was.
pub open spec fn replace_values(s: Seq<Field>, f: Field) -> Seq<Field>
    decreases s.len(),
{
    if s.len() == 0 {
        s
    } else if s.last().0 == f.0 {
        if has_name(s.drop_last(), f.0) {
            replace_values(s.drop_last(), f)
        } else {
            replace_values(s.drop_last(), f).push(f)
        }
    } else {
        replace_values(s.drop_last(), f).push(s.last())
    }
}

/// The fields of a map after `HeaderMap::insert` of `f`: a known name keeps
/// its place and has `f.1` as its only value; a new name goes at the end.
pub open spec fn field_insert(s: Seq<Field>, f: Field) -> Seq<Field> {
    if has_name(s, f.0) {
        replace_values(s, f)
    } else {
        s.push(f)
    }
}

/// The values stored under `n`, in order.
pub open spec fn values_of(s: Seq<Field>, n: Seq<char>) -> Seq<Seq<u8>>
    decreases s.len(),
{
    if s.len() == 0 {
        Seq::empty()
    } else if s.last().0 == n {
        values_of(s.drop_last(), n).push(s.last().1)
    } else {
        values_of(s.drop_last(), n)
    }
}

/// A name is in a sequence with a field pushed iff it was before or is the
/// pushed field's.
proof fn lemma_has_name_push(s: Seq<Field>, x: Field, n: Seq<char>)
    ensures
        has_name(s.push(x), n) == (has_name(s, n) || x.0 == n),
{
    let t = s.push(x);
    if has_name(s, n) {
        let i = choose|i: int| 0 <= i < s.len() && #[trigger] s[i].0 == n;
        assert(t[i].0 == n);
    }
    if x.0 == n {
        assert(t[s.len() as int].0 == n);
    }
    if has_name(t, n) && x.0 != n {
        let i = choose|i: int| 0 <= i < t.len() && #[trigger] t[i].0 == n;
        assert(s[i].0 == n);
    }
}

/// A sequence is its prefix with its last field pushed.
proof fn lemma_has_name_last(s: Seq<Field>, n: Seq<char>)
    requires
        s.len() > 0,
    ensures
        has_name(s, n) == (has_name(s.drop_last(), n) || s.last().0 == n),
{
    assert(s.drop_last().push(s.last()) == s);
    lemma_has_name_push(s.drop_last(), s.last(), n);
}

/// Replacing the values of one name keeps the set of names.
proof fn lemma_replace_names(s: Seq<Field>, f: Field, n: Seq<char>)
    ensures
        has_name(replace_values(s, f), n) == has_name(s, n),
    decreases s.len(),
{
    if s.len() > 0 {
        let p = s.drop_last();
        lemma_replace_names(p, f, n);
        lemma_has_name_last(s, n);
        if s.last().0 == f.0 {
            if !has_name(p, f.0) {
                lemma_has_name_push(replace_values(p, f), f, n);
            }
        } else {
            lemma_has_name_push(replace_values(p, f), s.last(), n);
        }
    }
}

/// Replacing the values of one name keeps the number of names.
proof fn lemma_replace_name_count(s: Seq<Field>, f: Field)
    ensures
        name_count(replace_values(s, f)) == name_count(s),
    decreases s.len(),
{
    if s.len() > 0 {
        let p = s.drop_last();
        lemma_replace_name_count(p, f);
        let r = replace_values(p, f);
        if s.last().0 == f.0 {
            if !has_name(p, f.0) {
                lemma_replace_names(p, f, f.0);
                assert(r.push(f).drop_last() == r);
            }
        } else {
            lemma_replace_names(p, f, s.last().0);
            assert(r.push(s.last()).drop_last() == r);
        }
    }
}

/// An insert adds at most one name.
pub proof fn lemma_insert_name_count(s: Seq<Field>, f: Field)
    ensures
        name_count(field_insert(s, f)) <= name_count(s) + 1,
        has_name(s, f.0) ==> name_count(field_insert(s, f)) == name_count(s),
{
    if has_name(s, f.0) {
        lemma_replace_name_count(s, f);
    } else {
        assert(s.push(f).drop_last() == s);
    }
}

/// A name that no field has has no values.
proof fn lemma_values_absent(s: Seq<Field>, n: Seq<char>)
    requires
        !has_name(s, n),
    ensures
        values_of(s, n) == Seq::<Seq<u8>>::empty(),
    decreases s.len(),
{
    if s.len() > 0 {
        lemma_has_name_last(s, n);
        lemma_values_absent(s.drop_last(), n);
    }
}

/// Replacing the values of `f.0` leaves every other name's values alone.
proof fn lemma_replace_other_values(s: Seq<Field>, f: Field, n: Seq<char>)
    requires
        n != f.0,
    ensures
        values_of(replace_values(s, f), n) == values_of(s, n),
    decreases s.len(),
{
    if s.len() > 0 {
        let p = s.drop_last();
        lemma_replace_other_values(p, f, n);
        let r = replace_values(p, f);
        assert(r.push(f).drop_last() == r);
        assert(r.push(s.last()).drop_last() == r);
    }
}

/// After replacing, `f.0` has `f.1` as its only value, when it had any.
proof fn lemma_replace_own_values(s: Seq<Field>, f: Field)
    ensures
        values_of(replace_values(s, f), f.0) == if has_name(s, f.0) {
            seq![f.1]
        } else {
            Seq::<Seq<u8>>::empty()
        },
    decreases s.len(),
{
    if s.len() == 0 {
        assert(!has_name(s, f.0));
    } else {
        let p = s.drop_last();
        lemma_replace_own_values(p, f);
        lemma_has_name_last(s, f.0);
        let r = replace_values(p, f);
        assert(r.push(f).drop_last() == r);
        assert(r.push(s.last()).drop_last() == r);
    }
}

/// What an insert does to the values of each name: `f.0` ends up with
/// exactly `f.1`, and every other name keeps its values.
pub proof fn lemma_insert_values(s: Seq<Field>, f: Field, n: Seq<char>)
    ensures
        values_of(field_insert(s, f), f.0) == seq![f.1],
        n != f.0 ==> values_of(field_insert(s, f), n) == values_of(s, n),
{
    if has_name(s, f.0) {
        lemma_replace_own_values(s, f);
        if n != f.0 {
            lemma_replace_other_values(s, f, n);
        }
    } else {
        lemma_values_absent(s, f.0);
        assert(s.push(f).drop_last() == s);
    }
}

/// Text of visible ASCII characters, as `HeaderValue::from_static` accepts.
pub open spec fn is_visible_ascii_text(t: Seq<char>) -> bool {
    forall|i: int| 0 <= i < t.len() ==> (#[trigger] t[i] == '\t' || (' ' <= t[i] && t[i] < '\x7f'))
}

/// The bytes of ASCII text.
pub open spec fn ascii_bytes(t: Seq<char>) -> Seq<u8> {
    t.map_values(|c: char| c as u8)
}

/// `HeaderMap::insert` of a name and a value built with
/// `HeaderName::from_static` and `HeaderValue::from_static`. Claims the
/// documented behaviour: a known name keeps its place and the new value
/// replaces all of its values; a new name is added after the others (as
/// `try_insert_entry` pushes it). The two constructors panic on text
/// outside the alphabets that `requires` states, and the map panics past
/// its size limit, which the name count keeps away from.
#[verifier::external_body]
fn header_map_insert_static(m: &mut HeaderMap, name: &'static str, value: &'static str)
    requires
        is_lowercase_header_name(name@),
        name@.len() < 65536,
        is_visible_ascii_text(value@),
        name_count(header_fields(*old(m))) < APPEND_SAFE_NAMES,
    ensures
        header_fields(*final(m)) == field_insert(
            header_fields(*old(m)),
            (name@, ascii_bytes(value@)),
        ),
{
    m.insert(HeaderName::from_static(name), HeaderValue::from_static(value));
}

/// Name of the header that turns off response buffering in proxies.
pub const ACCEL_BUFFERING: &'static str = "x-accel-buffering";

/// Name of the cache-control header.
pub const CACHE_CONTROL: &'static str = "cache-control";

/// `x-accel-buffering` value on a streamed response.
pub const ACCEL_BUFFERING_OFF: &'static str = "no";

/// `cache-control` value on a streamed response.
pub const CACHE_CONTROL_STREAM: &'static str = "no-transform, no-cache";

/// The fields of streamed-response headers after SSE hygiene.
pub open spec fn sse_hygiene_fields(s: Seq<Field>) -> Seq<Field> {
    field_insert(
        field_insert(s, (ACCEL_BUFFERING@, ascii_bytes(ACCEL_BUFFERING_OFF@))),
        (CACHE_CONTROL@, ascii_bytes(CACHE_CONTROL_STREAM@)),
    )
}

/// SSE hygiene on the headers of a streamed response: no intermediary may
/// buffer or transform it (`x-accel-buffering: no`,
/// `cache-control: no-transform, no-cache`, each replacing any value the
/// upstream sent).
pub fn add_sse_hygiene_headers(headers: &mut HeaderMap)
    requires
        name_count(header_fields(*old(headers))) + 1 < APPEND_SAFE_NAMES,
    ensures
        header_fields(*final(headers)) == sse_hygiene_fields(header_fields(*old(headers))),
        name_count(header_fields(*final(headers))) <= name_count(header_fields(*old(headers))) + 2,
{
    proof {
        reveal_strlit("x-accel-buffering");
        reveal_strlit("cache-control");
        reveal_strlit("no");
        reveal_strlit("no-transform, no-cache");
    }
    let ghost s0 = header_fields(*headers);
    header_map_insert_static(headers, ACCEL_BUFFERING, ACCEL_BUFFERING_OFF);
    proof {
        lemma_insert_name_count(s0, (ACCEL_BUFFERING@, ascii_bytes(ACCEL_BUFFERING_OFF@)));
    }
    let ghost s1 = header_fields(*headers);
    header_map_insert_static(headers, CACHE_CONTROL, CACHE_CONTROL_STREAM);
    proof {
        lemma_insert_name_count(s1, (CACHE_CONTROL@, ascii_bytes(CACHE_CONTROL_STREAM@)));
    }
}

/// What SSE hygiene does to each header: `x-accel-buffering` and
/// `cache-control` end up with exactly their streaming values, and every
/// other header keeps exactly the values it had, in order.
pub proof fn lemma_sse_hygiene(s: Seq<Field>, n: Seq<char>)
    ensures
        values_of(sse_hygiene_fields(s), ACCEL_BUFFERING@) == seq![ascii_bytes(ACCEL_BUFFERING_OFF@)],
        values_of(sse_hygiene_fields(s), CACHE_CONTROL@) == seq![ascii_bytes(CACHE_CONTROL_STREAM@)],
        n != ACCEL_BUFFERING@ && n != CACHE_CONTROL@ ==> values_of(sse_hygiene_fields(s), n)
            == values_of(s, n),
{
    reveal_strlit("x-accel-buffering");
    reveal_strlit("cache-control");
    let a = (ACCEL_BUFFERING@, ascii_bytes(ACCEL_BUFFERING_OFF@));
    let c = (CACHE_CONTROL@, ascii_bytes(CACHE_CONTROL_STREAM@));
    let s1 = field_insert(s, a);
    assert(ACCEL_BUFFERING@ != CACHE_CONTROL@) by {
        assert(ACCEL_BUFFERING@.len() != CACHE_CONTROL@.len());
    }
    lemma_insert_values(s, a, n);
    lemma_insert_values(s1, c, n);
    lemma_insert_values(s1, c, ACCEL_BUFFERING@);
}


// ---------------------------------------------------------------------
// What forwarding and snapshots keep
// ---------------------------------------------------------------------

/// Forwarding keeps every value of every header that is not hop-by-hop,
/// in order (multi-valued headers such as `set-cookie` lose none), and
/// forwards no value of a hop-by-hop header.
pub proof fn lemma_forwarding_values(s: Seq<Field>, n: Seq<char>)
    ensures
        values_of(forwardable_fields(s), n) == if is_hop_by_hop_name(n) {
            Seq::<Seq<u8>>::empty()
        } else {
            values_of(s, n)
        },
    decreases s.len(),
{
    let p = |f: Field| forwardable_field(f);
    if s.len() == 0 {
        reveal(Seq::filter);
    } else {
        let q = s.drop_last();
        lemma_forwarding_values(q, n);
        assert(q.push(s.last()) == s);
        q.lemma_filter_push(s.last(), p);
        let fq = forwardable_fields(q);
        assert(fq.push(s.last()).drop_last() == fq);
    }
}

/// No forwarded field is hop-by-hop.
pub proof fn lemma_forwarded_not_hop_by_hop(s: Seq<Field>, i: int)
    requires
        0 <= i < forwardable_fields(s).len(),
    ensures
        !is_hop_by_hop_name(forwardable_fields(s)[i].0),
{
    let p = |f: Field| forwardable_field(f);
    s.lemma_filter_pred(p, i);
}

/// Adding a field never redacts or un-redacts an entry: every entry of a
/// scrubbed name reads `[REDACTED]`, and entries name distinct headers.
proof fn lemma_snapshot_add_keeps(acc: Seq<(Seq<char>, Seq<char>)>, f: Field)
    requires
        forall|k: int|
            0 <= k < acc.len() && is_scrubbed_name(#[trigger] acc[k].0) ==> acc[k].1 == REDACTED@,
        forall|j: int, k: int| 0 <= j < k < acc.len() ==> #[trigger] acc[j].0 != #[trigger] acc[k].0,
    ensures
        ({
            let r = snapshot_add(acc, f);
            &&& forall|k: int|
                0 <= k < r.len() && is_scrubbed_name(#[trigger] r[k].0) ==> r[k].1 == REDACTED@
            &&& forall|j: int, k: int| 0 <= j < k < r.len() ==> #[trigger] r[j].0 != #[trigger] r[k].0
        }),
{
    lemma_entry_index(acc, f.0);
    let k = entry_index(acc, f.0);
    if k < 0 {
        assert forall|j: int| 0 <= j < acc.len() implies #[trigger] acc[j].0 != f.0 by {
            lemma_entry_index_absent(acc, f.0, j);
        }
    }
}

/// When no entry is found, no entry has the name.
proof fn lemma_entry_index_absent(acc: Seq<(Seq<char>, Seq<char>)>, n: Seq<char>, j: int)
    requires
        entry_index(acc, n) < 0,
        0 <= j < acc.len(),
    ensures
        acc[j].0 != n,
    decreases acc.len(),
{
    if j < acc.len() - 1 {
        lemma_entry_index_absent(acc.drop_last(), n, j);
    }
}

/// A trace's header snapshot never holds the value of a credential-bearing
/// header: every entry of such a header reads `[REDACTED]`, however many
/// values it had. Each header appears in one entry only.
pub proof fn lemma_snapshot_redacts(fields: Seq<Field>)
    ensures
        ({
            let snap = header_snapshot(fields);
            &&& forall|k: int|
                0 <= k < snap.len() && is_scrubbed_name(#[trigger] snap[k].0) ==> snap[k].1
                    == REDACTED@
            &&& forall|j: int, k: int|
                0 <= j < k < snap.len() ==> #[trigger] snap[j].0 != #[trigger] snap[k].0
        }),
    decreases fields.len(),
{
    if fields.len() > 0 {
        lemma_snapshot_redacts(fields.drop_last());
        lemma_snapshot_add_keeps(header_snapshot(fields.drop_last()), fields.last());
    }
}

/// Every entry of a snapshot names a header that one of the fields has.
proof fn lemma_snapshot_names(fields: Seq<Field>, k: int)
    requires
        0 <= k < header_snapshot(fields).len(),
    ensures
        has_name(fields, header_snapshot(fields)[k].0),
    decreases fields.len(),
{
    let p = fields.drop_last();
    let acc = header_snapshot(p);
    let f = fields.last();
    lemma_entry_index(acc, f.0);
    lemma_has_name_last(fields, header_snapshot(fields)[k].0);
    if k < acc.len() {
        if acc[k].0 != f.0 {
            lemma_snapshot_names(p, k);
        }
    }
}

/// The header snapshot of forwarded headers never names a hop-by-hop
/// header (such as `proxy-authorization`): those are removed before the
/// snapshot is taken.
pub proof fn lemma_forwarded_snapshot_has_no_hop_by_hop(s: Seq<Field>, k: int)
    requires
        0 <= k < header_snapshot(forwardable_fields(s)).len(),
    ensures
        !is_hop_by_hop_name(header_snapshot(forwardable_fields(s))[k].0),
{
    let fwd = forwardable_fields(s);
    lemma_snapshot_names(fwd, k);
    let i = choose|i: int| 0 <= i < fwd.len() && #[trigger] fwd[i].0 == header_snapshot(fwd)[k].0;
    lemma_forwarded_not_hop_by_hop(s, i);
}

/// [`add_sse_hygiene_headers`] for any map: applied when the map has room
/// for the two names (`true`), the map left unchanged otherwise (`false`).
pub fn try_add_sse_hygiene_headers(headers: &mut HeaderMap) -> (applied: bool)
    ensures
        applied == (name_count(header_fields(*old(headers))) + 1 < APPEND_SAFE_NAMES),
        applied ==> header_fields(*final(headers)) == sse_hygiene_fields(
            header_fields(*old(headers)),
        ),
        !applied ==> *final(headers) == *old(headers),
{
    if header_name_count(headers) < APPEND_SAFE_NAMES as usize - 1 {
        add_sse_hygiene_headers(headers);
        true
    } else {
        false
    }
}

/// Exactly eleven header names are never forwarded, in any ASCII case:
/// connection, keep-alive, proxy-authenticate, proxy-authorization,
/// proxy-connection, te, trailers, transfer-encoding, upgrade, host and
/// content-length. Every value of every other header (credentials such as
/// `authorization` or `api-key` included) is forwarded, in order; no value
/// of a listed one is.
pub proof fn lemma_only_listed_headers_dropped(s: Seq<Field>, n: Seq<char>)
    ensures
        ({
            let l = ascii_lowercase(n);
            let listed = l == "connection"@ || l == "keep-alive"@ || l == "proxy-authenticate"@ || l
                == "proxy-authorization"@ || l == "proxy-connection"@ || l == "te"@ || l
                == "trailers"@ || l == "transfer-encoding"@ || l == "upgrade"@ || l == "host"@ || l
                == "content-length"@;
            &&& !listed ==> values_of(forwardable_fields(s), n) == values_of(s, n)
            &&& listed ==> values_of(forwardable_fields(s), n) == Seq::<Seq<u8>>::empty()
        }),
{
    lemma_forwarding_values(s, n);
}

} // verus!
