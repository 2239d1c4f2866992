//! What the proxy reads out of JSON bodies: the model name of a request and
//! the OpenAI-style token usage of a response.
//!
//! Parsing is done by `serde_json`; its `Value` is carried through as an
//! opaque value whose contents are modelled by [`JsonTree`].

use vstd::prelude::*;

use crate::trace::TokenUsage;

verus! {

#[verifier::external_type_specification]
#[verifier::external_body]
pub struct ExJsonValue(serde_json::Value);

/// A JSON value as `serde_json` holds it. Numbers are kept as `serde_json`
/// classifies them: non-negative integers, negative integers, and floats
/// (whose value the proxy never reads).
pub enum JsonTree {
    Null,
    Bool(bool),
    PosInt(u64),
    NegInt(i64),
    Float,
    Str(Seq<char>),
    Array(Seq<JsonTree>),
    Object(Map<Seq<char>, JsonTree>),
}

/// The contents of a `serde_json::Value`.
pub uninterp spec fn json_tree(v: serde_json::Value) -> JsonTree;

/// What `serde_json::from_slice::<Value>` gives for some bytes: the document,
/// or `None` when they are not one JSON text.
pub uninterp spec fn json_parse(bytes: Seq<u8>) -> Option<JsonTree>;

/// Calls `serde_json::from_slice::<serde_json::Value>`, the error dropped.
/// Claims that the value (or its absence) is the named one, and that empty
/// input is no document (`deserialize_any` fails with
/// `EofWhileParsingValue` when no byte is left).
#[verifier::external_body]
fn json_from_slice(bytes: &[u8]) -> (r: Option<serde_json::Value>)
    ensures
        match json_parse(bytes@) {
            Some(t) => r matches Some(v) && json_tree(v) == t,
            None => r is None,
        },
        bytes@.len() == 0 ==> r is None,
{
    serde_json::from_slice::<serde_json::Value>(bytes).ok()
}

/// The member `key` of an object, if it is an object with that key
/// (`Value::get` with a string index).
pub open spec fn member(t: JsonTree, key: Seq<char>) -> Option<JsonTree> {
    match t {
        JsonTree::Object(m) => if m.dom().contains(key) {
            Some(m[key])
        } else {
            None
        },
        _ => None,
    }
}

/// Calls `Value::get` with a string key. Claims the documented behaviour:
/// the member of an object, `None` for a missing key or a non-object.
#[verifier::external_body]
fn json_get<'a>(v: &'a serde_json::Value, key: &str) -> (r: Option<&'a serde_json::Value>)
    ensures
        match member(json_tree(*v), key@) {
            Some(t) => r matches Some(x) && json_tree(*x) == t,
            None => r is None,
        },
{
    v.get(key)
}

/// The text of a JSON string.
pub open spec fn as_text(t: JsonTree) -> Option<Seq<char>> {
    match t {
        JsonTree::Str(s) => Some(s),
        _ => None,
    }
}

/// Calls `Value::as_str`, converting the text to a `String`. Claims the
/// documented behaviour: `Some` exactly for a string.
#[verifier::external_body]
fn json_as_str(v: &serde_json::Value) -> (r: Option<String>)
    ensures
        match as_text(json_tree(*v)) {
            Some(s) => r matches Some(x) && x@ == s,
            None => r is None,
        },
{
    match v.as_str() {
        Some(s) => Some(s.to_string()),
        None => None,
    }
}

/// The value of a JSON number that `as_u64` represents.
pub open spec fn as_unsigned(t: JsonTree) -> Option<u64> {
    match t {
        JsonTree::PosInt(n) => Some(n),
        _ => None,
    }
}

/// Calls `Value::as_u64`. Claims the source's behaviour: `Some` exactly for
/// a non-negative integer.
#[verifier::external_body]
fn json_as_u64(v: &serde_json::Value) -> (r: Option<u64>)
    ensures
        r == as_unsigned(json_tree(*v)),
{
    v.as_u64()
}

/// The `model` string of a request body, when the body is a JSON object
/// whose `model` member is a string.
pub open spec fn model_of(body: Seq<u8>) -> Option<Seq<char>> {
    match json_parse(body) {
        Some(doc) => match member(doc, "model"@) {
            Some(m) => as_text(m),
            None => None,
        },
        None => None,
    }
}

/// Extract the model name from a JSON request body if present.
pub fn extract_model(body: &[u8]) -> (r: Option<String>)
    ensures
        match model_of(body@) {
            Some(s) => r matches Some(x) && x@ == s,
            None => r is None,
        },
        body@.len() == 0 ==> r is None,
{
    let doc = match json_from_slice(body) {
        Some(d) => d,
        None => {
            return None;
        },
    };
    let m = match json_get(&doc, "model") {
        Some(m) => m,
        None => {
            return None;
        },
    };
    json_as_str(m)
}

/// A member of `t` as an unsigned integer.
pub open spec fn member_u64(t: JsonTree, key: Seq<char>) -> Option<u64> {
    match member(t, key) {
        Some(m) => as_unsigned(m),
        None => None,
    }
}

/// The token usage a response body reports: present when the body is a
/// JSON object with a `usage` member; each count is that member's
/// `prompt_tokens` / `completion_tokens` / `total_tokens` when it is a
/// non-negative integer.
pub open spec fn usage_of(body: Seq<u8>) -> Option<TokenUsage> {
    match json_parse(body) {
        Some(doc) => match member(doc, "usage"@) {
            Some(u) => Some(
                TokenUsage {
                    input_tokens: member_u64(u, "prompt_tokens"@),
                    output_tokens: member_u64(u, "completion_tokens"@),
                    total_tokens: member_u64(u, "total_tokens"@),
                },
            ),
            None => None,
        },
        None => None,
    }
}

/// A member of a value as an unsigned integer.
fn get_u64(v: &serde_json::Value, key: &str) -> (r: Option<u64>)
    ensures
        r == member_u64(json_tree(*v), key@),
{
    match json_get(v, key) {
        Some(x) => json_as_u64(x),
        None => None,
    }
}

/// Parse the OpenAI-style `usage` member of a JSON response body.
pub fn extract_token_usage(body: &[u8]) -> (r: Option<TokenUsage>)
    ensures
        r == usage_of(body@),
        body@.len() == 0 ==> r is None,
{
    let doc = match json_from_slice(body) {
        Some(d) => d,
        None => {
            return None;
        },
    };
    let usage = match json_get(&doc, "usage") {
        Some(u) => u,
        None => {
            return None;
        },
    };
    Some(
        TokenUsage {
            input_tokens: get_u64(usage, "prompt_tokens"),
            output_tokens: get_u64(usage, "completion_tokens"),
            total_tokens: get_u64(usage, "total_tokens"),
        },
    )
}

} // verus!
