//! JSON text read and written by `serde_json`.

use vstd::prelude::*;
use serde_json::Value;
use crate::json::{JsonValue, JsonView, doc_view, integral};

verus! {

/// The error `serde_json` reports when it cannot read or write a value.
#[verifier::external_type_specification]
#[verifier::external_body]
pub struct ExJsonError(serde_json::Error);

/// A document as `serde_json` holds it.
#[verifier::external_type_specification]
#[verifier::external_body]
pub struct ExJsonValue(serde_json::Value);

/// The document `serde_json::from_slice` reads from `input`, or `None`
/// when `input` is not JSON text.
pub uninterp spec fn json_text(input: Seq<u8>) -> Option<JsonValue>;

/// The compact JSON text `serde_json::to_vec` writes for the document `d`.
pub uninterp spec fn json_document(d: JsonView) -> Seq<u8>;

/// Moves a document read by `serde_json` into the library's value, one
/// variant for the other; a number goes to the first of `PosInt`,
/// `NegInt` and `Float` that holds it. Nothing is stated of it here:
/// `parse_json`, which calls it, names its whole result.
#[verifier::external_body]
fn document_of(v: Value) -> JsonValue {
    match v {
        Value::Null => JsonValue::Null,
        Value::Bool(b) => JsonValue::Bool(b),
        Value::Number(n) => match (n.as_u64(), n.as_i64()) {
            (Some(u), _) => JsonValue::PosInt(u),
            (None, Some(i)) => JsonValue::NegInt(i),
            (None, None) => JsonValue::Float,
        },
        Value::String(s) => JsonValue::Str(s),
        Value::Array(a) => JsonValue::Array(a.into_iter().map(document_of).collect()),
        Value::Object(m) => JsonValue::Object(m.into_iter().map(|(k, x)| (k, document_of(x))).collect()),
    }
}

/// Moves a document of the library into `serde_json`'s value, one variant
/// for the other (a number with a fraction, whose value is not kept,
/// becomes `null`). Nothing is stated of it here: `encode_json`, which
/// calls it, names its whole result.
#[verifier::external_body]
fn value_of(v: &JsonValue) -> Value {
    match v {
        JsonValue::Null | JsonValue::Float => Value::Null,
        JsonValue::Bool(b) => Value::Bool(*b),
        JsonValue::PosInt(n) => Value::from(*n),
        JsonValue::NegInt(n) => Value::from(*n),
        JsonValue::Str(s) => Value::String(s.clone()),
        JsonValue::Array(a) => Value::Array(a.iter().map(value_of).collect()),
        JsonValue::Object(m) => Value::Object(m.iter().map(|(k, x)| (k.clone(), value_of(x))).collect()),
    }
}

/// Calls `serde_json::from_slice` for a `serde_json::Value` on `input`.
/// Claimed: the outcome depends on the bytes of `input` alone, and is
/// named `json_text` of them (`None` where `serde_json` reports an error).
#[verifier::external_body]
pub(crate) fn parse_json(input: &[u8]) -> (r: Option<JsonValue>)
    ensures
        r == json_text(input@),
{
    serde_json::from_slice::<Value>(input).ok().map(document_of)
}

/// Calls `serde_json::to_vec` on the document `v`. Claimed: it succeeds
/// (it writes into a `Vec<u8>`, which cannot fail, and a document of
/// strings, booleans, integers, arrays and objects reports no error of its
/// own), and the bytes depend on the view of `v` alone and are named
/// `json_document` of it.
#[verifier::external_body]
fn encode_json(v: &JsonValue) -> (r: Result<Vec<u8>, serde_json::Error>)
    requires
        integral(doc_view(*v)),
    ensures
        r is Ok,
        r matches Ok(b) ==> b@ == json_document(doc_view(*v)),
{
    serde_json::to_vec(&value_of(v))
}

/// The compact JSON text of a document that holds no fractional number.
pub fn encode_document(v: &JsonValue) -> (b: Vec<u8>)
    requires
        integral(doc_view(*v)),
    ensures
        b@ == json_document(doc_view(*v)),
{
    match encode_json(v) {
        Ok(b) => b,
        Err(_) => Vec::new(),
    }
}

} // verus!
