//! The executor's parsing half. The network call itself lives outside the
//! library; the response body it hands back is parsed here, behind a small
//! trusted boundary around serde_json, and any malformed body is fatal.

use vstd::prelude::*;

use crate::ScanError;
use crate::json::JsonValue;

verus! {

/// The serde_json document type, declared so the conversion wrapper below
/// can take it; the library never looks inside a value of it.
#[verifier::external_type_specification]
#[verifier::external_body]
pub struct ExSerdeValue(serde_json::Value);

/// What parsing a given response body yields, carried over into the
/// library's own document type: `None` when the body is not well-formed
/// JSON, otherwise the parsed tree. The outcome is a function of the body
/// text alone.
pub uninterp spec fn parse_of(s: Seq<char>) -> Option<JsonValue>;

/// Relies on serde_json::Value being a finite tree of the six JSON value
/// kinds; each arm carries one kind over into the library's own document
/// type, numbers by way of serde_json::Number's canonical decimal text.
#[verifier::external_body]
fn tree_of_value(v: serde_json::Value) -> JsonValue {
    match v {
        serde_json::Value::Null => JsonValue::Null,
        serde_json::Value::Bool(b) => JsonValue::Bool(b),
        serde_json::Value::Number(n) => JsonValue::Number(n.to_string()),
        serde_json::Value::String(s) => JsonValue::Text(s),
        serde_json::Value::Array(a) => JsonValue::Array(
            a.into_iter().map(tree_of_value).collect(),
        ),
        serde_json::Value::Object(m) => JsonValue::Object(
            m.into_iter().map(|(k, w)| (k, tree_of_value(w))).collect(),
        ),
    }
}

/// Relies on serde_json::from_str::<serde_json::Value>: it parses exactly
/// the well-formed JSON texts, deterministically from the text alone, and
/// rejects everything else with an error.
#[verifier::external_body]
fn parse_document(body: &str) -> (r: Option<JsonValue>)
    ensures
        r == parse_of(body@),
{
    match serde_json::from_str::<serde_json::Value>(body) {
        Ok(v) => Some(tree_of_value(v)),
        Err(_) => None,
    }
}

/// Parses the remote response body. A body that is not well-formed JSON is
/// fatal for the scan and surfaces as a remote-call failure; a well-formed
/// one yields the document for the navigator.
pub fn parse_response(body: &str) -> (r: Result<JsonValue, ScanError>)
    ensures
        match parse_of(body@) {
            Some(doc) => r == Ok::<JsonValue, ScanError>(doc),
            None => r == Err::<JsonValue, ScanError>(ScanError::RemoteCallError),
        },
{
    match parse_document(body) {
        Some(doc) => Ok(doc),
        None => Err(ScanError::RemoteCallError),
    }
}

} // verus!
