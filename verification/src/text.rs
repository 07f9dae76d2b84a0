//! The textual boundary: parsing and printing JSON text is serde_json's job,
//! reached only through the trusted items of this module. Everything above it
//! works on the crate's own [`JsonValue`] tree.

use vstd::prelude::*;
use crate::json::{JsonModel, JsonValue, JsonObject};

verus! {

/// serde_json's own value tree, carried opaquely between its parser or
/// printer and the translation into this crate's tree.
#[verifier::external_type_specification]
#[verifier::external_body]
pub struct ExValue(serde_json::Value);

/// serde_json's error type, as returned by its parser and printer.
#[verifier::external_type_specification]
#[verifier::external_body]
pub struct ExJsonError(serde_json::Error);

/// What parsing a text yields: `None` when the text is not valid JSON,
/// otherwise the one JSON value it denotes (objects with their members in
/// serde_json's key order). Parsing is a function of the text alone.
pub uninterp spec fn json_parse(s: Seq<char>) -> Option<JsonModel>;

/// What printing a JSON value yields. Printing is a function of the value
/// alone.
pub uninterp spec fn rendered(m: JsonModel) -> Seq<char>;

/// Translates serde_json's tree into this crate's tree, node for node.
/// Relies on the shape of serde_json::Value: its six variants are exactly the
/// six node kinds of JSON.
#[verifier::external_body]
fn decode_value(v: serde_json::Value) -> (r: JsonValue) {
    match v {
        serde_json::Value::Null => JsonValue::Null,
        serde_json::Value::Bool(b) => JsonValue::Bool(b),
        serde_json::Value::Number(n) => JsonValue::Number(n),
        serde_json::Value::String(s) => JsonValue::String(s),
        serde_json::Value::Array(a) => JsonValue::Array(
            a.into_iter().map(decode_value).collect(),
        ),
        serde_json::Value::Object(m) => JsonValue::Object(JsonObject {
            entries: m.into_iter().map(|p| (p.0, decode_value(p.1))).collect(),
        }),
    }
}

/// Translates this crate's tree into serde_json's, node for node.
#[verifier::external_body]
fn encode_value(v: &JsonValue) -> (r: serde_json::Value) {
    match v {
        JsonValue::Null => serde_json::Value::Null,
        JsonValue::Bool(b) => serde_json::Value::Bool(*b),
        JsonValue::Number(n) => serde_json::Value::Number(n.clone()),
        JsonValue::String(s) => serde_json::Value::String(s.clone()),
        JsonValue::Array(a) => serde_json::Value::Array(a.iter().map(encode_value).collect()),
        JsonValue::Object(o) => serde_json::Value::Object(
            o.entries.iter().map(|p| (p.0.clone(), encode_value(&p.1))).collect(),
        ),
    }
}

/// Relies on serde_json::from_str: it parses a text into a JSON tree exactly
/// when the text is valid JSON, deterministically.
#[verifier::external_body]
pub fn parse_json(s: &str) -> (r: Result<JsonValue, serde_json::Error>)
    ensures
        r matches Ok(v) ==> json_parse(s@) == Some(v@),
        r is Err <==> json_parse(s@) is None,
{
    match serde_json::from_str::<serde_json::Value>(s) {
        Ok(v) => Ok(decode_value(v)),
        Err(e) => Err(e),
    }
}

/// Relies on serde_json::to_string: it prints a JSON tree deterministically,
/// and it succeeds on every such tree — its only documented error sources are
/// a failing Serialize impl and maps with non-string keys, and serde_json's
/// own value tree has neither.
#[verifier::external_body]
pub fn render_json(v: &JsonValue) -> (r: Result<String, serde_json::Error>)
    ensures
        r is Ok,
        r matches Ok(t) ==> t@ == rendered(v@),
{
    serde_json::to_string(&encode_value(v))
}

/// Relies on serde_json::from_reader: it reads and parses one JSON value
/// from a byte stream. What the stream holds is outside data, so nothing
/// relates the result to the arguments.
#[verifier::external_body]
pub fn read_json<R: std::io::Read>(rdr: R) -> (r: Result<JsonValue, serde_json::Error>) {
    match serde_json::from_reader::<R, serde_json::Value>(rdr) {
        Ok(v) => Ok(decode_value(v)),
        Err(e) => Err(e),
    }
}

/// Relies on serde_json::Error's serde::de::Error impl: `custom` makes an
/// error value carrying the given message.
#[verifier::external_body]
pub fn custom_error(msg: &str) -> (r: serde_json::Error) {
    <serde_json::Error as serde::de::Error>::custom(msg)
}

} // verus!
