//! The failure kinds a conversion can report, and their mathematical model.

use vstd::prelude::*;
use crate::json::{JsonModel, JsonValue};

verus! {

/// Everything a conversion in this crate can fail with. Failures found while
/// reading a sub-structure carry the offending value back to the caller.
#[derive(Debug)]
pub enum GeoJsonError {
    /// The `"type"` member is missing or is not a string; carries the key
    /// name that was looked for.
    GeometryUnknownType(String),
    /// The `"type"` member is a string, but not one of the nine recognised
    /// tags.
    EmptyType,
    /// The top-level JSON value handed in is not an object.
    GeoJsonExpectedObject(JsonValue),
    /// The parsed text's top-level value is not an object.
    ExpectedObjectValue(JsonValue),
    /// The text is not valid JSON at all; carries the parser's error.
    MalformedJson(serde_json::Error),
    /// A union value was narrowed to a variant it does not hold.
    ExpectedType { expected: String, actual: String },
    /// A required member is missing; carries its key.
    ExpectedProperty(String),
    /// A member that must be an array is something else.
    ExpectedArray(JsonValue),
    /// A value that must be an object is something else.
    ExpectedObject(JsonValue),
    /// A coordinates entry is not a position in the chosen representation.
    InvalidPosition(JsonValue),
    /// A feature's `"id"` is neither a string nor a number.
    InvalidIdentifier(JsonValue),
    /// A feature's `"properties"` is neither an object nor null.
    InvalidProperties(JsonValue),
    /// A `"bbox"` member is not an array of numbers.
    InvalidBbox(JsonValue),
}

/// The model of a [`GeoJsonError`]: strings as character sequences, payloads as
/// JSON models. The parse error inside `MalformedJson` is outside data and is
/// not part of the model.
pub enum ErrorModel {
    GeometryUnknownType(Seq<char>),
    EmptyType,
    GeoJsonExpectedObject(JsonModel),
    ExpectedObjectValue(JsonModel),
    MalformedJson,
    ExpectedType { expected: Seq<char>, actual: Seq<char> },
    ExpectedProperty(Seq<char>),
    ExpectedArray(JsonModel),
    ExpectedObject(JsonModel),
    InvalidPosition(JsonModel),
    InvalidIdentifier(JsonModel),
    InvalidProperties(JsonModel),
    InvalidBbox(JsonModel),
}

impl View for GeoJsonError {
    type V = ErrorModel;

    open spec fn view(&self) -> ErrorModel {
        match *self {
            GeoJsonError::GeometryUnknownType(ref k) => ErrorModel::GeometryUnknownType(k@),
            GeoJsonError::EmptyType => ErrorModel::EmptyType,
            GeoJsonError::GeoJsonExpectedObject(ref v) => ErrorModel::GeoJsonExpectedObject(v@),
            GeoJsonError::ExpectedObjectValue(ref v) => ErrorModel::ExpectedObjectValue(v@),
            GeoJsonError::MalformedJson(_) => ErrorModel::MalformedJson,
            GeoJsonError::ExpectedType { ref expected, ref actual } => ErrorModel::ExpectedType {
                expected: expected@,
                actual: actual@,
            },
            GeoJsonError::ExpectedProperty(ref k) => ErrorModel::ExpectedProperty(k@),
            GeoJsonError::ExpectedArray(ref v) => ErrorModel::ExpectedArray(v@),
            GeoJsonError::ExpectedObject(ref v) => ErrorModel::ExpectedObject(v@),
            GeoJsonError::InvalidPosition(ref v) => ErrorModel::InvalidPosition(v@),
            GeoJsonError::InvalidIdentifier(ref v) => ErrorModel::InvalidIdentifier(v@),
            GeoJsonError::InvalidProperties(ref v) => ErrorModel::InvalidProperties(v@),
            GeoJsonError::InvalidBbox(ref v) => ErrorModel::InvalidBbox(v@),
        }
    }
}

/// The description each failure kind is reported with.
pub open spec fn error_message(e: ErrorModel) -> Seq<char> {
    match e {
        ErrorModel::GeometryUnknownType(_) => "missing or non-string type member"@,
        ErrorModel::EmptyType => "unrecognized type tag"@,
        ErrorModel::GeoJsonExpectedObject(_) => "expected a JSON object"@,
        ErrorModel::ExpectedObjectValue(_) => "expected the parsed text to hold an object"@,
        ErrorModel::MalformedJson => "malformed JSON text"@,
        ErrorModel::ExpectedType { .. } => "narrowed to a variant the value does not hold"@,
        ErrorModel::ExpectedProperty(_) => "a required member is missing"@,
        ErrorModel::ExpectedArray(_) => "expected an array"@,
        ErrorModel::ExpectedObject(_) => "expected an object"@,
        ErrorModel::InvalidPosition(_) => "invalid coordinates entry"@,
        ErrorModel::InvalidIdentifier(_) => "invalid feature identifier"@,
        ErrorModel::InvalidProperties(_) => "properties must be an object or null"@,
        ErrorModel::InvalidBbox(_) => "bbox must be an array of numbers"@,
    }
}

impl GeoJsonError {
    /// A short description of the failure kind, for reporting outside this
    /// crate.
    pub fn message(&self) -> (r: String)
        ensures
            r@ == error_message(self@),
    {
        let m: &str = match *self {
            GeoJsonError::GeometryUnknownType(_) => "missing or non-string type member",
            GeoJsonError::EmptyType => "unrecognized type tag",
            GeoJsonError::GeoJsonExpectedObject(_) => "expected a JSON object",
            GeoJsonError::ExpectedObjectValue(_) => "expected the parsed text to hold an object",
            GeoJsonError::MalformedJson(_) => "malformed JSON text",
            GeoJsonError::ExpectedType { .. } => "narrowed to a variant the value does not hold",
            GeoJsonError::ExpectedProperty(_) => "a required member is missing",
            GeoJsonError::ExpectedArray(_) => "expected an array",
            GeoJsonError::ExpectedObject(_) => "expected an object",
            GeoJsonError::InvalidPosition(_) => "invalid coordinates entry",
            GeoJsonError::InvalidIdentifier(_) => "invalid feature identifier",
            GeoJsonError::InvalidProperties(_) => "properties must be an object or null",
            GeoJsonError::InvalidBbox(_) => "bbox must be an array of numbers",
        };
        m.to_owned()
    }
}

} // verus!
