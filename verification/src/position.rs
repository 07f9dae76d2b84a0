//! The coordinate-position representation: a type parameter of the whole
//! typed model, so that users pick how positions are held in memory.

use vstd::prelude::*;
use crate::json::{JsonModel, JsonValue};

verus! {

/// A coordinate position: the payload of the `"coordinates"` member of a
/// geometry. The typed model is generic over it; each implementation chooses
/// its own memory form and owns its JSON encoding.
///
/// `encoded` is the JSON shape of a position; it identifies positions for the
/// purposes of every contract here, so two positions with the same encoding
/// are interchangeable. `from_json` must accept every value in the image of
/// `encoded` and must return only positions that encode back to its input.
pub trait Position: Sized {
    /// The JSON shape of this position.
    spec fn encoded(self) -> JsonModel;

    /// Converts the position into its JSON form.
    fn into_json(self) -> (r: JsonValue)
        ensures
            r@ == self.encoded(),
    ;

    /// Reads a position back from its JSON form; hands the value back when it
    /// is not one.
    fn from_json(v: JsonValue) -> (r: Result<Self, JsonValue>)
        ensures
            r matches Ok(p) ==> p.encoded() == v@,
            r matches Err(w) ==> w == v,
            (exists|p: Self| p.encoded() == v@) ==> r is Ok,
    ;

    /// A fresh position with the same JSON shape.
    fn duplicate(&self) -> (r: Self)
        ensures
            r.encoded() == (*self).encoded(),
    ;
}

/// Whether `m` is the JSON shape of some position of type `P`.
pub open spec fn is_position_encoding<P: Position>(m: JsonModel) -> bool {
    exists|p: P| p.encoded() == m
}

/// A position kept in its raw JSON form: lossless and shape-agnostic, for
/// callers that defer coordinate validation to their own layer.
#[derive(Debug, PartialEq)]
pub struct JsonPosition {
    pub value: JsonValue,
}

impl Position for JsonPosition {
    open spec fn encoded(self) -> JsonModel {
        self.value@
    }

    fn into_json(self) -> (r: JsonValue) {
        self.value
    }

    fn from_json(v: JsonValue) -> (r: Result<Self, JsonValue>) {
        let p = JsonPosition { value: v };
        proof {
            assert(p.encoded() == p.value@);
        }
        Ok(p)
    }

    fn duplicate(&self) -> (r: JsonPosition) {
        JsonPosition { value: self.value.clone() }
    }
}

} // verus!
