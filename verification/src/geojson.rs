//! The GeoJSON union: type-tag dispatch between geometries, features and
//! feature collections, and the conversions between JSON trees, text and the
//! typed model.

use vstd::prelude::*;
use crate::errors::{ErrorModel, GeoJsonError};
use crate::feature::{feature_from_object_model, feature_to_object_model, Feature, FeatureModel};
use crate::feature_collection::{
    feature_collection_from_object_model, feature_collection_to_object_model, FeatureCollection,
    FeatureCollectionModel,
};
use crate::geometry::{
    geometry_from_object_model, geometry_to_object_model, Geometry, GeometryModel,
};
use crate::json::{obj_lookup, JsonModel, JsonObject, JsonValue, ObjectModel, str_eq};
use crate::position::Position;
use crate::text::{custom_error, json_parse, parse_json, read_json, render_json, rendered};

verus! {

/// GeoJSON objects: a geometry, a feature, or a feature collection, as the
/// `"type"` tag of the source object says.
#[derive(Debug, PartialEq)]
pub enum GeoJson<P> {
    Geometry(Geometry<P>),
    Feature(Feature<P>),
    FeatureCollection(FeatureCollection<P>),
}

/// The model of a GeoJSON union value.
pub enum GeoJsonModel {
    Geometry(GeometryModel),
    Feature(FeatureModel),
    FeatureCollection(FeatureCollectionModel),
}

impl<P: Position> GeoJson<P> {
    /// The mathematical value of this union value.
    pub open spec fn model(self) -> GeoJsonModel {
        match self {
            GeoJson::Geometry(g) => GeoJsonModel::Geometry(g.model()),
            GeoJson::Feature(f) => GeoJsonModel::Feature(f.model()),
            GeoJson::FeatureCollection(c) => GeoJsonModel::FeatureCollection(c.model()),
        }
    }
}

impl<P: Position> View for GeoJson<P> {
    type V = GeoJsonModel;

    open spec fn view(&self) -> GeoJsonModel {
        (*self).model()
    }
}

/// The nine legal values of the `"type"` member.
#[derive(Debug, Clone, Copy, PartialEq, Eq, Structural)]
pub enum Type {
    Point,
    MultiPoint,
    LineString,
    MultiLineString,
    Polygon,
    MultiPolygon,
    GeometryCollection,
    Feature,
    FeatureCollection,
}

/// The tag named by `t`, if `t` is one of the nine recognised literals;
/// matching is exact and case-sensitive.
pub open spec fn type_from_str(t: Seq<char>) -> Option<Type> {
    if t == "Point"@ {
        Option::Some(Type::Point)
    } else if t == "MultiPoint"@ {
        Option::Some(Type::MultiPoint)
    } else if t == "LineString"@ {
        Option::Some(Type::LineString)
    } else if t == "MultiLineString"@ {
        Option::Some(Type::MultiLineString)
    } else if t == "Polygon"@ {
        Option::Some(Type::Polygon)
    } else if t == "MultiPolygon"@ {
        Option::Some(Type::MultiPolygon)
    } else if t == "GeometryCollection"@ {
        Option::Some(Type::GeometryCollection)
    } else if t == "Feature"@ {
        Option::Some(Type::Feature)
    } else if t == "FeatureCollection"@ {
        Option::Some(Type::FeatureCollection)
    } else {
        Option::None
    }
}

impl Type {
    /// Resolves a tag string against the nine recognised literals.
    pub fn from_str(s: &str) -> (r: Option<Type>)
        ensures
            r == type_from_str(s@),
    {
        if str_eq(s, "Point") {
            Option::Some(Type::Point)
        } else if str_eq(s, "MultiPoint") {
            Option::Some(Type::MultiPoint)
        } else if str_eq(s, "LineString") {
            Option::Some(Type::LineString)
        } else if str_eq(s, "MultiLineString") {
            Option::Some(Type::MultiLineString)
        } else if str_eq(s, "Polygon") {
            Option::Some(Type::Polygon)
        } else if str_eq(s, "MultiPolygon") {
            Option::Some(Type::MultiPolygon)
        } else if str_eq(s, "GeometryCollection") {
            Option::Some(Type::GeometryCollection)
        } else if str_eq(s, "Feature") {
            Option::Some(Type::Feature)
        } else if str_eq(s, "FeatureCollection") {
            Option::Some(Type::FeatureCollection)
        } else {
            Option::None
        }
    }
}

/// What converting a JSON object to a GeoJSON value yields: the resolver
/// reads the `"type"` tag and the matching constructor reads the object.
pub open spec fn geojson_from_object_model<P: Position>(o: ObjectModel) -> Result<
    GeoJsonModel,
    ErrorModel,
> {
    match obj_lookup(o, "type"@) {
        Option::Some(JsonModel::String(t)) => match type_from_str(t) {
            Option::None => Result::Err(ErrorModel::EmptyType),
            Option::Some(Type::Feature) => match feature_from_object_model::<P>(o) {
                Result::Ok(f) => Result::Ok(GeoJsonModel::Feature(f)),
                Result::Err(e) => Result::Err(e),
            },
            Option::Some(Type::FeatureCollection) => match feature_collection_from_object_model::<
                P,
            >(o) {
                Result::Ok(c) => Result::Ok(GeoJsonModel::FeatureCollection(c)),
                Result::Err(e) => Result::Err(e),
            },
            Option::Some(_) => match geometry_from_object_model::<P>(o) {
                Result::Ok(g) => Result::Ok(GeoJsonModel::Geometry(g)),
                Result::Err(e) => Result::Err(e),
            },
        },
        Option::Some(_) => Result::Err(ErrorModel::GeometryUnknownType("type"@)),
        Option::None => Result::Err(ErrorModel::GeometryUnknownType("type"@)),
    }
}

/// What converting an arbitrary JSON value yields: only objects convert.
pub open spec fn geojson_from_value_model<P: Position>(m: JsonModel) -> Result<
    GeoJsonModel,
    ErrorModel,
> {
    match m {
        JsonModel::Object(o) => geojson_from_object_model::<P>(o),
        _ => Result::Err(ErrorModel::GeoJsonExpectedObject(m)),
    }
}

/// What converting a text yields: the text must parse as JSON and hold an
/// object at top level.
pub open spec fn geojson_from_text_model<P: Position>(t: Seq<char>) -> Result<
    GeoJsonModel,
    ErrorModel,
> {
    match json_parse(t) {
        Option::None => Result::Err(ErrorModel::MalformedJson),
        Option::Some(JsonModel::Object(o)) => geojson_from_object_model::<P>(o),
        Option::Some(m) => Result::Err(ErrorModel::ExpectedObjectValue(m)),
    }
}

/// The JSON object a GeoJSON value converts to. Total: conversion back to
/// JSON cannot fail.
pub open spec fn geojson_to_object_model(m: GeoJsonModel) -> ObjectModel {
    match m {
        GeoJsonModel::Geometry(g) => geometry_to_object_model(g),
        GeoJsonModel::Feature(f) => feature_to_object_model(f),
        GeoJsonModel::FeatureCollection(c) => feature_collection_to_object_model(c),
    }
}

/// Parses a text as one JSON object: the entry point of the text-based
/// conversions. Fails with `MalformedJson` exactly on invalid JSON, and with
/// `ExpectedObjectValue` exactly when the text holds a non-object.
pub fn get_object(s: &str) -> (r: Result<JsonObject, GeoJsonError>)
    ensures
        r matches Ok(obj) ==> json_parse(s@) == Some(JsonModel::Object(obj@)),
        r matches Err(e) ==> match e@ {
            ErrorModel::MalformedJson => json_parse(s@) is None,
            ErrorModel::ExpectedObjectValue(m) => json_parse(s@) == Some(m) && !(m is Object),
            _ => false,
        },
{
    match parse_json(s) {
        Result::Ok(JsonValue::Object(obj)) => Result::Ok(obj),
        Result::Ok(other) => Result::Err(GeoJsonError::ExpectedObjectValue(other)),
        Result::Err(e) => Result::Err(GeoJsonError::MalformedJson(e)),
    }
}

impl<P: Position> GeoJson<P> {
    /// Converts a JSON object into a GeoJSON value: resolves the `"type"`
    /// tag, then dispatches to the matching constructor. Succeeds exactly
    /// when the object is a well-formed GeoJSON object of its tag's kind.
    pub fn from_json_object(object: JsonObject) -> (r: Result<GeoJson<P>, GeoJsonError>)
        ensures
            r matches Ok(g) ==> geojson_from_object_model::<P>(object@) == Ok::<
                GeoJsonModel,
                ErrorModel,
            >(g@),
            r matches Err(e) ==> geojson_from_object_model::<P>(object@) == Err::<
                GeoJsonModel,
                ErrorModel,
            >(e@),
    {
        let t: Option<Type> = match object.get("type") {
            Option::Some(v) => match v {
                JsonValue::String(s) => Type::from_str(s.as_str()),
                _ => {
                    return Result::Err(GeoJsonError::GeometryUnknownType("type".to_owned()));
                },
            },
            Option::None => {
                return Result::Err(GeoJsonError::GeometryUnknownType("type".to_owned()));
            },
        };
        match t {
            Option::None => Result::Err(GeoJsonError::EmptyType),
            Option::Some(Type::Feature) => match Feature::<P>::try_from(object) {
                Result::Ok(f) => Result::Ok(GeoJson::Feature(f)),
                Result::Err(e) => Result::Err(e),
            },
            Option::Some(Type::FeatureCollection) => match FeatureCollection::<P>::try_from(
                object,
            ) {
                Result::Ok(c) => Result::Ok(GeoJson::FeatureCollection(c)),
                Result::Err(e) => Result::Err(e),
            },
            Option::Some(_) => match Geometry::<P>::try_from(object) {
                Result::Ok(g) => Result::Ok(GeoJson::Geometry(g)),
                Result::Err(e) => Result::Err(e),
            },
        }
    }

    /// Converts a JSON value into a GeoJSON value; only objects convert, and
    /// anything else comes back inside `GeoJsonExpectedObject`.
    pub fn from_json_value(value: JsonValue) -> (r: Result<GeoJson<P>, GeoJsonError>)
        ensures
            r matches Ok(g) ==> geojson_from_value_model::<P>(value@) == Ok::<
                GeoJsonModel,
                ErrorModel,
            >(g@),
            r matches Err(e) ==> geojson_from_value_model::<P>(value@) == Err::<
                GeoJsonModel,
                ErrorModel,
            >(e@),
    {
        match value {
            JsonValue::Object(o) => Self::from_json_object(o),
            other => Result::Err(GeoJsonError::GeoJsonExpectedObject(other)),
        }
    }

    /// Loads a GeoJSON value from a text. Fails with `MalformedJson` exactly
    /// on invalid JSON and with `ExpectedObjectValue` exactly on a non-object
    /// top level.
    pub fn from_str(s: &str) -> (r: Result<GeoJson<P>, GeoJsonError>)
        ensures
            r matches Ok(g) ==> geojson_from_text_model::<P>(s@) == Ok::<
                GeoJsonModel,
                ErrorModel,
            >(g@),
            r matches Err(e) ==> geojson_from_text_model::<P>(s@) == Err::<
                GeoJsonModel,
                ErrorModel,
            >(e@),
    {
        match get_object(s) {
            Result::Ok(object) => Self::from_json_object(object),
            Result::Err(e) => Result::Err(e),
        }
    }

    /// Converts the value back into a JSON object. Total: every GeoJSON value
    /// has a JSON form.
    pub fn to_json_object(self) -> (r: JsonObject)
        ensures
            r@ == geojson_to_object_model(self@),
    {
        match self {
            GeoJson::Geometry(g) => g.to_json_object(),
            GeoJson::Feature(f) => f.to_json_object(),
            GeoJson::FeatureCollection(c) => c.to_json_object(),
        }
    }

    /// Converts the value into a JSON value of object kind. Total.
    pub fn to_json_value(self) -> (r: JsonValue)
        ensures
            r@ == JsonModel::Object(geojson_to_object_model(self@)),
    {
        let obj = self.to_json_object();
        JsonValue::Object(obj)
    }

    /// Renders the value as JSON text. Total in effect: rendering cannot
    /// fail, and the text is the rendering of the value's JSON object, so a
    /// re-parse reaches the same object.
    pub fn to_json_string(self) -> (r: Result<String, serde_json::Error>)
        ensures
            r is Ok,
            r matches Ok(t) ==> t@ == rendered(
                JsonModel::Object(geojson_to_object_model(self@)),
            ),
    {
        let v = self.to_json_value();
        render_json(&v)
    }

    /// Reads one GeoJSON document from a byte stream. What the stream holds
    /// is outside data, so success only promises a value some JSON object
    /// converts to.
    pub fn from_reader<R: std::io::Read>(rdr: R) -> (r: Result<GeoJson<P>, serde_json::Error>)
        ensures
            r matches Ok(g) ==> exists|o: ObjectModel|
                geojson_from_object_model::<P>(o) == Ok::<GeoJsonModel, ErrorModel>(g@),
    {
        match read_json(rdr) {
            Result::Ok(v) => {
                let ghost vm = v@;
                match Self::from_json_value(v) {
                    Result::Ok(g) => {
                        proof {
                            if let JsonModel::Object(o) = vm {
                                assert(geojson_from_object_model::<P>(o) == Ok::<
                                    GeoJsonModel,
                                    ErrorModel,
                                >(g@));
                            }
                        }
                        Result::Ok(g)
                    },
                    Result::Err(e) => {
                        let msg = e.message();
                        Result::Err(custom_error(msg.as_str()))
                    },
                }
            },
            Result::Err(e) => Result::Err(e),
        }
    }
}

impl<P: Position> Geometry<P> {
    /// Narrows a union value to its geometry. Succeeds exactly on the
    /// `Geometry` variant, returning the held value unchanged; otherwise
    /// fails with the expected and actual variant names.
    pub fn try_from_geojson(value: GeoJson<P>) -> (r: Result<Geometry<P>, GeoJsonError>)
        ensures
            r is Ok <==> value is Geometry,
            r matches Ok(g) ==> value == GeoJson::Geometry(g),
            value matches GeoJson::Geometry(g) ==> r matches Ok(g2) && g2 == g,
            r matches Err(e) ==> !(value is Geometry) && e@ == (ErrorModel::ExpectedType {
                expected: "Geometry"@,
                actual: if value is Feature {
                    "Feature"@
                } else {
                    "FeatureCollection"@
                },
            }),
    {
        match value {
            GeoJson::Geometry(g) => Result::Ok(g),
            GeoJson::Feature(_) => Result::Err(
                GeoJsonError::ExpectedType {
                    expected: "Geometry".to_owned(),
                    actual: "Feature".to_owned(),
                },
            ),
            GeoJson::FeatureCollection(_) => Result::Err(
                GeoJsonError::ExpectedType {
                    expected: "Geometry".to_owned(),
                    actual: "FeatureCollection".to_owned(),
                },
            ),
        }
    }
}

impl<P: Position> Feature<P> {
    /// Narrows a union value to its feature. Succeeds exactly on the
    /// `Feature` variant, returning the held value unchanged.
    pub fn try_from_geojson(value: GeoJson<P>) -> (r: Result<Feature<P>, GeoJsonError>)
        ensures
            r is Ok <==> value is Feature,
            r matches Ok(f) ==> value == GeoJson::Feature(f),
            value matches GeoJson::Feature(f) ==> r matches Ok(f2) && f2 == f,
            r matches Err(e) ==> !(value is Feature) && e@ == (ErrorModel::ExpectedType {
                expected: "Feature"@,
                actual: if value is Geometry {
                    "Geometry"@
                } else {
                    "FeatureCollection"@
                },
            }),
    {
        match value {
            GeoJson::Geometry(_) => Result::Err(
                GeoJsonError::ExpectedType {
                    expected: "Feature".to_owned(),
                    actual: "Geometry".to_owned(),
                },
            ),
            GeoJson::Feature(f) => Result::Ok(f),
            GeoJson::FeatureCollection(_) => Result::Err(
                GeoJsonError::ExpectedType {
                    expected: "Feature".to_owned(),
                    actual: "FeatureCollection".to_owned(),
                },
            ),
        }
    }
}

impl<P: Position> FeatureCollection<P> {
    /// Narrows a union value to its feature collection. Succeeds exactly on
    /// the `FeatureCollection` variant, returning the held value unchanged.
    pub fn try_from_geojson(value: GeoJson<P>) -> (r: Result<FeatureCollection<P>, GeoJsonError>)
        ensures
            r is Ok <==> value is FeatureCollection,
            r matches Ok(c) ==> value == GeoJson::FeatureCollection(c),
            value matches GeoJson::FeatureCollection(c) ==> r matches Ok(c2) && c2 == c,
            r matches Err(e) ==> !(value is FeatureCollection) && e@ == (ErrorModel::ExpectedType {
                expected: "FeatureCollection"@,
                actual: if value is Geometry {
                    "Geometry"@
                } else {
                    "Feature"@
                },
            }),
    {
        match value {
            GeoJson::Geometry(_) => Result::Err(
                GeoJsonError::ExpectedType {
                    expected: "FeatureCollection".to_owned(),
                    actual: "Geometry".to_owned(),
                },
            ),
            GeoJson::Feature(_) => Result::Err(
                GeoJsonError::ExpectedType {
                    expected: "FeatureCollection".to_owned(),
                    actual: "Feature".to_owned(),
                },
            ),
            GeoJson::FeatureCollection(c) => Result::Ok(c),
        }
    }
}

impl<P: Position> From<Geometry<P>> for GeoJson<P> {
    /// Wraps a bare geometry back into the union; total and infallible.
    fn from(geometry: Geometry<P>) -> (r: GeoJson<P>) {
        GeoJson::Geometry(geometry)
    }
}

impl<P: Position> vstd::std_specs::convert::FromSpecImpl<Geometry<P>> for GeoJson<P> {
    open spec fn obeys_from_spec() -> bool {
        true
    }

    open spec fn from_spec(g: Geometry<P>) -> GeoJson<P> {
        GeoJson::Geometry(g)
    }
}

impl<P: Position> From<Feature<P>> for GeoJson<P> {
    /// Wraps a bare feature back into the union; total and infallible.
    fn from(feature: Feature<P>) -> (r: GeoJson<P>) {
        GeoJson::Feature(feature)
    }
}

impl<P: Position> vstd::std_specs::convert::FromSpecImpl<Feature<P>> for GeoJson<P> {
    open spec fn obeys_from_spec() -> bool {
        true
    }

    open spec fn from_spec(f: Feature<P>) -> GeoJson<P> {
        GeoJson::Feature(f)
    }
}

impl<P: Position> From<FeatureCollection<P>> for GeoJson<P> {
    /// Wraps a bare feature collection back into the union; total and
    /// infallible.
    fn from(feature_collection: FeatureCollection<P>) -> (r: GeoJson<P>) {
        GeoJson::FeatureCollection(feature_collection)
    }
}

impl<P: Position> vstd::std_specs::convert::FromSpecImpl<FeatureCollection<P>> for GeoJson<P> {
    open spec fn obeys_from_spec() -> bool {
        true
    }

    open spec fn from_spec(c: FeatureCollection<P>) -> GeoJson<P> {
        GeoJson::FeatureCollection(c)
    }
}

impl<P: Position> Clone for GeoJson<P> {
    /// A clone denotes the same GeoJSON value, so a caller can keep a value
    /// and also convert it.
    fn clone(&self) -> (r: GeoJson<P>)
        ensures
            r@ == self@,
    {
        match self {
            GeoJson::Geometry(g) => GeoJson::Geometry(g.clone()),
            GeoJson::Feature(f) => GeoJson::Feature(f.clone()),
            GeoJson::FeatureCollection(c) => GeoJson::FeatureCollection(c.clone()),
        }
    }
}

} // verus!
