//! GeoJSON features: an optional geometry with properties, an identifier,
//! a bounding box and foreign members.

use vstd::prelude::*;
use crate::errors::{ErrorModel, GeoJsonError};
use crate::geometry::{
    bbox_from_value, bbox_member, bbox_member_from, bbox_model, foreign_model, foreign_of,
    geometry_from_object_model, geometry_to_object_model, is_geometry_tag, opt_model, Geometry,
    GeometryModel,
};
use crate::json::{
    obj_foreign_upto, obj_lookup, obj_lookup_upto, JsonModel, JsonObject, JsonValue, ObjectModel,
    str_eq,
};
use crate::position::Position;

verus! {

broadcast use {vstd::std_specs::vec::group_vec_axioms, vstd::seq::group_seq_axioms};

/// A feature's identifier: a string or a number.
#[derive(Debug, PartialEq)]
pub enum Id {
    String(String),
    Number(serde_json::Number),
}

/// The model of a feature identifier.
pub enum IdModel {
    String(Seq<char>),
    Number(serde_json::Number),
}

/// A GeoJSON feature: an optional geometry, optional identifier, optional
/// free-form properties, optional bounding box, and any foreign top-level
/// members, preserved verbatim.
#[derive(Debug, PartialEq)]
pub struct Feature<P> {
    pub bbox: Option<Vec<serde_json::Number>>,
    pub geometry: Option<Geometry<P>>,
    pub id: Option<Id>,
    pub properties: Option<JsonObject>,
    pub foreign_members: Option<JsonObject>,
}

/// The model of a feature.
pub struct FeatureModel {
    pub bbox: Option<Seq<serde_json::Number>>,
    pub geometry: Option<GeometryModel>,
    pub id: Option<IdModel>,
    pub properties: Option<ObjectModel>,
    pub foreign_members: Option<ObjectModel>,
}

/// The model of an optional identifier.
pub open spec fn id_model(id: Option<Id>) -> Option<IdModel> {
    match id {
        Option::None => Option::None,
        Option::Some(Id::String(s)) => Option::Some(IdModel::String(s@)),
        Option::Some(Id::Number(n)) => Option::Some(IdModel::Number(n)),
    }
}

impl<P: Position> Feature<P> {
    /// The mathematical value of this feature.
    pub open spec fn model(self) -> FeatureModel {
        FeatureModel {
            bbox: bbox_model(self.bbox),
            geometry: match self.geometry {
                Option::None => Option::None,
                Option::Some(g) => Option::Some(g.model()),
            },
            id: id_model(self.id),
            properties: foreign_model(self.properties),
            foreign_members: foreign_model(self.foreign_members),
        }
    }
}

impl<P: Position> View for Feature<P> {
    type V = FeatureModel;

    open spec fn view(&self) -> FeatureModel {
        (*self).model()
    }
}

/// The keys a feature object owns; every other key is a foreign member.
pub open spec fn feature_keys() -> Set<Seq<char>> {
    set!["type"@, "geometry"@, "properties"@, "id"@, "bbox"@]
}

/// The `"geometry"` member a feature is written with: null when absent.
pub open spec fn geometry_member_json(g: Option<GeometryModel>) -> JsonModel {
    match g {
        Option::None => JsonModel::Null,
        Option::Some(gm) => JsonModel::Object(geometry_to_object_model(gm)),
    }
}

/// The `"properties"` member a feature is written with: null when absent.
pub open spec fn properties_member_json(p: Option<ObjectModel>) -> JsonModel {
    match p {
        Option::None => JsonModel::Null,
        Option::Some(o) => JsonModel::Object(o),
    }
}

/// The `"id"` member, if there is one.
pub open spec fn id_member(id: Option<IdModel>) -> ObjectModel {
    match id {
        Option::None => Seq::empty(),
        Option::Some(IdModel::String(s)) => seq![("id"@, JsonModel::String(s))],
        Option::Some(IdModel::Number(n)) => seq![("id"@, JsonModel::Number(n))],
    }
}

/// The JSON object a feature converts to: its tag, its geometry and
/// properties (null when absent), its identifier and bounding box if any,
/// then its foreign members.
pub open spec fn feature_to_object_model(m: FeatureModel) -> ObjectModel {
    seq![
        ("type"@, JsonModel::String("Feature"@)),
        ("geometry"@, geometry_member_json(m.geometry)),
        ("properties"@, properties_member_json(m.properties)),
    ] + id_member(m.id) + bbox_member(m.bbox) + foreign_member_entries_feature(m.foreign_members)
}

/// The members contributed by foreign members, if there are any.
pub open spec fn foreign_member_entries_feature(f: Option<ObjectModel>) -> ObjectModel {
    match f {
        Option::None => Seq::empty(),
        Option::Some(o) => o,
    }
}

/// Reads the `"geometry"` member of a feature object: absent or null means
/// no geometry.
pub open spec fn feature_geometry_from<P: Position>(o: ObjectModel) -> Result<
    Option<GeometryModel>,
    ErrorModel,
> {
    match obj_lookup(o, "geometry"@) {
        Option::None => Result::Ok(Option::None),
        Option::Some(JsonModel::Null) => Result::Ok(Option::None),
        Option::Some(JsonModel::Object(go)) => match geometry_from_object_model::<P>(go) {
            Result::Ok(g) => Result::Ok(Option::Some(g)),
            Result::Err(e) => Result::Err(e),
        },
        Option::Some(v) => Result::Err(ErrorModel::ExpectedObject(v)),
    }
}

/// Reads the `"properties"` member: absent or null means none.
pub open spec fn feature_properties_from(o: ObjectModel) -> Result<Option<ObjectModel>, ErrorModel> {
    match obj_lookup(o, "properties"@) {
        Option::None => Result::Ok(Option::None),
        Option::Some(JsonModel::Null) => Result::Ok(Option::None),
        Option::Some(JsonModel::Object(po)) => Result::Ok(Option::Some(po)),
        Option::Some(v) => Result::Err(ErrorModel::InvalidProperties(v)),
    }
}

/// Reads the `"id"` member: it must be a string or a number.
pub open spec fn feature_id_from(o: ObjectModel) -> Result<Option<IdModel>, ErrorModel> {
    match obj_lookup(o, "id"@) {
        Option::None => Result::Ok(Option::None),
        Option::Some(JsonModel::String(s)) => Result::Ok(Option::Some(IdModel::String(s))),
        Option::Some(JsonModel::Number(n)) => Result::Ok(Option::Some(IdModel::Number(n))),
        Option::Some(v) => Result::Err(ErrorModel::InvalidIdentifier(v)),
    }
}

/// What converting a JSON object to a feature yields: the typed feature on
/// success, and the reason with its offending value otherwise.
pub open spec fn feature_from_object_model<P: Position>(o: ObjectModel) -> Result<
    FeatureModel,
    ErrorModel,
> {
    match obj_lookup(o, "type"@) {
        Option::Some(JsonModel::String(tag)) => {
            if tag == "Feature"@ {
                match feature_geometry_from::<P>(o) {
                    Result::Err(e) => Result::Err(e),
                    Result::Ok(geometry) => match feature_properties_from(o) {
                        Result::Err(e) => Result::Err(e),
                        Result::Ok(properties) => match feature_id_from(o) {
                            Result::Err(e) => Result::Err(e),
                            Result::Ok(id) => match bbox_member_from(o) {
                                Result::Err(e) => Result::Err(e),
                                Result::Ok(bbox) => Result::Ok(
                                    FeatureModel {
                                        bbox,
                                        geometry,
                                        id,
                                        properties,
                                        foreign_members: foreign_of(o, feature_keys()),
                                    },
                                ),
                            },
                        },
                    },
                }
            } else if is_geometry_tag(tag) || tag == "FeatureCollection"@ {
                Result::Err(ErrorModel::ExpectedType { expected: "Feature"@, actual: tag })
            } else {
                Result::Err(ErrorModel::EmptyType)
            }
        },
        Option::Some(_) => Result::Err(ErrorModel::GeometryUnknownType("type"@)),
        Option::None => Result::Err(ErrorModel::GeometryUnknownType("type"@)),
    }
}

impl<P: Position> Feature<P> {
    /// Converts the feature into its JSON object. Total: every feature has a
    /// JSON form, with `"geometry"` and `"properties"` written as null when
    /// absent.
    pub fn to_json_object(self) -> (r: JsonObject)
        ensures
            r@ == feature_to_object_model(self@),
    {
        let Feature { bbox, geometry, id, properties, foreign_members } = self;
        let mut obj = JsonObject::new();
        obj.push("type".to_owned(), JsonValue::String("Feature".to_owned()));
        match geometry {
            Option::None => obj.push("geometry".to_owned(), JsonValue::Null),
            Option::Some(g) => {
                let go = g.to_json_object();
                obj.push("geometry".to_owned(), JsonValue::Object(go));
            },
        }
        match properties {
            Option::None => obj.push("properties".to_owned(), JsonValue::Null),
            Option::Some(po) => obj.push("properties".to_owned(), JsonValue::Object(po)),
        }
        match id {
            Option::None => {},
            Option::Some(Id::String(s)) => obj.push("id".to_owned(), JsonValue::String(s)),
            Option::Some(Id::Number(n)) => obj.push("id".to_owned(), JsonValue::Number(n)),
        }
        match bbox {
            Option::None => {},
            Option::Some(ns) => {
                let bv = crate::geometry::numbers_to_json(ns);
                obj.push("bbox".to_owned(), bv);
            },
        }
        match foreign_members {
            Option::None => {},
            Option::Some(fo) => {
                crate::geometry::append_members(&mut obj, fo);
            },
        }
        proof {
            assert(obj@ =~= feature_to_object_model(self@));
        }
        obj
    }

    /// Converts a JSON object into a feature, by its `"type"` tag, reading
    /// its geometry, properties, identifier, bounding box and foreign
    /// members, and reporting exactly why an object is no feature.
    pub fn try_from(object: JsonObject) -> (r: Result<Feature<P>, GeoJsonError>)
        ensures
            r matches Ok(f) ==> feature_from_object_model::<P>(object@) == Ok::<
                FeatureModel,
                ErrorModel,
            >(f@),
            r matches Err(e) ==> feature_from_object_model::<P>(object@) == Err::<
                FeatureModel,
                ErrorModel,
            >(e@),
    {
        let ghost o0 = object@;
        let mut rest = object;
        let mut type_v: Option<JsonValue> = Option::None;
        let mut geometry_v: Option<JsonValue> = Option::None;
        let mut properties_v: Option<JsonValue> = Option::None;
        let mut id_v: Option<JsonValue> = Option::None;
        let mut bbox_v: Option<JsonValue> = Option::None;
        let mut foreign = JsonObject::new();
        while rest.len() > 0
            invariant
                rest@.len() <= o0.len(),
                rest@ == o0.skip((o0.len() - rest@.len()) as int),
                opt_model(type_v) == obj_lookup_upto(o0, "type"@, (o0.len() - rest@.len()) as int),
                opt_model(geometry_v) == obj_lookup_upto(
                    o0,
                    "geometry"@,
                    (o0.len() - rest@.len()) as int,
                ),
                opt_model(properties_v) == obj_lookup_upto(
                    o0,
                    "properties"@,
                    (o0.len() - rest@.len()) as int,
                ),
                opt_model(id_v) == obj_lookup_upto(o0, "id"@, (o0.len() - rest@.len()) as int),
                opt_model(bbox_v) == obj_lookup_upto(o0, "bbox"@, (o0.len() - rest@.len()) as int),
                foreign@ == obj_foreign_upto(o0, feature_keys(), (o0.len() - rest@.len()) as int),
            decreases rest@.len(),
        {
            let ghost j = (o0.len() - rest@.len()) as int;
            let kv = rest.take_first();
            let k = kv.0;
            let v = kv.1;
            proof {
                assert(rest@ =~= o0.skip(j + 1));
                assert(o0.skip(j)[0] == o0[j]);
                reveal_strlit("type");
                reveal_strlit("geometry");
                reveal_strlit("properties");
                reveal_strlit("id");
                reveal_strlit("bbox");
                assert("type"@[0] == 't');
                assert("geometry"@[0] == 'g');
                assert("properties"@[0] == 'p');
                assert("id"@[0] == 'i');
                assert("bbox"@[0] == 'b');
                assert("type"@ != "geometry"@ && "type"@ != "properties"@ && "type"@ != "id"@
                    && "type"@ != "bbox"@);
                assert("geometry"@ != "properties"@ && "geometry"@ != "id"@ && "geometry"@
                    != "bbox"@);
                assert("properties"@ != "id"@ && "properties"@ != "bbox"@);
                assert("id"@ != "bbox"@);
            }
            if str_eq(k.as_str(), "type") {
                if type_v.is_none() {
                    type_v = Option::Some(v);
                }
            } else if str_eq(k.as_str(), "geometry") {
                if geometry_v.is_none() {
                    geometry_v = Option::Some(v);
                }
            } else if str_eq(k.as_str(), "properties") {
                if properties_v.is_none() {
                    properties_v = Option::Some(v);
                }
            } else if str_eq(k.as_str(), "id") {
                if id_v.is_none() {
                    id_v = Option::Some(v);
                }
            } else if str_eq(k.as_str(), "bbox") {
                if bbox_v.is_none() {
                    bbox_v = Option::Some(v);
                }
            } else {
                proof {
                    assert(!feature_keys().contains(o0[j].0));
                }
                foreign.push(k, v);
                proof {
                    assert(foreign@ =~= obj_foreign_upto(o0, feature_keys(), j + 1));
                }
            }
        }
        match type_v {
            Option::Some(JsonValue::String(tag)) => {
                if str_eq(tag.as_str(), "Feature") {
                    let geometry: Option<Geometry<P>> = match geometry_v {
                        Option::None => Option::None,
                        Option::Some(JsonValue::Null) => Option::None,
                        Option::Some(JsonValue::Object(go)) => {
                            match Geometry::<P>::try_from(go) {
                                Result::Ok(g) => Option::Some(g),
                                Result::Err(e) => {
                                    return Result::Err(e);
                                },
                            }
                        },
                        Option::Some(other) => {
                            return Result::Err(GeoJsonError::ExpectedObject(other));
                        },
                    };
                    let properties: Option<JsonObject> = match properties_v {
                        Option::None => Option::None,
                        Option::Some(JsonValue::Null) => Option::None,
                        Option::Some(JsonValue::Object(po)) => Option::Some(po),
                        Option::Some(other) => {
                            return Result::Err(GeoJsonError::InvalidProperties(other));
                        },
                    };
                    let id: Option<Id> = match id_v {
                        Option::None => Option::None,
                        Option::Some(JsonValue::String(s)) => Option::Some(Id::String(s)),
                        Option::Some(JsonValue::Number(n)) => Option::Some(Id::Number(n)),
                        Option::Some(other) => {
                            return Result::Err(GeoJsonError::InvalidIdentifier(other));
                        },
                    };
                    let bbox: Option<Vec<serde_json::Number>> = match bbox_v {
                        Option::None => Option::None,
                        Option::Some(bv) => {
                            let ghost bm = bv@;
                            match bbox_from_value(bv, Ghost(bm)) {
                                Result::Ok(ns) => Option::Some(ns),
                                Result::Err(e) => {
                                    return Result::Err(e);
                                },
                            }
                        },
                    };
                    let foreign_members: Option<JsonObject> = if foreign.len() == 0 {
                        Option::None
                    } else {
                        Option::Some(foreign)
                    };
                    Result::Ok(Feature { bbox, geometry, id, properties, foreign_members })
                } else if str_eq(tag.as_str(), "Point") || str_eq(tag.as_str(), "MultiPoint")
                    || str_eq(tag.as_str(), "LineString") || str_eq(tag.as_str(), "MultiLineString")
                    || str_eq(tag.as_str(), "Polygon") || str_eq(tag.as_str(), "MultiPolygon")
                    || str_eq(tag.as_str(), "GeometryCollection") || str_eq(
                    tag.as_str(),
                    "FeatureCollection",
                ) {
                    Result::Err(
                        GeoJsonError::ExpectedType { expected: "Feature".to_owned(), actual: tag },
                    )
                } else {
                    Result::Err(GeoJsonError::EmptyType)
                }
            },
            Option::Some(_) => Result::Err(GeoJsonError::GeometryUnknownType("type".to_owned())),
            Option::None => Result::Err(GeoJsonError::GeometryUnknownType("type".to_owned())),
        }
    }
}

impl Clone for Id {
    /// A clone is the same identifier.
    fn clone(&self) -> (r: Id)
        ensures
            r == *self,
    {
        match self {
            Id::String(s) => Id::String(s.clone()),
            Id::Number(n) => Id::Number(n.clone()),
        }
    }
}

impl<P: Position> Clone for Feature<P> {
    /// A clone denotes the same feature.
    fn clone(&self) -> (r: Feature<P>)
        ensures
            r@ == self@,
    {
        let bbox = match &self.bbox {
            Option::None => Option::None,
            Option::Some(ns) => Option::Some(crate::geometry::clone_numbers(ns)),
        };
        let geometry = match &self.geometry {
            Option::None => Option::None,
            Option::Some(g) => Option::Some(g.clone()),
        };
        let id = match &self.id {
            Option::None => Option::None,
            Option::Some(v) => Option::Some(v.clone()),
        };
        let properties = match &self.properties {
            Option::None => Option::None,
            Option::Some(o) => Option::Some(o.clone()),
        };
        let foreign_members = match &self.foreign_members {
            Option::None => Option::None,
            Option::Some(o) => Option::Some(o.clone()),
        };
        Feature { bbox, geometry, id, properties, foreign_members }
    }
}

} // verus!
