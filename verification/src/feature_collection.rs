//! GeoJSON feature collections: an ordered sequence of features with a
//! bounding box and foreign members.

use vstd::prelude::*;
use crate::errors::{ErrorModel, GeoJsonError};
use crate::feature::{feature_from_object_model, feature_to_object_model, Feature, FeatureModel};
use crate::geometry::{
    bbox_from_value, bbox_member, bbox_member_from, bbox_model, foreign_model, foreign_of,
    is_geometry_tag, opt_model,
};
use crate::json::{
    lemma_model_list_len, obj_foreign_upto, obj_lookup, obj_lookup_upto, JsonModel, JsonObject,
    JsonValue, ObjectModel, str_eq,
};
use crate::position::Position;

verus! {

broadcast use {vstd::std_specs::vec::group_vec_axioms, vstd::seq::group_seq_axioms};

/// A GeoJSON feature collection: its features in order, an optional bounding
/// box, and any foreign top-level members, preserved verbatim.
#[derive(Debug, PartialEq)]
pub struct FeatureCollection<P> {
    pub bbox: Option<Vec<serde_json::Number>>,
    pub features: Vec<Feature<P>>,
    pub foreign_members: Option<JsonObject>,
}

/// The model of a feature collection.
pub struct FeatureCollectionModel {
    pub bbox: Option<Seq<serde_json::Number>>,
    pub features: Seq<FeatureModel>,
    pub foreign_members: Option<ObjectModel>,
}

/// The models of the first `n` features of `s`.
pub open spec fn features_model<P: Position>(s: Seq<Feature<P>>, n: int) -> Seq<FeatureModel>
    decreases n,
{
    if 0 < n <= s.len() {
        features_model::<P>(s, n - 1).push(s[n - 1].model())
    } else {
        Seq::empty()
    }
}

/// The models of a prefix of features, pointwise.
pub proof fn lemma_features_model_len<P: Position>(s: Seq<Feature<P>>, n: int)
    requires
        0 <= n <= s.len(),
    ensures
        features_model::<P>(s, n).len() == n,
        forall|i: int| 0 <= i < n ==> #[trigger] features_model::<P>(s, n)[i] == s[i].model(),
    decreases n,
{
    if n > 0 {
        lemma_features_model_len::<P>(s, n - 1);
    }
}

impl<P: Position> FeatureCollection<P> {
    /// The mathematical value of this collection.
    pub open spec fn model(self) -> FeatureCollectionModel {
        FeatureCollectionModel {
            bbox: bbox_model(self.bbox),
            features: features_model::<P>(self.features@, self.features@.len() as int),
            foreign_members: foreign_model(self.foreign_members),
        }
    }
}

impl<P: Position> View for FeatureCollection<P> {
    type V = FeatureCollectionModel;

    open spec fn view(&self) -> FeatureCollectionModel {
        (*self).model()
    }
}

/// The keys a feature collection object owns; every other key is a foreign
/// member.
pub open spec fn feature_collection_keys() -> Set<Seq<char>> {
    set!["type"@, "features"@, "bbox"@]
}

/// The JSON objects of the first `n` features of `fs`.
pub open spec fn features_to_json(fs: Seq<FeatureModel>, n: int) -> Seq<JsonModel>
    decreases n,
{
    if 0 < n <= fs.len() {
        features_to_json(fs, n - 1).push(JsonModel::Object(feature_to_object_model(fs[n - 1])))
    } else {
        Seq::empty()
    }
}

/// The JSON object a feature collection converts to: its tag, its features,
/// its bounding box if any, then its foreign members.
pub open spec fn feature_collection_to_object_model(m: FeatureCollectionModel) -> ObjectModel {
    seq![
        ("type"@, JsonModel::String("FeatureCollection"@)),
        ("features"@, JsonModel::Array(features_to_json(m.features, m.features.len() as int))),
    ] + bbox_member(m.bbox) + (match m.foreign_members {
        Option::None => Seq::empty(),
        Option::Some(o) => o,
    })
}

/// Reads the first `n` values of `els` as feature objects.
pub open spec fn features_from_json<P: Position>(els: Seq<JsonModel>, n: int) -> Result<
    Seq<FeatureModel>,
    ErrorModel,
>
    decreases n,
{
    if 0 < n <= els.len() {
        match features_from_json::<P>(els, n - 1) {
            Result::Err(e) => Result::Err(e),
            Result::Ok(fs) => match els[n - 1] {
                JsonModel::Object(fo) => match feature_from_object_model::<P>(fo) {
                    Result::Ok(f) => Result::Ok(fs.push(f)),
                    Result::Err(e) => Result::Err(e),
                },
                _ => Result::Err(ErrorModel::ExpectedObject(els[n - 1])),
            },
        }
    } else {
        Result::Ok(Seq::empty())
    }
}

/// A failed prefix fails the whole list, with the same error.
pub proof fn lemma_features_err_mono<P: Position>(els: Seq<JsonModel>, j: int, n: int)
    requires
        0 <= j <= n <= els.len(),
        features_from_json::<P>(els, j) is Err,
    ensures
        features_from_json::<P>(els, n) == features_from_json::<P>(els, j),
    decreases n,
{
    if j < n {
        lemma_features_err_mono::<P>(els, j, n - 1);
    }
}

/// What converting a JSON object to a feature collection yields.
pub open spec fn feature_collection_from_object_model<P: Position>(o: ObjectModel) -> Result<
    FeatureCollectionModel,
    ErrorModel,
> {
    match obj_lookup(o, "type"@) {
        Option::Some(JsonModel::String(tag)) => {
            if tag == "FeatureCollection"@ {
                let content = match obj_lookup(o, "features"@) {
                    Option::None => Result::Err(ErrorModel::ExpectedProperty("features"@)),
                    Option::Some(JsonModel::Array(els)) => features_from_json::<P>(
                        els,
                        els.len() as int,
                    ),
                    Option::Some(v) => Result::Err(ErrorModel::ExpectedArray(v)),
                };
                match content {
                    Result::Err(e) => Result::Err(e),
                    Result::Ok(features) => match bbox_member_from(o) {
                        Result::Err(e) => Result::Err(e),
                        Result::Ok(bbox) => Result::Ok(
                            FeatureCollectionModel {
                                bbox,
                                features,
                                foreign_members: foreign_of(o, feature_collection_keys()),
                            },
                        ),
                    },
                }
            } else if is_geometry_tag(tag) || tag == "Feature"@ {
                Result::Err(
                    ErrorModel::ExpectedType { expected: "FeatureCollection"@, actual: tag },
                )
            } else {
                Result::Err(ErrorModel::EmptyType)
            }
        },
        Option::Some(_) => Result::Err(ErrorModel::GeometryUnknownType("type"@)),
        Option::None => Result::Err(ErrorModel::GeometryUnknownType("type"@)),
    }
}

/// Converts features into the JSON array of their objects.
fn features_to_json_vec<P: Position>(fs: Vec<Feature<P>>) -> (r: JsonValue)
    ensures
        r@ == JsonModel::Array(
            features_to_json(features_model::<P>(fs@, fs@.len() as int), fs@.len() as int),
        ),
{
    let ghost s0 = fs@;
    let ghost m0 = features_model::<P>(fs@, fs@.len() as int);
    let mut rest = fs;
    let mut out: Vec<JsonValue> = Vec::new();
    proof {
        lemma_features_model_len::<P>(s0, s0.len() as int);
    }
    while rest.len() > 0
        invariant
            m0 == features_model::<P>(s0, s0.len() as int),
            m0.len() == s0.len(),
            forall|i: int| 0 <= i < s0.len() ==> #[trigger] m0[i] == s0[i].model(),
            out@.len() + rest@.len() == s0.len(),
            rest@ == s0.skip(out@.len() as int),
            JsonValue::model_list(out@, out@.len() as int) =~= features_to_json(
                m0,
                out@.len() as int,
            ),
        decreases rest@.len(),
    {
        let ghost n = out@.len() as int;
        let f = rest.remove(0);
        proof {
            assert(f == s0[n]);
            assert(rest@ =~= s0.skip(n + 1));
        }
        let fo = f.to_json_object();
        proof {
            lemma_model_list_len(out@, n);
        }
        out.push(JsonValue::Object(fo));
        proof {
            lemma_model_list_len(out@, n + 1);
            assert(JsonValue::model_list(out@, n + 1) =~= features_to_json(m0, n + 1));
        }
    }
    JsonValue::Array(out)
}

/// Reads feature objects out of the values of a JSON array.
fn parse_features<P: Position>(els: Vec<JsonValue>, snapshot: Ghost<Seq<JsonModel>>) -> (r: Result<
    Vec<Feature<P>>,
    GeoJsonError,
>)
    requires
        snapshot@ == JsonValue::model_list(els@, els@.len() as int),
    ensures
        r matches Ok(fs) ==> features_from_json::<P>(snapshot@, snapshot@.len() as int) == Ok::<
            Seq<FeatureModel>,
            ErrorModel,
        >(features_model::<P>(fs@, fs@.len() as int)),
        r matches Err(e) ==> features_from_json::<P>(snapshot@, snapshot@.len() as int) == Err::<
            Seq<FeatureModel>,
            ErrorModel,
        >(e@),
{
    let ghost s0 = els@;
    let ghost m0 = snapshot@;
    proof {
        lemma_model_list_len(s0, s0.len() as int);
    }
    let mut rest = els;
    let mut out: Vec<Feature<P>> = Vec::new();
    while rest.len() > 0
        invariant
            snapshot@ == m0,
            m0.len() == s0.len(),
            forall|i: int| 0 <= i < s0.len() ==> #[trigger] m0[i] == s0[i]@,
            out@.len() + rest@.len() == s0.len(),
            rest@ == s0.skip(out@.len() as int),
            features_from_json::<P>(m0, out@.len() as int) == Ok::<Seq<FeatureModel>, ErrorModel>(
                features_model::<P>(out@, out@.len() as int),
            ),
        decreases rest@.len(),
    {
        let ghost n = out@.len() as int;
        let v = rest.remove(0);
        proof {
            assert(v == s0[n]);
            assert(rest@ =~= s0.skip(n + 1));
            lemma_features_model_len::<P>(out@, n);
        }
        let ghost prev = features_model::<P>(out@, n);
        match v {
            JsonValue::Object(fo) => {
                match Feature::<P>::try_from(fo) {
                    Result::Ok(f) => {
                        out.push(f);
                        proof {
                            lemma_features_model_len::<P>(out@, n + 1);
                            assert(features_model::<P>(out@, n + 1) =~= prev.push(f@));
                        }
                    },
                    Result::Err(e) => {
                        proof {
                            lemma_features_err_mono::<P>(m0, n + 1, m0.len() as int);
                        }
                        return Result::Err(e);
                    },
                }
            },
            other => {
                proof {
                    lemma_features_err_mono::<P>(m0, n + 1, m0.len() as int);
                }
                return Result::Err(GeoJsonError::ExpectedObject(other));
            },
        }
    }
    Result::Ok(out)
}

impl<P: Position> FeatureCollection<P> {
    /// Converts the collection into its JSON object, with its features in
    /// order. Total: every collection has a JSON form.
    pub fn to_json_object(self) -> (r: JsonObject)
        ensures
            r@ == feature_collection_to_object_model(self@),
    {
        let FeatureCollection { bbox, features, foreign_members } = self;
        let mut obj = JsonObject::new();
        obj.push("type".to_owned(), JsonValue::String("FeatureCollection".to_owned()));
        proof {
            lemma_features_model_len::<P>(features@, features@.len() as int);
        }
        let fv = features_to_json_vec(features);
        obj.push("features".to_owned(), fv);
        match bbox {
            Option::None => {},
            Option::Some(ns) => {
                let bv = crate::geometry::numbers_to_json(ns);
                obj.push("bbox".to_owned(), bv);
            },
        }
        match foreign_members {
            Option::None => {},
            Option::Some(fo) => {
                crate::geometry::append_members(&mut obj, fo);
            },
        }
        proof {
            assert(obj@ =~= feature_collection_to_object_model(self@));
        }
        obj
    }

    /// Converts a JSON object into a feature collection, by its `"type"`
    /// tag, reading its features in order, its bounding box and its foreign
    /// members, and reporting exactly why an object is no collection.
    pub fn try_from(object: JsonObject) -> (r: Result<FeatureCollection<P>, GeoJsonError>)
        ensures
            r matches Ok(c) ==> feature_collection_from_object_model::<P>(object@) == Ok::<
                FeatureCollectionModel,
                ErrorModel,
            >(c@),
            r matches Err(e) ==> feature_collection_from_object_model::<P>(object@) == Err::<
                FeatureCollectionModel,
                ErrorModel,
            >(e@),
    {
        let ghost o0 = object@;
        let mut rest = object;
        let mut type_v: Option<JsonValue> = Option::None;
        let mut features_v: Option<JsonValue> = Option::None;
        let mut bbox_v: Option<JsonValue> = Option::None;
        let mut foreign = JsonObject::new();
        while rest.len() > 0
            invariant
                rest@.len() <= o0.len(),
                rest@ == o0.skip((o0.len() - rest@.len()) as int),
                opt_model(type_v) == obj_lookup_upto(o0, "type"@, (o0.len() - rest@.len()) as int),
                opt_model(features_v) == obj_lookup_upto(
                    o0,
                    "features"@,
                    (o0.len() - rest@.len()) as int,
                ),
                opt_model(bbox_v) == obj_lookup_upto(o0, "bbox"@, (o0.len() - rest@.len()) as int),
                foreign@ == obj_foreign_upto(
                    o0,
                    feature_collection_keys(),
                    (o0.len() - rest@.len()) as int,
                ),
            decreases rest@.len(),
        {
            let ghost j = (o0.len() - rest@.len()) as int;
            let kv = rest.take_first();
            let k = kv.0;
            let v = kv.1;
            proof {
                assert(rest@ =~= o0.skip(j + 1));
                assert(o0.skip(j)[0] == o0[j]);
                reveal_strlit("type");
                reveal_strlit("features");
                reveal_strlit("bbox");
                assert("type"@[0] == 't');
                assert("features"@[0] == 'f');
                assert("bbox"@[0] == 'b');
                assert("type"@ != "features"@ && "type"@ != "bbox"@ && "features"@ != "bbox"@);
            }
            if str_eq(k.as_str(), "type") {
                if type_v.is_none() {
                    type_v = Option::Some(v);
                }
            } else if str_eq(k.as_str(), "features") {
                if features_v.is_none() {
                    features_v = Option::Some(v);
                }
            } else if str_eq(k.as_str(), "bbox") {
                if bbox_v.is_none() {
                    bbox_v = Option::Some(v);
                }
            } else {
                proof {
                    assert(!feature_collection_keys().contains(o0[j].0));
                }
                foreign.push(k, v);
                proof {
                    assert(foreign@ =~= obj_foreign_upto(o0, feature_collection_keys(), j + 1));
                }
            }
        }
        match type_v {
            Option::Some(JsonValue::String(tag)) => {
                if str_eq(tag.as_str(), "FeatureCollection") {
                    let features: Vec<Feature<P>> = match features_v {
                        Option::None => {
                            return Result::Err(
                                GeoJsonError::ExpectedProperty("features".to_owned()),
                            );
                        },
                        Option::Some(JsonValue::Array(a)) => {
                            let ghost am = JsonValue::model_list(a@, a@.len() as int);
                            proof {
                                lemma_model_list_len(a@, a@.len() as int);
                            }
                            match parse_features::<P>(a, Ghost(am)) {
                                Result::Ok(fs) => fs,
                                Result::Err(e) => {
                                    return Result::Err(e);
                                },
                            }
                        },
                        Option::Some(other) => {
                            return Result::Err(GeoJsonError::ExpectedArray(other));
                        },
                    };
                    let bbox: Option<Vec<serde_json::Number>> = match bbox_v {
                        Option::None => Option::None,
                        Option::Some(bv) => {
                            let ghost bm = bv@;
                            match bbox_from_value(bv, Ghost(bm)) {
                                Result::Ok(ns) => Option::Some(ns),
                                Result::Err(e) => {
                                    return Result::Err(e);
                                },
                            }
                        },
                    };
                    let foreign_members: Option<JsonObject> = if foreign.len() == 0 {
                        Option::None
                    } else {
                        Option::Some(foreign)
                    };
                    Result::Ok(FeatureCollection { bbox, features, foreign_members })
                } else if str_eq(tag.as_str(), "Point") || str_eq(tag.as_str(), "MultiPoint")
                    || str_eq(tag.as_str(), "LineString") || str_eq(tag.as_str(), "MultiLineString")
                    || str_eq(tag.as_str(), "Polygon") || str_eq(tag.as_str(), "MultiPolygon")
                    || str_eq(tag.as_str(), "GeometryCollection") || str_eq(
                    tag.as_str(),
                    "Feature",
                ) {
                    Result::Err(
                        GeoJsonError::ExpectedType {
                            expected: "FeatureCollection".to_owned(),
                            actual: tag,
                        },
                    )
                } else {
                    Result::Err(GeoJsonError::EmptyType)
                }
            },
            Option::Some(_) => Result::Err(GeoJsonError::GeometryUnknownType("type".to_owned())),
            Option::None => Result::Err(GeoJsonError::GeometryUnknownType("type".to_owned())),
        }
    }
}

/// Clones every feature of a list; the clones have the same models.
fn clone_features<P: Position>(fs: &Vec<Feature<P>>) -> (r: Vec<Feature<P>>)
    ensures
        features_model::<P>(r@, r@.len() as int) == features_model::<P>(fs@, fs@.len() as int),
{
    let mut out: Vec<Feature<P>> = Vec::new();
    let mut i: usize = 0;
    while i < fs.len()
        invariant
            0 <= i <= fs@.len(),
            out@.len() == i,
            forall|k: int| 0 <= k < i ==> (#[trigger] out@[k])@ == fs@[k]@,
        decreases fs@.len() - i,
    {
        let f = fs[i].clone();
        out.push(f);
        i = i + 1;
    }
    proof {
        lemma_features_model_len::<P>(out@, out@.len() as int);
        lemma_features_model_len::<P>(fs@, fs@.len() as int);
        assert(features_model::<P>(out@, out@.len() as int) =~= features_model::<P>(
            fs@,
            fs@.len() as int,
        ));
    }
    out
}

impl<P: Position> Clone for FeatureCollection<P> {
    /// A clone denotes the same collection.
    fn clone(&self) -> (r: FeatureCollection<P>)
        ensures
            r@ == self@,
    {
        let bbox = match &self.bbox {
            Option::None => Option::None,
            Option::Some(ns) => Option::Some(crate::geometry::clone_numbers(ns)),
        };
        let features = clone_features(&self.features);
        let foreign_members = match &self.foreign_members {
            Option::None => Option::None,
            Option::Some(o) => Option::Some(o.clone()),
        };
        FeatureCollection { bbox, features, foreign_members }
    }
}

} // verus!
