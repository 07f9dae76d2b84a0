//! The seven geometry shapes of GeoJSON and their JSON conversions.

use vstd::prelude::*;
use crate::errors::{ErrorModel, GeoJsonError};
use crate::json::{
    jm_entries_size, jm_list_size, jm_size, lemma_lookup_size, lemma_member_size,
    lemma_model_list_len, obj_lookup, obj_lookup_upto, obj_without_keys, obj_foreign_upto,
    JsonModel, JsonObject, JsonValue, ObjectModel, str_eq,
};
use crate::position::{is_position_encoding, Position};

verus! {

broadcast use {vstd::std_specs::vec::group_vec_axioms, vstd::seq::group_seq_axioms, vstd::string::group_string_axioms};

/// The model of a geometry's shape and coordinates: positions appear as their
/// JSON encodings.
pub enum ValueModel {
    Point(JsonModel),
    MultiPoint(Seq<JsonModel>),
    LineString(Seq<JsonModel>),
    MultiLineString(Seq<Seq<JsonModel>>),
    Polygon(Seq<Seq<JsonModel>>),
    MultiPolygon(Seq<Seq<Seq<JsonModel>>>),
    GeometryCollection(Seq<GeometryModel>),
}

/// The model of a geometry object.
pub struct GeometryModel {
    pub value: ValueModel,
    pub bbox: Option<Seq<serde_json::Number>>,
    pub foreign_members: Option<ObjectModel>,
}

/// A geometry's shape and coordinates, generic over the position type.
#[derive(Debug, PartialEq)]
pub enum GeometryValue<P> {
    Point(P),
    MultiPoint(Vec<P>),
    LineString(Vec<P>),
    MultiLineString(Vec<Vec<P>>),
    Polygon(Vec<Vec<P>>),
    MultiPolygon(Vec<Vec<Vec<P>>>),
    GeometryCollection(Vec<Geometry<P>>),
}

/// One of the seven GeoJSON geometries: its shape, an optional bounding box,
/// and any foreign top-level members, preserved verbatim.
#[derive(Debug, PartialEq)]
pub struct Geometry<P> {
    pub value: GeometryValue<P>,
    pub bbox: Option<Vec<serde_json::Number>>,
    pub foreign_members: Option<JsonObject>,
}

/// The encodings of the first `n` positions of `s`.
pub open spec fn positions_model<P: Position>(s: Seq<P>, n: int) -> Seq<JsonModel>
    decreases n,
{
    if 0 < n <= s.len() {
        positions_model::<P>(s, n - 1).push(s[n - 1].encoded())
    } else {
        Seq::empty()
    }
}

/// The first `n` members of `s`, each wrapped as a JSON array.
pub open spec fn arrays_of(s: Seq<Seq<JsonModel>>, n: int) -> Seq<JsonModel>
    decreases n,
{
    if 0 < n <= s.len() {
        arrays_of(s, n - 1).push(JsonModel::Array(s[n - 1]))
    } else {
        Seq::empty()
    }
}

/// The first `n` members of `s`, each wrapped as an array of arrays.
pub open spec fn arrays2_of(s: Seq<Seq<Seq<JsonModel>>>, n: int) -> Seq<JsonModel>
    decreases n,
{
    if 0 < n <= s.len() {
        arrays2_of(s, n - 1).push(JsonModel::Array(arrays_of(s[n - 1], s[n - 1].len() as int)))
    } else {
        Seq::empty()
    }
}

/// The first `n` numbers of `s`, each as a JSON number node.
pub open spec fn numbers_json_of(s: Seq<serde_json::Number>, n: int) -> Seq<JsonModel>
    decreases n,
{
    if 0 < n <= s.len() {
        numbers_json_of(s, n - 1).push(JsonModel::Number(s[n - 1]))
    } else {
        Seq::empty()
    }
}

/// The wrapped members of a prefix, pointwise.
pub proof fn lemma_arrays_of_len(s: Seq<Seq<JsonModel>>, n: int)
    requires
        0 <= n <= s.len(),
    ensures
        arrays_of(s, n).len() == n,
        forall|i: int| 0 <= i < n ==> #[trigger] arrays_of(s, n)[i] == JsonModel::Array(s[i]),
    decreases n,
{
    if n > 0 {
        lemma_arrays_of_len(s, n - 1);
    }
}

/// The doubly wrapped members of a prefix, pointwise.
pub proof fn lemma_arrays2_of_len(s: Seq<Seq<Seq<JsonModel>>>, n: int)
    requires
        0 <= n <= s.len(),
    ensures
        arrays2_of(s, n).len() == n,
        forall|i: int|
            0 <= i < n ==> #[trigger] arrays2_of(s, n)[i] == JsonModel::Array(
                arrays_of(s[i], s[i].len() as int),
            ),
    decreases n,
{
    if n > 0 {
        lemma_arrays2_of_len(s, n - 1);
    }
}

/// The number nodes of a prefix, pointwise.
pub proof fn lemma_numbers_json_of_len(s: Seq<serde_json::Number>, n: int)
    requires
        0 <= n <= s.len(),
    ensures
        numbers_json_of(s, n).len() == n,
        forall|i: int| 0 <= i < n ==> #[trigger] numbers_json_of(s, n)[i] == JsonModel::Number(
            s[i],
        ),
    decreases n,
{
    if n > 0 {
        lemma_numbers_json_of_len(s, n - 1);
    }
}

/// The models of the first `n` position lists of `s`.
pub open spec fn lines_model<P: Position>(s: Seq<Vec<P>>, n: int) -> Seq<Seq<JsonModel>>
    decreases n,
{
    if 0 < n <= s.len() {
        lines_model::<P>(s, n - 1).push(positions_model::<P>(s[n - 1]@, s[n - 1]@.len() as int))
    } else {
        Seq::empty()
    }
}

/// The models of the first `n` line lists of `s`.
pub open spec fn polygons_model<P: Position>(s: Seq<Vec<Vec<P>>>, n: int) -> Seq<
    Seq<Seq<JsonModel>>,
>
    decreases n,
{
    if 0 < n <= s.len() {
        polygons_model::<P>(s, n - 1).push(lines_model::<P>(s[n - 1]@, s[n - 1]@.len() as int))
    } else {
        Seq::empty()
    }
}

/// The models of the first `n` geometries of `s`.
pub open spec fn geometries_model<P: Position>(s: Seq<Geometry<P>>, n: int) -> Seq<GeometryModel>
    decreases s, n,
{
    if 0 < n <= s.len() {
        geometries_model::<P>(s, n - 1).push(s[n - 1].model())
    } else {
        Seq::empty()
    }
}

impl<P: Position> GeometryValue<P> {
    /// The mathematical value of this shape.
    pub open spec fn model(self) -> ValueModel
        decreases self, 0int,
        via Self::model_decreases
    {
        match self {
            GeometryValue::Point(p) => ValueModel::Point(p.encoded()),
            GeometryValue::MultiPoint(ps) => ValueModel::MultiPoint(
                positions_model::<P>(ps@, ps@.len() as int),
            ),
            GeometryValue::LineString(ps) => ValueModel::LineString(
                positions_model::<P>(ps@, ps@.len() as int),
            ),
            GeometryValue::MultiLineString(ls) => ValueModel::MultiLineString(
                lines_model::<P>(ls@, ls@.len() as int),
            ),
            GeometryValue::Polygon(ls) => ValueModel::Polygon(lines_model::<P>(ls@, ls@.len() as int)),
            GeometryValue::MultiPolygon(qs) => ValueModel::MultiPolygon(
                polygons_model::<P>(qs@, qs@.len() as int),
            ),
            GeometryValue::GeometryCollection(gs) => ValueModel::GeometryCollection(
                geometries_model::<P>(gs@, gs@.len() as int),
            ),
        }
    }

    #[via_fn]
    proof fn model_decreases(self) {
        broadcast use vstd::std_specs::vec::group_vec_axioms;

        if let GeometryValue::GeometryCollection(gs) = self {
            assert(decreases_to!(self => gs));
            assert(decreases_to!(gs => gs@));
        }
    }
}

impl<P: Position> Geometry<P> {
    /// The mathematical value of this geometry.
    pub open spec fn model(self) -> GeometryModel
        decreases self, 1int,
    {
        GeometryModel {
            value: self.value.model(),
            bbox: bbox_model(self.bbox),
            foreign_members: foreign_model(self.foreign_members),
        }
    }
}

impl<P: Position> View for Geometry<P> {
    type V = GeometryModel;

    open spec fn view(&self) -> GeometryModel {
        (*self).model()
    }
}

/// The model of an optional bounding box.
pub open spec fn bbox_model(b: Option<Vec<serde_json::Number>>) -> Option<
    Seq<serde_json::Number>,
> {
    match b {
        Option::None => Option::None,
        Option::Some(v) => Option::Some(v@),
    }
}

/// The model of an optional object-valued part, such as foreign members.
pub open spec fn foreign_model(f: Option<JsonObject>) -> Option<ObjectModel> {
    match f {
        Option::None => Option::None,
        Option::Some(o) => Option::Some(o@),
    }
}

/// The `"type"` tag a shape is written with.
pub open spec fn tag_of(vm: ValueModel) -> Seq<char> {
    match vm {
        ValueModel::Point(_) => "Point"@,
        ValueModel::MultiPoint(_) => "MultiPoint"@,
        ValueModel::LineString(_) => "LineString"@,
        ValueModel::MultiLineString(_) => "MultiLineString"@,
        ValueModel::Polygon(_) => "Polygon"@,
        ValueModel::MultiPolygon(_) => "MultiPolygon"@,
        ValueModel::GeometryCollection(_) => "GeometryCollection"@,
    }
}

/// Whether `t` is one of the seven geometry tags.
pub open spec fn is_geometry_tag(t: Seq<char>) -> bool {
    ||| t == "Point"@
    ||| t == "MultiPoint"@
    ||| t == "LineString"@
    ||| t == "MultiLineString"@
    ||| t == "Polygon"@
    ||| t == "MultiPolygon"@
    ||| t == "GeometryCollection"@
}

/// The JSON form of a bounding box member, if there is one.
pub open spec fn bbox_member(b: Option<Seq<serde_json::Number>>) -> ObjectModel {
    match b {
        Option::None => Seq::empty(),
        Option::Some(ns) => seq![
            ("bbox"@, JsonModel::Array(numbers_json_of(ns, ns.len() as int))),
        ],
    }
}

/// The members contributed by foreign members, if there are any.
pub open spec fn foreign_member_entries(f: Option<ObjectModel>) -> ObjectModel {
    match f {
        Option::None => Seq::empty(),
        Option::Some(o) => o,
    }
}

/// The JSON form of the `"coordinates"` member of a coordinate-bearing shape.
pub open spec fn coordinates_json(vm: ValueModel) -> JsonModel {
    match vm {
        ValueModel::Point(p) => p,
        ValueModel::MultiPoint(s) => JsonModel::Array(s),
        ValueModel::LineString(s) => JsonModel::Array(s),
        ValueModel::MultiLineString(s) => JsonModel::Array(arrays_of(s, s.len() as int)),
        ValueModel::Polygon(s) => JsonModel::Array(arrays_of(s, s.len() as int)),
        ValueModel::MultiPolygon(s) => JsonModel::Array(arrays2_of(s, s.len() as int)),
        ValueModel::GeometryCollection(_) => JsonModel::Null,
    }
}

/// The JSON objects of the first `n` geometries of `gs`.
pub open spec fn geometries_to_json(gs: Seq<GeometryModel>, n: int) -> Seq<JsonModel>
    decreases gs, n,
{
    if 0 < n <= gs.len() {
        geometries_to_json(gs, n - 1).push(JsonModel::Object(geometry_to_object_model(gs[n - 1])))
    } else {
        Seq::empty()
    }
}

/// The member holding a shape's content: `"coordinates"` for the six
/// coordinate-bearing shapes, `"geometries"` for a collection.
pub open spec fn content_member(vm: ValueModel) -> ObjectModel
    decreases vm, 0int,
    via content_member_decreases
{
    match vm {
        ValueModel::GeometryCollection(gs) => seq![
            ("geometries"@, JsonModel::Array(geometries_to_json(gs, gs.len() as int))),
        ],
        _ => seq![("coordinates"@, coordinates_json(vm))],
    }
}

#[via_fn]
proof fn content_member_decreases(vm: ValueModel) {
    if let ValueModel::GeometryCollection(gs) = vm {
        assert(decreases_to!(vm => gs));
    }
}

/// The JSON object a geometry converts to: its tag, its content, its
/// bounding box if any, then its foreign members.
pub open spec fn geometry_to_object_model(m: GeometryModel) -> ObjectModel
    decreases m, 1int,
{
    seq![("type"@, JsonModel::String(tag_of(m.value)))] + content_member(m.value) + bbox_member(
        m.bbox,
    ) + foreign_member_entries(m.foreign_members)
}

/// The keys a geometry object owns; every other key is a foreign member.
pub open spec fn geometry_keys() -> Set<Seq<char>> {
    set!["type"@, "coordinates"@, "geometries"@, "bbox"@]
}

/// The foreign members of object `o`: `None` when there are none.
pub open spec fn foreign_of(o: ObjectModel, keys: Set<Seq<char>>) -> Option<ObjectModel> {
    if obj_without_keys(o, keys).len() == 0 {
        Option::None
    } else {
        Option::Some(obj_without_keys(o, keys))
    }
}

/// Reads the first `n` values of `els` as positions; the first value that is
/// no position fails the whole list.
pub open spec fn positions_from_json<P: Position>(els: Seq<JsonModel>, n: int) -> Result<
    Seq<JsonModel>,
    ErrorModel,
>
    decreases n,
{
    if 0 < n <= els.len() {
        match positions_from_json::<P>(els, n - 1) {
            Result::Err(e) => Result::Err(e),
            Result::Ok(ps) => if is_position_encoding::<P>(els[n - 1]) {
                Result::Ok(ps.push(els[n - 1]))
            } else {
                Result::Err(ErrorModel::InvalidPosition(els[n - 1]))
            },
        }
    } else {
        Result::Ok(Seq::empty())
    }
}

/// Reads the first `n` values of `els` as position lists.
pub open spec fn lines_from_json<P: Position>(els: Seq<JsonModel>, n: int) -> Result<
    Seq<Seq<JsonModel>>,
    ErrorModel,
>
    decreases n,
{
    if 0 < n <= els.len() {
        match lines_from_json::<P>(els, n - 1) {
            Result::Err(e) => Result::Err(e),
            Result::Ok(ls) => match els[n - 1] {
                JsonModel::Array(l) => match positions_from_json::<P>(l, l.len() as int) {
                    Result::Ok(ps) => Result::Ok(ls.push(ps)),
                    Result::Err(e) => Result::Err(e),
                },
                _ => Result::Err(ErrorModel::ExpectedArray(els[n - 1])),
            },
        }
    } else {
        Result::Ok(Seq::empty())
    }
}

/// Reads the first `n` values of `els` as lists of position lists.
pub open spec fn polygons_from_json<P: Position>(els: Seq<JsonModel>, n: int) -> Result<
    Seq<Seq<Seq<JsonModel>>>,
    ErrorModel,
>
    decreases n,
{
    if 0 < n <= els.len() {
        match polygons_from_json::<P>(els, n - 1) {
            Result::Err(e) => Result::Err(e),
            Result::Ok(qs) => match els[n - 1] {
                JsonModel::Array(q) => match lines_from_json::<P>(q, q.len() as int) {
                    Result::Ok(ls) => Result::Ok(qs.push(ls)),
                    Result::Err(e) => Result::Err(e),
                },
                _ => Result::Err(ErrorModel::ExpectedArray(els[n - 1])),
            },
        }
    } else {
        Result::Ok(Seq::empty())
    }
}

/// Reads the first `n` values of `els` as numbers, for a bounding box.
pub open spec fn numbers_from_json(els: Seq<JsonModel>, n: int) -> Result<
    Seq<serde_json::Number>,
    ErrorModel,
>
    decreases n,
{
    if 0 < n <= els.len() {
        match numbers_from_json(els, n - 1) {
            Result::Err(e) => Result::Err(e),
            Result::Ok(ns) => match els[n - 1] {
                JsonModel::Number(x) => Result::Ok(ns.push(x)),
                _ => Result::Err(ErrorModel::InvalidBbox(els[n - 1])),
            },
        }
    } else {
        Result::Ok(Seq::empty())
    }
}

/// Reads a `"bbox"` member's value: it must be an array of numbers.
pub open spec fn bbox_from_json(v: JsonModel) -> Result<Seq<serde_json::Number>, ErrorModel> {
    match v {
        JsonModel::Array(els) => numbers_from_json(els, els.len() as int),
        _ => Result::Err(ErrorModel::InvalidBbox(v)),
    }
}

/// The optional bounding box of object `o`, or why it is unreadable.
pub open spec fn bbox_member_from(o: ObjectModel) -> Result<
    Option<Seq<serde_json::Number>>,
    ErrorModel,
> {
    match obj_lookup(o, "bbox"@) {
        Option::None => Result::Ok(Option::None),
        Option::Some(v) => match bbox_from_json(v) {
            Result::Ok(ns) => Result::Ok(Option::Some(ns)),
            Result::Err(e) => Result::Err(e),
        },
    }
}

/// Reads the `"coordinates"` value of a coordinate-bearing shape with the
/// given tag.
pub open spec fn coordinates_from_json<P: Position>(tag: Seq<char>, v: JsonModel) -> Result<
    ValueModel,
    ErrorModel,
> {
    if tag == "Point"@ {
        if is_position_encoding::<P>(v) {
            Result::Ok(ValueModel::Point(v))
        } else {
            Result::Err(ErrorModel::InvalidPosition(v))
        }
    } else if tag == "MultiPoint"@ || tag == "LineString"@ {
        match v {
            JsonModel::Array(els) => match positions_from_json::<P>(els, els.len() as int) {
                Result::Ok(ps) => Result::Ok(
                    if tag == "MultiPoint"@ {
                        ValueModel::MultiPoint(ps)
                    } else {
                        ValueModel::LineString(ps)
                    },
                ),
                Result::Err(e) => Result::Err(e),
            },
            _ => Result::Err(ErrorModel::ExpectedArray(v)),
        }
    } else if tag == "MultiLineString"@ || tag == "Polygon"@ {
        match v {
            JsonModel::Array(els) => match lines_from_json::<P>(els, els.len() as int) {
                Result::Ok(ls) => Result::Ok(
                    if tag == "MultiLineString"@ {
                        ValueModel::MultiLineString(ls)
                    } else {
                        ValueModel::Polygon(ls)
                    },
                ),
                Result::Err(e) => Result::Err(e),
            },
            _ => Result::Err(ErrorModel::ExpectedArray(v)),
        }
    } else {
        match v {
            JsonModel::Array(els) => match polygons_from_json::<P>(els, els.len() as int) {
                Result::Ok(qs) => Result::Ok(ValueModel::MultiPolygon(qs)),
                Result::Err(e) => Result::Err(e),
            },
            _ => Result::Err(ErrorModel::ExpectedArray(v)),
        }
    }
}

/// Reads the first `n` values of `els` as geometry objects.
pub open spec fn geometries_from_json<P: Position>(els: Seq<JsonModel>, n: int) -> Result<
    Seq<GeometryModel>,
    ErrorModel,
>
    decreases jm_list_size(els, n),
    via geometries_from_json_decreases::<P>
{
    if 0 < n <= els.len() {
        match geometries_from_json::<P>(els, n - 1) {
            Result::Err(e) => Result::Err(e),
            Result::Ok(gs) => match els[n - 1] {
                JsonModel::Object(o2) => match geometry_from_object_model::<P>(o2) {
                    Result::Ok(g) => Result::Ok(gs.push(g)),
                    Result::Err(e) => Result::Err(e),
                },
                _ => Result::Err(ErrorModel::ExpectedObject(els[n - 1])),
            },
        }
    } else {
        Result::Ok(Seq::empty())
    }
}

#[via_fn]
proof fn geometries_from_json_decreases<P: Position>(els: Seq<JsonModel>, n: int) {
    if 0 < n <= els.len() {
        assert(jm_list_size(els, n) == jm_list_size(els, n - 1) + 1 + jm_size(els[n - 1]));
        if let JsonModel::Object(o2) = els[n - 1] {
            assert(jm_size(els[n - 1]) == 1 + jm_entries_size(o2, o2.len() as int));
        }
    }
}

/// What converting a JSON object to a geometry yields: the typed geometry on
/// success, and the reason with its offending value otherwise.
pub open spec fn geometry_from_object_model<P: Position>(o: ObjectModel) -> Result<
    GeometryModel,
    ErrorModel,
>
    decreases jm_entries_size(o, o.len() as int),
    via geometry_from_object_model_decreases::<P>
{
    match obj_lookup(o, "type"@) {
        Option::Some(JsonModel::String(tag)) => {
            if is_geometry_tag(tag) {
                let content = if tag == "GeometryCollection"@ {
                    match obj_lookup(o, "geometries"@) {
                        Option::None => Result::Err(ErrorModel::ExpectedProperty("geometries"@)),
                        Option::Some(JsonModel::Array(els)) => match geometries_from_json::<P>(
                            els,
                            els.len() as int,
                        ) {
                            Result::Ok(gs) => Result::Ok(ValueModel::GeometryCollection(gs)),
                            Result::Err(e) => Result::Err(e),
                        },
                        Option::Some(v) => Result::Err(ErrorModel::ExpectedArray(v)),
                    }
                } else {
                    match obj_lookup(o, "coordinates"@) {
                        Option::None => Result::Err(ErrorModel::ExpectedProperty("coordinates"@)),
                        Option::Some(cv) => coordinates_from_json::<P>(tag, cv),
                    }
                };
                match content {
                    Result::Err(e) => Result::Err(e),
                    Result::Ok(value) => match bbox_member_from(o) {
                        Result::Err(e) => Result::Err(e),
                        Result::Ok(bbox) => Result::Ok(
                            GeometryModel {
                                value,
                                bbox,
                                foreign_members: foreign_of(o, geometry_keys()),
                            },
                        ),
                    },
                }
            } else if tag == "Feature"@ || tag == "FeatureCollection"@ {
                Result::Err(ErrorModel::ExpectedType { expected: "Geometry"@, actual: tag })
            } else {
                Result::Err(ErrorModel::EmptyType)
            }
        },
        Option::Some(_) => Result::Err(ErrorModel::GeometryUnknownType("type"@)),
        Option::None => Result::Err(ErrorModel::GeometryUnknownType("type"@)),
    }
}

#[via_fn]
proof fn geometry_from_object_model_decreases<P: Position>(o: ObjectModel) {
    if obj_lookup(o, "geometries"@) is Some {
        lemma_lookup_size(o, "geometries"@, o.len() as int);
    }
}

/// The model of an optional slot filled while walking an object's members.
pub open spec fn opt_model(x: Option<JsonValue>) -> Option<JsonModel> {
    match x {
        Option::None => Option::None,
        Option::Some(v) => Option::Some(v@),
    }
}

/// The encodings of a prefix are the encodings of its positions, in order.
pub proof fn lemma_positions_model_len<P: Position>(s: Seq<P>, n: int)
    requires
        0 <= n <= s.len(),
    ensures
        positions_model::<P>(s, n).len() == n,
        forall|i: int| 0 <= i < n ==> #[trigger] positions_model::<P>(s, n)[i] == s[i].encoded(),
    decreases n,
{
    if n > 0 {
        lemma_positions_model_len::<P>(s, n - 1);
    }
}

/// The models of a prefix of lines, pointwise.
pub proof fn lemma_lines_model_len<P: Position>(s: Seq<Vec<P>>, n: int)
    requires
        0 <= n <= s.len(),
    ensures
        lines_model::<P>(s, n).len() == n,
        forall|i: int|
            0 <= i < n ==> #[trigger] lines_model::<P>(s, n)[i] == positions_model::<P>(
                s[i]@,
                s[i]@.len() as int,
            ),
    decreases n,
{
    if n > 0 {
        lemma_lines_model_len::<P>(s, n - 1);
    }
}

/// The models of a prefix of polygons, pointwise.
pub proof fn lemma_polygons_model_len<P: Position>(s: Seq<Vec<Vec<P>>>, n: int)
    requires
        0 <= n <= s.len(),
    ensures
        polygons_model::<P>(s, n).len() == n,
        forall|i: int|
            0 <= i < n ==> #[trigger] polygons_model::<P>(s, n)[i] == lines_model::<P>(
                s[i]@,
                s[i]@.len() as int,
            ),
    decreases n,
{
    if n > 0 {
        lemma_polygons_model_len::<P>(s, n - 1);
    }
}

/// The models of a prefix of geometries, pointwise.
pub proof fn lemma_geometries_model_len<P: Position>(s: Seq<Geometry<P>>, n: int)
    requires
        0 <= n <= s.len(),
    ensures
        geometries_model::<P>(s, n).len() == n,
        forall|i: int| 0 <= i < n ==> #[trigger] geometries_model::<P>(s, n)[i] == s[i].model(),
    decreases n,
{
    if n > 0 {
        lemma_geometries_model_len::<P>(s, n - 1);
    }
}

/// A failed prefix fails the whole list, with the same error.
pub proof fn lemma_positions_err_mono<P: Position>(els: Seq<JsonModel>, j: int, n: int)
    requires
        0 <= j <= n <= els.len(),
        positions_from_json::<P>(els, j) is Err,
    ensures
        positions_from_json::<P>(els, n) == positions_from_json::<P>(els, j),
    decreases n,
{
    if j < n {
        lemma_positions_err_mono::<P>(els, j, n - 1);
    }
}

/// A failed prefix fails the whole list, with the same error.
pub proof fn lemma_lines_err_mono<P: Position>(els: Seq<JsonModel>, j: int, n: int)
    requires
        0 <= j <= n <= els.len(),
        lines_from_json::<P>(els, j) is Err,
    ensures
        lines_from_json::<P>(els, n) == lines_from_json::<P>(els, j),
    decreases n,
{
    if j < n {
        lemma_lines_err_mono::<P>(els, j, n - 1);
    }
}

/// A failed prefix fails the whole list, with the same error.
pub proof fn lemma_polygons_err_mono<P: Position>(els: Seq<JsonModel>, j: int, n: int)
    requires
        0 <= j <= n <= els.len(),
        polygons_from_json::<P>(els, j) is Err,
    ensures
        polygons_from_json::<P>(els, n) == polygons_from_json::<P>(els, j),
    decreases n,
{
    if j < n {
        lemma_polygons_err_mono::<P>(els, j, n - 1);
    }
}

/// A failed prefix fails the whole list, with the same error.
pub proof fn lemma_numbers_err_mono(els: Seq<JsonModel>, j: int, n: int)
    requires
        0 <= j <= n <= els.len(),
        numbers_from_json(els, j) is Err,
    ensures
        numbers_from_json(els, n) == numbers_from_json(els, j),
    decreases n,
{
    if j < n {
        lemma_numbers_err_mono(els, j, n - 1);
    }
}

/// A failed prefix fails the whole list, with the same error.
pub proof fn lemma_geometries_err_mono<P: Position>(els: Seq<JsonModel>, j: int, n: int)
    requires
        0 <= j <= n <= els.len(),
        geometries_from_json::<P>(els, j) is Err,
    ensures
        geometries_from_json::<P>(els, n) == geometries_from_json::<P>(els, j),
    decreases n,
{
    if j < n {
        lemma_geometries_err_mono::<P>(els, j, n - 1);
    }
}

impl<P: Position> GeometryValue<P> {
    /// The `"type"` tag this shape is written with.
    pub fn tag_string(&self) -> (r: String)
        ensures
            r@ == tag_of((*self).model()),
    {
        let s: &str = match *self {
            GeometryValue::Point(_) => "Point",
            GeometryValue::MultiPoint(_) => "MultiPoint",
            GeometryValue::LineString(_) => "LineString",
            GeometryValue::MultiLineString(_) => "MultiLineString",
            GeometryValue::Polygon(_) => "Polygon",
            GeometryValue::MultiPolygon(_) => "MultiPolygon",
            GeometryValue::GeometryCollection(_) => "GeometryCollection",
        };
        s.to_owned()
    }
}

/// Converts positions into a JSON array of their encodings.
fn positions_to_json<P: Position>(ps: Vec<P>) -> (r: JsonValue)
    ensures
        r@ == JsonModel::Array(positions_model::<P>(ps@, ps@.len() as int)),
{
    let ghost s0 = ps@;
    let mut rest = ps;
    let mut out: Vec<JsonValue> = Vec::new();
    while rest.len() > 0
        invariant
            out@.len() + rest@.len() == s0.len(),
            rest@ == s0.skip(out@.len() as int),
            JsonValue::model_list(out@, out@.len() as int) == positions_model::<P>(
                s0,
                out@.len() as int,
            ),
        decreases rest@.len(),
    {
        let ghost n = out@.len() as int;
        let p = rest.remove(0);
        proof {
            assert(p == s0[n]);
            assert(rest@ =~= s0.skip(n + 1));
        }
        let v = p.into_json();
        proof {
            lemma_model_list_len(out@, n);
            lemma_positions_model_len::<P>(s0, n);
        }
        out.push(v);
        proof {
            lemma_model_list_len(out@, n + 1);
            lemma_positions_model_len::<P>(s0, n + 1);
            assert(JsonValue::model_list(out@, n + 1) =~= positions_model::<P>(s0, n + 1));
        }
    }
    proof {
        assert(out@.len() == s0.len());
    }
    JsonValue::Array(out)
}

/// Converts lines into a JSON array of position arrays.
fn lines_to_json<P: Position>(ls: Vec<Vec<P>>) -> (r: JsonValue)
    ensures
        r@ == JsonModel::Array(
            arrays_of(lines_model::<P>(ls@, ls@.len() as int), ls@.len() as int),
        ),
{
    let ghost s0 = ls@;
    let ghost m0 = lines_model::<P>(ls@, ls@.len() as int);
    let mut rest = ls;
    let mut out: Vec<JsonValue> = Vec::new();
    proof {
        lemma_lines_model_len::<P>(s0, s0.len() as int);
    }
    while rest.len() > 0
        invariant
            m0 == lines_model::<P>(s0, s0.len() as int),
            m0.len() == s0.len(),
            forall|i: int|
                0 <= i < s0.len() ==> #[trigger] m0[i] == positions_model::<P>(
                    s0[i]@,
                    s0[i]@.len() as int,
                ),
            out@.len() + rest@.len() == s0.len(),
            rest@ == s0.skip(out@.len() as int),
            JsonValue::model_list(out@, out@.len() as int) =~= arrays_of(m0, out@.len() as int),
        decreases rest@.len(),
    {
        let ghost n = out@.len() as int;
        let line = rest.remove(0);
        proof {
            assert(line == s0[n]);
            assert(rest@ =~= s0.skip(n + 1));
        }
        let v = positions_to_json(line);
        proof {
            lemma_model_list_len(out@, n);
        }
        out.push(v);
        proof {
            lemma_model_list_len(out@, n + 1);
            assert(JsonValue::model_list(out@, n + 1) =~= arrays_of(m0, n + 1));
        }
    }
    JsonValue::Array(out)
}

/// Converts polygons into a JSON array of line arrays.
fn polygons_to_json<P: Position>(qs: Vec<Vec<Vec<P>>>) -> (r: JsonValue)
    ensures
        r@ == JsonModel::Array(
            arrays2_of(polygons_model::<P>(qs@, qs@.len() as int), qs@.len() as int),
        ),
{
    let ghost s0 = qs@;
    let ghost m0 = polygons_model::<P>(qs@, qs@.len() as int);
    let mut rest = qs;
    let mut out: Vec<JsonValue> = Vec::new();
    proof {
        lemma_polygons_model_len::<P>(s0, s0.len() as int);
    }
    while rest.len() > 0
        invariant
            m0 == polygons_model::<P>(s0, s0.len() as int),
            m0.len() == s0.len(),
            forall|i: int|
                0 <= i < s0.len() ==> #[trigger] m0[i] == lines_model::<P>(
                    s0[i]@,
                    s0[i]@.len() as int,
                ),
            out@.len() + rest@.len() == s0.len(),
            rest@ == s0.skip(out@.len() as int),
            JsonValue::model_list(out@, out@.len() as int) =~= arrays2_of(m0, out@.len() as int),
        decreases rest@.len(),
    {
        let ghost n = out@.len() as int;
        let poly = rest.remove(0);
        proof {
            assert(poly == s0[n]);
            assert(rest@ =~= s0.skip(n + 1));
        }
        let v = lines_to_json(poly);
        proof {
            lemma_model_list_len(out@, n);
            lemma_lines_model_len::<P>(poly@, poly@.len() as int);
        }
        out.push(v);
        proof {
            lemma_model_list_len(out@, n + 1);
            assert(JsonValue::model_list(out@, n + 1) =~= arrays2_of(m0, n + 1));
        }
    }
    JsonValue::Array(out)
}

/// Converts a bounding box into a JSON array of numbers.
pub(crate) fn numbers_to_json(ns: Vec<serde_json::Number>) -> (r: JsonValue)
    ensures
        r@ == JsonModel::Array(numbers_json_of(ns@, ns@.len() as int)),
{
    let ghost s0 = ns@;
    let mut rest = ns;
    let mut out: Vec<JsonValue> = Vec::new();
    while rest.len() > 0
        invariant
            out@.len() + rest@.len() == s0.len(),
            rest@ == s0.skip(out@.len() as int),
            JsonValue::model_list(out@, out@.len() as int) =~= numbers_json_of(
                s0,
                out@.len() as int,
            ),
        decreases rest@.len(),
    {
        let ghost n = out@.len() as int;
        let x = rest.remove(0);
        proof {
            assert(x == s0[n]);
            assert(rest@ =~= s0.skip(n + 1));
        }
        proof {
            lemma_model_list_len(out@, n);
            lemma_numbers_json_of_len(s0, n);
        }
        out.push(JsonValue::Number(x));
        proof {
            lemma_model_list_len(out@, n + 1);
            lemma_numbers_json_of_len(s0, n + 1);
            assert(JsonValue::model_list(out@, n + 1) =~= numbers_json_of(s0, n + 1));
        }
    }
    JsonValue::Array(out)
}

/// Appends every member of `src` at the end of `dst`, in order.
pub fn append_members(dst: &mut JsonObject, src: JsonObject)
    ensures
        final(dst)@ == old(dst)@ + src@,
{
    let ghost s0 = src@;
    let mut rest = src;
    while rest.len() > 0
        invariant
            rest@.len() <= s0.len(),
            rest@ == s0.skip((s0.len() - rest@.len()) as int),
            dst@ =~= old(dst)@ + s0.take((s0.len() - rest@.len()) as int),
        decreases rest@.len(),
    {
        let ghost j = (s0.len() - rest@.len()) as int;
        let kv = rest.take_first();
        proof {
            assert(rest@ =~= s0.skip(j + 1));
            assert(s0.skip(j)[0] == s0[j]);
        }
        dst.push(kv.0, kv.1);
        proof {
            assert(dst@ =~= old(dst)@ + s0.take(j + 1));
        }
    }
    proof {
        assert(s0.take(s0.len() as int) =~= s0);
        assert(dst@ =~= old(dst)@ + s0);
    }
}

impl<P: Position> Geometry<P> {
    /// A geometry around the given shape, with no bounding box and no foreign
    /// members.
    pub fn new(value: GeometryValue<P>) -> (r: Geometry<P>)
        ensures
            r@ == (GeometryModel {
                value: value.model(),
                bbox: Option::None,
                foreign_members: Option::None,
            }),
    {
        Geometry { value, bbox: Option::None, foreign_members: Option::None }
    }

    /// Converts the geometry into its JSON object, re-emitting its tag, its
    /// content, its bounding box and its foreign members. Total: every
    /// geometry has a JSON form.
    pub fn to_json_object(self) -> (r: JsonObject)
        ensures
            r@ == geometry_to_object_model(self@),
        decreases self, 2int,
    {
        let Geometry { value, bbox, foreign_members } = self;
        let mut obj = JsonObject::new();
        let tag = value.tag_string();
        obj.push("type".to_owned(), JsonValue::String(tag));
        match value {
            GeometryValue::GeometryCollection(gs) => {
                let ghost snap = gs@;
                proof {
                    assert(decreases_to!(self => self.value));
                    assert(decreases_to!(self.value => gs));
                    assert(decreases_to!(gs => gs@));
                    lemma_geometries_model_len::<P>(snap, snap.len() as int);
                }
                let arr = geometries_to_json_vec(gs, Ghost(snap));
                obj.push("geometries".to_owned(), arr);
            },
            other => {
                let cv = coordinates_to_json(other);
                obj.push("coordinates".to_owned(), cv);
            },
        }
        match bbox {
            Option::None => {},
            Option::Some(ns) => {
                let bv = numbers_to_json(ns);
                obj.push("bbox".to_owned(), bv);
            },
        }
        match foreign_members {
            Option::None => {},
            Option::Some(fo) => {
                append_members(&mut obj, fo);
            },
        }
        proof {
            assert(obj@ =~= geometry_to_object_model(self@));
        }
        obj
    }
}

/// Converts a coordinate-bearing shape's payload into its `"coordinates"`
/// value.
fn coordinates_to_json<P: Position>(value: GeometryValue<P>) -> (r: JsonValue)
    requires
        !(value is GeometryCollection),
    ensures
        r@ == coordinates_json(value.model()),
{
    match value {
        GeometryValue::Point(p) => p.into_json(),
        GeometryValue::MultiPoint(ps) => positions_to_json(ps),
        GeometryValue::LineString(ps) => positions_to_json(ps),
        GeometryValue::MultiLineString(ls) => {
            proof {
                lemma_lines_model_len::<P>(ls@, ls@.len() as int);
            }
            lines_to_json(ls)
        },
        GeometryValue::Polygon(ls) => {
            proof {
                lemma_lines_model_len::<P>(ls@, ls@.len() as int);
            }
            lines_to_json(ls)
        },
        GeometryValue::MultiPolygon(qs) => {
            proof {
                lemma_polygons_model_len::<P>(qs@, qs@.len() as int);
            }
            polygons_to_json(qs)
        },
        GeometryValue::GeometryCollection(_) => JsonValue::Null,
    }
}

/// Reads positions out of the values of a JSON array.
fn parse_positions<P: Position>(els: Vec<JsonValue>, snapshot: Ghost<Seq<JsonModel>>) -> (r:
    Result<Vec<P>, GeoJsonError>)
    requires
        snapshot@ == JsonValue::model_list(els@, els@.len() as int),
    ensures
        r matches Ok(ps) ==> positions_from_json::<P>(snapshot@, snapshot@.len() as int) == Ok::<
            Seq<JsonModel>,
            ErrorModel,
        >(positions_model::<P>(ps@, ps@.len() as int)),
        r matches Err(e) ==> positions_from_json::<P>(snapshot@, snapshot@.len() as int) == Err::<
            Seq<JsonModel>,
            ErrorModel,
        >(e@),
{
    let ghost s0 = els@;
    let ghost m0 = snapshot@;
    proof {
        lemma_model_list_len(s0, s0.len() as int);
    }
    let mut rest = els;
    let mut out: Vec<P> = Vec::new();
    while rest.len() > 0
        invariant
            snapshot@ == m0,
            m0.len() == s0.len(),
            forall|i: int| 0 <= i < s0.len() ==> #[trigger] m0[i] == s0[i]@,
            out@.len() + rest@.len() == s0.len(),
            rest@ == s0.skip(out@.len() as int),
            positions_from_json::<P>(m0, out@.len() as int) == Ok::<Seq<JsonModel>, ErrorModel>(
                positions_model::<P>(out@, out@.len() as int),
            ),
        decreases rest@.len(),
    {
        let ghost n = out@.len() as int;
        let v = rest.remove(0);
        proof {
            assert(v == s0[n]);
            assert(rest@ =~= s0.skip(n + 1));
            lemma_positions_model_len::<P>(out@, n);
        }
        let ghost prev = positions_model::<P>(out@, n);
        match P::from_json(v) {
            Result::Ok(p) => {
                out.push(p);
                proof {
                    lemma_positions_model_len::<P>(out@, n + 1);
                    assert(is_position_encoding::<P>(m0[n]));
                    assert(positions_model::<P>(out@, n + 1) =~= prev.push(m0[n]));
                }
            },
            Result::Err(w) => {
                proof {
                    assert(!is_position_encoding::<P>(m0[n]));
                    lemma_positions_err_mono::<P>(m0, n + 1, m0.len() as int);
                }
                return Result::Err(GeoJsonError::InvalidPosition(w));
            },
        }
    }
    Result::Ok(out)
}

/// Reads position lists out of the values of a JSON array.
fn parse_lines<P: Position>(els: Vec<JsonValue>, snapshot: Ghost<Seq<JsonModel>>) -> (r: Result<
    Vec<Vec<P>>,
    GeoJsonError,
>)
    requires
        snapshot@ == JsonValue::model_list(els@, els@.len() as int),
    ensures
        r matches Ok(ls) ==> lines_from_json::<P>(snapshot@, snapshot@.len() as int) == Ok::<
            Seq<Seq<JsonModel>>,
            ErrorModel,
        >(lines_model::<P>(ls@, ls@.len() as int)),
        r matches Err(e) ==> lines_from_json::<P>(snapshot@, snapshot@.len() as int) == Err::<
            Seq<Seq<JsonModel>>,
            ErrorModel,
        >(e@),
{
    let ghost s0 = els@;
    let ghost m0 = snapshot@;
    proof {
        lemma_model_list_len(s0, s0.len() as int);
    }
    let mut rest = els;
    let mut out: Vec<Vec<P>> = Vec::new();
    while rest.len() > 0
        invariant
            snapshot@ == m0,
            m0.len() == s0.len(),
            forall|i: int| 0 <= i < s0.len() ==> #[trigger] m0[i] == s0[i]@,
            out@.len() + rest@.len() == s0.len(),
            rest@ == s0.skip(out@.len() as int),
            lines_from_json::<P>(m0, out@.len() as int) == Ok::<Seq<Seq<JsonModel>>, ErrorModel>(
                lines_model::<P>(out@, out@.len() as int),
            ),
        decreases rest@.len(),
    {
        let ghost n = out@.len() as int;
        let v = rest.remove(0);
        proof {
            assert(v == s0[n]);
            assert(rest@ =~= s0.skip(n + 1));
            lemma_lines_model_len::<P>(out@, n);
        }
        let ghost prev = lines_model::<P>(out@, n);
        match v {
            JsonValue::Array(a) => {
                let ghost am = JsonValue::model_list(a@, a@.len() as int);
                proof {
                    lemma_model_list_len(a@, a@.len() as int);
                }
                match parse_positions::<P>(a, Ghost(am)) {
                    Result::Ok(ps) => {
                        proof {
                            lemma_positions_model_len::<P>(ps@, ps@.len() as int);
                        }
                        out.push(ps);
                        proof {
                            lemma_lines_model_len::<P>(out@, n + 1);
                            assert(lines_model::<P>(out@, n + 1) =~= prev.push(
                                positions_model::<P>(ps@, ps@.len() as int),
                            ));
                        }
                    },
                    Result::Err(e) => {
                        proof {
                            lemma_lines_err_mono::<P>(m0, n + 1, m0.len() as int);
                        }
                        return Result::Err(e);
                    },
                }
            },
            other => {
                proof {
                    lemma_lines_err_mono::<P>(m0, n + 1, m0.len() as int);
                }
                return Result::Err(GeoJsonError::ExpectedArray(other));
            },
        }
    }
    Result::Ok(out)
}

/// Reads lists of position lists out of the values of a JSON array.
fn parse_polygons<P: Position>(els: Vec<JsonValue>, snapshot: Ghost<Seq<JsonModel>>) -> (r:
    Result<Vec<Vec<Vec<P>>>, GeoJsonError>)
    requires
        snapshot@ == JsonValue::model_list(els@, els@.len() as int),
    ensures
        r matches Ok(qs) ==> polygons_from_json::<P>(snapshot@, snapshot@.len() as int) == Ok::<
            Seq<Seq<Seq<JsonModel>>>,
            ErrorModel,
        >(polygons_model::<P>(qs@, qs@.len() as int)),
        r matches Err(e) ==> polygons_from_json::<P>(snapshot@, snapshot@.len() as int) == Err::<
            Seq<Seq<Seq<JsonModel>>>,
            ErrorModel,
        >(e@),
{
    let ghost s0 = els@;
    let ghost m0 = snapshot@;
    proof {
        lemma_model_list_len(s0, s0.len() as int);
    }
    let mut rest = els;
    let mut out: Vec<Vec<Vec<P>>> = Vec::new();
    while rest.len() > 0
        invariant
            snapshot@ == m0,
            m0.len() == s0.len(),
            forall|i: int| 0 <= i < s0.len() ==> #[trigger] m0[i] == s0[i]@,
            out@.len() + rest@.len() == s0.len(),
            rest@ == s0.skip(out@.len() as int),
            polygons_from_json::<P>(m0, out@.len() as int) == Ok::<
                Seq<Seq<Seq<JsonModel>>>,
                ErrorModel,
            >(polygons_model::<P>(out@, out@.len() as int)),
        decreases rest@.len(),
    {
        let ghost n = out@.len() as int;
        let v = rest.remove(0);
        proof {
            assert(v == s0[n]);
            assert(rest@ =~= s0.skip(n + 1));
            lemma_polygons_model_len::<P>(out@, n);
        }
        let ghost prev = polygons_model::<P>(out@, n);
        match v {
            JsonValue::Array(a) => {
                let ghost am = JsonValue::model_list(a@, a@.len() as int);
                proof {
                    lemma_model_list_len(a@, a@.len() as int);
                }
                match parse_lines::<P>(a, Ghost(am)) {
                    Result::Ok(ls) => {
                        proof {
                            lemma_lines_model_len::<P>(ls@, ls@.len() as int);
                        }
                        out.push(ls);
                        proof {
                            lemma_polygons_model_len::<P>(out@, n + 1);
                            assert(polygons_model::<P>(out@, n + 1) =~= prev.push(
                                lines_model::<P>(ls@, ls@.len() as int),
                            ));
                        }
                    },
                    Result::Err(e) => {
                        proof {
                            lemma_polygons_err_mono::<P>(m0, n + 1, m0.len() as int);
                        }
                        return Result::Err(e);
                    },
                }
            },
            other => {
                proof {
                    lemma_polygons_err_mono::<P>(m0, n + 1, m0.len() as int);
                }
                return Result::Err(GeoJsonError::ExpectedArray(other));
            },
        }
    }
    Result::Ok(out)
}

/// Reads a bounding box out of a `"bbox"` member's value.
pub(crate) fn bbox_from_value(v: JsonValue, snapshot: Ghost<JsonModel>) -> (r: Result<
    Vec<serde_json::Number>,
    GeoJsonError,
>)
    requires
        snapshot@ == v@,
    ensures
        r matches Ok(ns) ==> bbox_from_json(snapshot@) == Ok::<Seq<serde_json::Number>, ErrorModel>(
            ns@,
        ),
        r matches Err(e) ==> bbox_from_json(snapshot@) == Err::<
            Seq<serde_json::Number>,
            ErrorModel,
        >(e@),
{
    match v {
        JsonValue::Array(a) => {
            let ghost s0 = a@;
            let ghost m0 = JsonValue::model_list(a@, a@.len() as int);
            proof {
                lemma_model_list_len(s0, s0.len() as int);
            }
            let mut rest = a;
            let mut out: Vec<serde_json::Number> = Vec::new();
            while rest.len() > 0
                invariant
                    snapshot@ == JsonModel::Array(m0),
                    m0.len() == s0.len(),
                    forall|i: int| 0 <= i < s0.len() ==> #[trigger] m0[i] == s0[i]@,
                    out@.len() + rest@.len() == s0.len(),
                    rest@ == s0.skip(out@.len() as int),
                    numbers_from_json(m0, out@.len() as int) == Ok::<
                        Seq<serde_json::Number>,
                        ErrorModel,
                    >(out@),
                decreases rest@.len(),
            {
                let ghost n = out@.len() as int;
                let el = rest.remove(0);
                proof {
                    assert(el == s0[n]);
                    assert(rest@ =~= s0.skip(n + 1));
                }
                match el {
                    JsonValue::Number(x) => {
                        out.push(x);
                        proof {
                            assert(numbers_from_json(m0, n + 1) == Ok::<
                                Seq<serde_json::Number>,
                                ErrorModel,
                            >(out@));
                        }
                    },
                    other => {
                        proof {
                            lemma_numbers_err_mono(m0, n + 1, m0.len() as int);
                        }
                        return Result::Err(GeoJsonError::InvalidBbox(other));
                    },
                }
            }
            Result::Ok(out)
        },
        other => Result::Err(GeoJsonError::InvalidBbox(other)),
    }
}

/// Converts geometries into the JSON array of their objects.
fn geometries_to_json_vec<P: Position>(gs: Vec<Geometry<P>>, snapshot: Ghost<Seq<Geometry<P>>>) -> (r:
    JsonValue)
    requires
        snapshot@ == gs@,
    ensures
        r@ == JsonModel::Array(
            geometries_to_json(
                geometries_model::<P>(snapshot@, snapshot@.len() as int),
                snapshot@.len() as int,
            ),
        ),
    decreases snapshot@, 0int,
{
    let ghost s0 = snapshot@;
    let ghost m0 = geometries_model::<P>(s0, s0.len() as int);
    let mut rest = gs;
    let mut out: Vec<JsonValue> = Vec::new();
    proof {
        lemma_geometries_model_len::<P>(s0, s0.len() as int);
    }
    while rest.len() > 0
        invariant
            snapshot@ == s0,
            m0 == geometries_model::<P>(s0, s0.len() as int),
            m0.len() == s0.len(),
            forall|i: int| 0 <= i < s0.len() ==> #[trigger] m0[i] == s0[i].model(),
            out@.len() + rest@.len() == s0.len(),
            rest@ == s0.skip(out@.len() as int),
            JsonValue::model_list(out@, out@.len() as int) =~= geometries_to_json(
                m0,
                out@.len() as int,
            ),
        decreases rest@.len(),
    {
        let ghost n = out@.len() as int;
        let g = rest.remove(0);
        proof {
            assert(g == s0[n]);
            assert(rest@ =~= s0.skip(n + 1));
            assert(0 <= n < s0.len());
            assert(decreases_to!(s0 => s0[n]));
            assert(decreases_to!(s0, 0int => g, 2int));
        }
        let go = g.to_json_object();
        proof {
            lemma_model_list_len(out@, n);
        }
        out.push(JsonValue::Object(go));
        proof {
            lemma_model_list_len(out@, n + 1);
            assert(JsonValue::model_list(out@, n + 1) =~= geometries_to_json(m0, n + 1));
        }
    }
    JsonValue::Array(out)
}


/// Reads geometry objects out of the values of a JSON array.
fn parse_geometries<P: Position>(els: Vec<JsonValue>, snapshot: Ghost<Seq<JsonModel>>) -> (r:
    Result<Vec<Geometry<P>>, GeoJsonError>)
    requires
        snapshot@ == JsonValue::model_list(els@, els@.len() as int),
    ensures
        r matches Ok(gs) ==> geometries_from_json::<P>(snapshot@, snapshot@.len() as int) == Ok::<
            Seq<GeometryModel>,
            ErrorModel,
        >(geometries_model::<P>(gs@, gs@.len() as int)),
        r matches Err(e) ==> geometries_from_json::<P>(snapshot@, snapshot@.len() as int) == Err::<
            Seq<GeometryModel>,
            ErrorModel,
        >(e@),
    decreases jm_list_size(snapshot@, snapshot@.len() as int), 0int,
{
    let ghost s0 = els@;
    let ghost m0 = snapshot@;
    proof {
        lemma_model_list_len(s0, s0.len() as int);
    }
    let mut rest = els;
    let mut out: Vec<Geometry<P>> = Vec::new();
    while rest.len() > 0
        invariant
            snapshot@ == m0,
            m0.len() == s0.len(),
            forall|i: int| 0 <= i < s0.len() ==> #[trigger] m0[i] == s0[i]@,
            out@.len() + rest@.len() == s0.len(),
            rest@ == s0.skip(out@.len() as int),
            geometries_from_json::<P>(m0, out@.len() as int) == Ok::<
                Seq<GeometryModel>,
                ErrorModel,
            >(geometries_model::<P>(out@, out@.len() as int)),
        decreases rest@.len(),
    {
        let ghost n = out@.len() as int;
        let v = rest.remove(0);
        proof {
            assert(v == s0[n]);
            assert(rest@ =~= s0.skip(n + 1));
            lemma_geometries_model_len::<P>(out@, n);
        }
        let ghost prev = geometries_model::<P>(out@, n);
        match v {
            JsonValue::Object(o2) => {
                let ghost om = o2@;
                proof {
                    lemma_member_size(m0, n, m0.len() as int);
                    assert(m0[n] == JsonModel::Object(om));
                    assert(jm_size(m0[n]) == 1 + jm_entries_size(om, om.len() as int));
                }
                match Geometry::<P>::try_from_impl(o2, Ghost(om)) {
                    Result::Ok(g) => {
                        out.push(g);
                        proof {
                            lemma_geometries_model_len::<P>(out@, n + 1);
                            assert(geometries_model::<P>(out@, n + 1) =~= prev.push(g@));
                        }
                    },
                    Result::Err(e) => {
                        proof {
                            lemma_geometries_err_mono::<P>(m0, n + 1, m0.len() as int);
                        }
                        return Result::Err(e);
                    },
                }
            },
            other => {
                proof {
                    lemma_geometries_err_mono::<P>(m0, n + 1, m0.len() as int);
                }
                return Result::Err(GeoJsonError::ExpectedObject(other));
            },
        }
    }
    Result::Ok(out)
}

/// Reads the `"coordinates"` value of a coordinate-bearing shape.
fn parse_coordinates<P: Position>(tag: &str, cv: JsonValue) -> (r: Result<
    GeometryValue<P>,
    GeoJsonError,
>)
    requires
        is_geometry_tag(tag@),
        tag@ != "GeometryCollection"@,
    ensures
        r matches Ok(v) ==> coordinates_from_json::<P>(tag@, cv@) == Ok::<ValueModel, ErrorModel>(
            v.model(),
        ),
        r matches Err(e) ==> coordinates_from_json::<P>(tag@, cv@) == Err::<ValueModel, ErrorModel>(
            e@,
        ),
{
    if str_eq(tag, "Point") {
        match P::from_json(cv) {
            Result::Ok(p) => Result::Ok(GeometryValue::Point(p)),
            Result::Err(w) => Result::Err(GeoJsonError::InvalidPosition(w)),
        }
    } else if str_eq(tag, "MultiPoint") || str_eq(tag, "LineString") {
        let is_mp = str_eq(tag, "MultiPoint");
        match cv {
            JsonValue::Array(a) => {
                let ghost am = JsonValue::model_list(a@, a@.len() as int);
                proof {
                    lemma_model_list_len(a@, a@.len() as int);
                }
                match parse_positions::<P>(a, Ghost(am)) {
                    Result::Ok(ps) => Result::Ok(
                        if is_mp {
                            GeometryValue::MultiPoint(ps)
                        } else {
                            GeometryValue::LineString(ps)
                        },
                    ),
                    Result::Err(e) => Result::Err(e),
                }
            },
            other => Result::Err(GeoJsonError::ExpectedArray(other)),
        }
    } else if str_eq(tag, "MultiLineString") || str_eq(tag, "Polygon") {
        let is_mls = str_eq(tag, "MultiLineString");
        match cv {
            JsonValue::Array(a) => {
                let ghost am = JsonValue::model_list(a@, a@.len() as int);
                proof {
                    lemma_model_list_len(a@, a@.len() as int);
                }
                match parse_lines::<P>(a, Ghost(am)) {
                    Result::Ok(ls) => Result::Ok(
                        if is_mls {
                            GeometryValue::MultiLineString(ls)
                        } else {
                            GeometryValue::Polygon(ls)
                        },
                    ),
                    Result::Err(e) => Result::Err(e),
                }
            },
            other => Result::Err(GeoJsonError::ExpectedArray(other)),
        }
    } else {
        match cv {
            JsonValue::Array(a) => {
                let ghost am = JsonValue::model_list(a@, a@.len() as int);
                proof {
                    lemma_model_list_len(a@, a@.len() as int);
                }
                match parse_polygons::<P>(a, Ghost(am)) {
                    Result::Ok(qs) => Result::Ok(GeometryValue::MultiPolygon(qs)),
                    Result::Err(e) => Result::Err(e),
                }
            },
            other => Result::Err(GeoJsonError::ExpectedArray(other)),
        }
    }
}

impl<P: Position> Geometry<P> {
    /// Converts a JSON object into a geometry: resolves the `"type"` tag,
    /// reads the coordinates or the collected geometries, the bounding box
    /// and the foreign members, and reports exactly why an object is no
    /// geometry.
    pub fn try_from(object: JsonObject) -> (r: Result<Geometry<P>, GeoJsonError>)
        ensures
            r matches Ok(g) ==> geometry_from_object_model::<P>(object@) == Ok::<
                GeometryModel,
                ErrorModel,
            >(g@),
            r matches Err(e) ==> geometry_from_object_model::<P>(object@) == Err::<
                GeometryModel,
                ErrorModel,
            >(e@),
    {
        let ghost snap = object@;
        Self::try_from_impl(object, Ghost(snap))
    }

    fn try_from_impl(object: JsonObject, snapshot: Ghost<ObjectModel>) -> (r: Result<
        Geometry<P>,
        GeoJsonError,
    >)
        requires
            snapshot@ == object@,
        ensures
            r matches Ok(g) ==> geometry_from_object_model::<P>(snapshot@) == Ok::<
                GeometryModel,
                ErrorModel,
            >(g@),
            r matches Err(e) ==> geometry_from_object_model::<P>(snapshot@) == Err::<
                GeometryModel,
                ErrorModel,
            >(e@),
        decreases jm_entries_size(snapshot@, snapshot@.len() as int), 1int,
    {
        let ghost o0 = snapshot@;
        let mut rest = object;
        let mut type_v: Option<JsonValue> = Option::None;
        let mut coords_v: Option<JsonValue> = Option::None;
        let mut geoms_v: Option<JsonValue> = Option::None;
        let mut bbox_v: Option<JsonValue> = Option::None;
        let mut foreign = JsonObject::new();
        while rest.len() > 0
            invariant
                snapshot@ == o0,
                rest@.len() <= o0.len(),
                rest@ == o0.skip((o0.len() - rest@.len()) as int),
                opt_model(type_v) == obj_lookup_upto(o0, "type"@, (o0.len() - rest@.len()) as int),
                opt_model(coords_v) == obj_lookup_upto(
                    o0,
                    "coordinates"@,
                    (o0.len() - rest@.len()) as int,
                ),
                opt_model(geoms_v) == obj_lookup_upto(
                    o0,
                    "geometries"@,
                    (o0.len() - rest@.len()) as int,
                ),
                opt_model(bbox_v) == obj_lookup_upto(o0, "bbox"@, (o0.len() - rest@.len()) as int),
                foreign@ == obj_foreign_upto(o0, geometry_keys(), (o0.len() - rest@.len()) as int),
            decreases rest@.len(),
        {
            let ghost j = (o0.len() - rest@.len()) as int;
            let kv = rest.take_first();
            let k = kv.0;
            let v = kv.1;
            proof {
                assert(rest@ =~= o0.skip(j + 1));
                assert(o0.skip(j)[0] == o0[j]);
                reveal_strlit("type");
                reveal_strlit("coordinates");
                reveal_strlit("geometries");
                reveal_strlit("bbox");
                assert("type"@[0] == 't');
                assert("coordinates"@[0] == 'c');
                assert("geometries"@[0] == 'g');
                assert("bbox"@[0] == 'b');
                assert("type"@ != "coordinates"@);
                assert("type"@ != "geometries"@);
                assert("type"@ != "bbox"@);
                assert("coordinates"@ != "geometries"@);
                assert("coordinates"@ != "bbox"@);
                assert("geometries"@ != "bbox"@);
            }
            if str_eq(k.as_str(), "type") {
                if type_v.is_none() {
                    type_v = Option::Some(v);
                }
            } else if str_eq(k.as_str(), "coordinates") {
                if coords_v.is_none() {
                    coords_v = Option::Some(v);
                }
            } else if str_eq(k.as_str(), "geometries") {
                if geoms_v.is_none() {
                    geoms_v = Option::Some(v);
                }
            } else if str_eq(k.as_str(), "bbox") {
                if bbox_v.is_none() {
                    bbox_v = Option::Some(v);
                }
            } else {
                proof {
                    assert(!geometry_keys().contains(o0[j].0));
                }
                foreign.push(k, v);
                proof {
                    assert(foreign@ =~= obj_foreign_upto(o0, geometry_keys(), j + 1));
                }
            }
        }
        match type_v {
            Option::Some(JsonValue::String(tag)) => {
                let is_gc = str_eq(tag.as_str(), "GeometryCollection");
                let is_coord = str_eq(tag.as_str(), "Point") || str_eq(tag.as_str(), "MultiPoint")
                    || str_eq(tag.as_str(), "LineString") || str_eq(tag.as_str(), "MultiLineString")
                    || str_eq(tag.as_str(), "Polygon") || str_eq(tag.as_str(), "MultiPolygon");
                if is_gc || is_coord {
                    let content: Result<GeometryValue<P>, GeoJsonError> = if is_gc {
                        match geoms_v {
                            Option::None => Result::Err(
                                GeoJsonError::ExpectedProperty("geometries".to_owned()),
                            ),
                            Option::Some(JsonValue::Array(a)) => {
                                let ghost am = JsonValue::model_list(a@, a@.len() as int);
                                proof {
                                    lemma_model_list_len(a@, a@.len() as int);
                                    lemma_lookup_size(o0, "geometries"@, o0.len() as int);
                                    assert(jm_size(JsonModel::Array(am)) == 1 + jm_list_size(
                                        am,
                                        am.len() as int,
                                    ));
                                }
                                match parse_geometries::<P>(a, Ghost(am)) {
                                    Result::Ok(gs) => Result::Ok(
                                        GeometryValue::GeometryCollection(gs),
                                    ),
                                    Result::Err(e) => Result::Err(e),
                                }
                            },
                            Option::Some(other) => Result::Err(GeoJsonError::ExpectedArray(other)),
                        }
                    } else {
                        match coords_v {
                            Option::None => Result::Err(
                                GeoJsonError::ExpectedProperty("coordinates".to_owned()),
                            ),
                            Option::Some(cv) => parse_coordinates::<P>(tag.as_str(), cv),
                        }
                    };
                    match content {
                        Result::Err(e) => Result::Err(e),
                        Result::Ok(value) => {
                            let bbox: Option<Vec<serde_json::Number>> = match bbox_v {
                                Option::None => Option::None,
                                Option::Some(bv) => {
                                    let ghost bm = bv@;
                                    match bbox_from_value(bv, Ghost(bm)) {
                                        Result::Ok(ns) => Option::Some(ns),
                                        Result::Err(e) => {
                                            return Result::Err(e);
                                        },
                                    }
                                },
                            };
                            let foreign_members: Option<JsonObject> = if foreign.len() == 0 {
                                Option::None
                            } else {
                                Option::Some(foreign)
                            };
                            Result::Ok(Geometry { value, bbox, foreign_members })
                        },
                    }
                } else if str_eq(tag.as_str(), "Feature") || str_eq(
                    tag.as_str(),
                    "FeatureCollection",
                ) {
                    Result::Err(
                        GeoJsonError::ExpectedType {
                            expected: "Geometry".to_owned(),
                            actual: tag,
                        },
                    )
                } else {
                    Result::Err(GeoJsonError::EmptyType)
                }
            },
            Option::Some(_) => Result::Err(GeoJsonError::GeometryUnknownType("type".to_owned())),
            Option::None => Result::Err(GeoJsonError::GeometryUnknownType("type".to_owned())),
        }
    }
}

/// Clones every position of a list; the clones have the same encodings.
fn clone_positions<P: Position>(ps: &Vec<P>) -> (r: Vec<P>)
    ensures
        positions_model::<P>(r@, r@.len() as int) == positions_model::<P>(ps@, ps@.len() as int),
{
    let mut out: Vec<P> = Vec::new();
    let mut i: usize = 0;
    while i < ps.len()
        invariant
            0 <= i <= ps@.len(),
            out@.len() == i,
            forall|k: int| 0 <= k < i ==> (#[trigger] out@[k]).encoded() == ps@[k].encoded(),
        decreases ps@.len() - i,
    {
        let p = ps[i].duplicate();
        out.push(p);
        i = i + 1;
    }
    proof {
        lemma_positions_model_len::<P>(out@, out@.len() as int);
        lemma_positions_model_len::<P>(ps@, ps@.len() as int);
        assert(positions_model::<P>(out@, out@.len() as int) =~= positions_model::<P>(
            ps@,
            ps@.len() as int,
        ));
    }
    out
}

/// Clones every line of a list; the clones have the same models.
fn clone_lines<P: Position>(ls: &Vec<Vec<P>>) -> (r: Vec<Vec<P>>)
    ensures
        lines_model::<P>(r@, r@.len() as int) == lines_model::<P>(ls@, ls@.len() as int),
{
    let mut out: Vec<Vec<P>> = Vec::new();
    let mut i: usize = 0;
    while i < ls.len()
        invariant
            0 <= i <= ls@.len(),
            out@.len() == i,
            forall|k: int|
                0 <= k < i ==> positions_model::<P>(
                    (#[trigger] out@[k])@,
                    out@[k]@.len() as int,
                ) == positions_model::<P>(ls@[k]@, ls@[k]@.len() as int),
        decreases ls@.len() - i,
    {
        let line = clone_positions(&ls[i]);
        out.push(line);
        i = i + 1;
    }
    proof {
        lemma_lines_model_len::<P>(out@, out@.len() as int);
        lemma_lines_model_len::<P>(ls@, ls@.len() as int);
        assert(lines_model::<P>(out@, out@.len() as int) =~= lines_model::<P>(
            ls@,
            ls@.len() as int,
        ));
    }
    out
}

/// Clones every polygon of a list; the clones have the same models.
fn clone_polygons<P: Position>(qs: &Vec<Vec<Vec<P>>>) -> (r: Vec<Vec<Vec<P>>>)
    ensures
        polygons_model::<P>(r@, r@.len() as int) == polygons_model::<P>(qs@, qs@.len() as int),
{
    let mut out: Vec<Vec<Vec<P>>> = Vec::new();
    let mut i: usize = 0;
    while i < qs.len()
        invariant
            0 <= i <= qs@.len(),
            out@.len() == i,
            forall|k: int|
                0 <= k < i ==> lines_model::<P>((#[trigger] out@[k])@, out@[k]@.len() as int)
                    == lines_model::<P>(qs@[k]@, qs@[k]@.len() as int),
        decreases qs@.len() - i,
    {
        let poly = clone_lines(&qs[i]);
        out.push(poly);
        i = i + 1;
    }
    proof {
        lemma_polygons_model_len::<P>(out@, out@.len() as int);
        lemma_polygons_model_len::<P>(qs@, qs@.len() as int);
        assert(polygons_model::<P>(out@, out@.len() as int) =~= polygons_model::<P>(
            qs@,
            qs@.len() as int,
        ));
    }
    out
}

/// Clones a bounding box; number clones are the same numbers.
pub(crate) fn clone_numbers(ns: &Vec<serde_json::Number>) -> (r: Vec<serde_json::Number>)
    ensures
        r@ == ns@,
{
    let mut out: Vec<serde_json::Number> = Vec::new();
    let mut i: usize = 0;
    while i < ns.len()
        invariant
            0 <= i <= ns@.len(),
            out@.len() == i,
            forall|k: int| 0 <= k < i ==> #[trigger] out@[k] == ns@[k],
        decreases ns@.len() - i,
    {
        let n = ns[i].clone();
        out.push(n);
        i = i + 1;
    }
    proof {
        assert(out@ =~= ns@);
    }
    out
}

/// Clones every geometry of a list; the clones have the same models.
fn clone_geometries<P: Position>(gs: &Vec<Geometry<P>>) -> (r: Vec<Geometry<P>>)
    ensures
        geometries_model::<P>(r@, r@.len() as int) == geometries_model::<P>(
            gs@,
            gs@.len() as int,
        ),
    decreases *gs, 2int,
{
    let mut out: Vec<Geometry<P>> = Vec::new();
    let mut i: usize = 0;
    while i < gs.len()
        invariant
            0 <= i <= gs@.len(),
            out@.len() == i,
            forall|k: int| 0 <= k < i ==> (#[trigger] out@[k])@ == gs@[k]@,
        decreases gs@.len() - i,
    {
        proof {
            assert(decreases_to!(*gs => gs@));
            assert(decreases_to!(gs@ => gs@[i as int]));
        }
        let g = gs[i].clone();
        out.push(g);
        i = i + 1;
    }
    proof {
        lemma_geometries_model_len::<P>(out@, out@.len() as int);
        lemma_geometries_model_len::<P>(gs@, gs@.len() as int);
        assert(geometries_model::<P>(out@, out@.len() as int) =~= geometries_model::<P>(
            gs@,
            gs@.len() as int,
        ));
    }
    out
}

impl<P: Position> Clone for GeometryValue<P> {
    /// A clone denotes the same shape.
    fn clone(&self) -> (r: GeometryValue<P>)
        ensures
            r.model() == (*self).model(),
        decreases *self, 0int,
    {
        match self {
            GeometryValue::Point(p) => GeometryValue::Point(p.duplicate()),
            GeometryValue::MultiPoint(ps) => GeometryValue::MultiPoint(clone_positions(ps)),
            GeometryValue::LineString(ps) => GeometryValue::LineString(clone_positions(ps)),
            GeometryValue::MultiLineString(ls) => GeometryValue::MultiLineString(clone_lines(ls)),
            GeometryValue::Polygon(ls) => GeometryValue::Polygon(clone_lines(ls)),
            GeometryValue::MultiPolygon(qs) => GeometryValue::MultiPolygon(clone_polygons(qs)),
            GeometryValue::GeometryCollection(gs) => {
                proof {
                    assert(decreases_to!(*self => *gs));
                }
                GeometryValue::GeometryCollection(clone_geometries(gs))
            },
        }
    }
}

impl<P: Position> Clone for Geometry<P> {
    /// A clone denotes the same geometry.
    fn clone(&self) -> (r: Geometry<P>)
        ensures
            r@ == self@,
        decreases *self, 1int,
    {
        let value = self.value.clone();
        let bbox = match &self.bbox {
            Option::None => Option::None,
            Option::Some(ns) => Option::Some(clone_numbers(ns)),
        };
        let foreign_members = match &self.foreign_members {
            Option::None => Option::None,
            Option::Some(fo) => Option::Some(fo.clone()),
        };
        Geometry { value, bbox, foreign_members }
    }
}

} // verus!
