//! The laws of the conversion layer: converting a well-formed typed value to
//! a JSON object and back yields the same value, and the variant a conversion
//! returns always agrees with the `"type"` tag that selected it.

use vstd::prelude::*;
use crate::errors::ErrorModel;
use crate::feature::{
    feature_from_object_model, feature_geometry_from, feature_id_from, feature_keys,
    feature_properties_from, feature_to_object_model, foreign_member_entries_feature,
    geometry_member_json, id_member, properties_member_json, FeatureModel, IdModel,
};
use crate::feature_collection::{
    feature_collection_from_object_model, feature_collection_keys,
    feature_collection_to_object_model, features_from_json, features_to_json,
    FeatureCollectionModel,
};
use crate::geometry::{
    arrays2_of, arrays_of, bbox_member, bbox_member_from, coordinates_from_json,
    coordinates_json, content_member, foreign_member_entries, foreign_of, geometries_from_json,
    geometries_to_json, geometry_from_object_model, geometry_keys, geometry_to_object_model,
    is_geometry_tag, lemma_arrays2_of_len, lemma_arrays_of_len, lemma_numbers_json_of_len,
    lines_from_json, numbers_from_json, numbers_json_of, polygons_from_json, positions_from_json,
    tag_of, GeometryModel, ValueModel,
};
use crate::geojson::{geojson_from_object_model, geojson_to_object_model, GeoJsonModel,
    type_from_str};
use crate::position::{is_position_encoding, Position};
use crate::json::{
    lemma_foreign_all_known, lemma_foreign_none_known, lemma_lookup_absent, lemma_lookup_concat,
    lemma_lookup_empty, lemma_lookup_single, lemma_without_keys_concat, obj_lookup,
    obj_without_keys, JsonModel, ObjectModel,
};

verus! {

broadcast use {vstd::seq::group_seq_axioms, vstd::string::group_string_axioms};

/// Every value of the list is the encoding of some position of type `P`.
pub open spec fn wf_positions<P: Position>(s: Seq<JsonModel>) -> bool {
    forall|i: int| 0 <= i < s.len() ==> is_position_encoding::<P>(#[trigger] s[i])
}

/// Every line of the list is a list of position encodings.
pub open spec fn wf_lines<P: Position>(s: Seq<Seq<JsonModel>>) -> bool {
    forall|i: int| 0 <= i < s.len() ==> wf_positions::<P>(#[trigger] s[i])
}

/// Every polygon of the list is a list of lines of position encodings.
pub open spec fn wf_polygons<P: Position>(s: Seq<Seq<Seq<JsonModel>>>) -> bool {
    forall|i: int| 0 <= i < s.len() ==> wf_lines::<P>(#[trigger] s[i])
}

/// Foreign members never reuse an owned key, and when present there is at
/// least one; a value fresh from a conversion always satisfies this.
pub open spec fn wf_foreign(f: Option<ObjectModel>, keys: Set<Seq<char>>) -> bool {
    match f {
        Option::None => true,
        Option::Some(o) => o.len() > 0 && forall|i: int|
            0 <= i < o.len() ==> !keys.contains(#[trigger] o[i].0),
    }
}

/// A shape whose positions are all encodings of type `P`, recursively.
pub open spec fn wf_value<P: Position>(vm: ValueModel) -> bool
    decreases vm, 0int,
{
    match vm {
        ValueModel::Point(p) => is_position_encoding::<P>(p),
        ValueModel::MultiPoint(s) => wf_positions::<P>(s),
        ValueModel::LineString(s) => wf_positions::<P>(s),
        ValueModel::MultiLineString(s) => wf_lines::<P>(s),
        ValueModel::Polygon(s) => wf_lines::<P>(s),
        ValueModel::MultiPolygon(s) => wf_polygons::<P>(s),
        ValueModel::GeometryCollection(gs) => forall|i: int|
            0 <= i < gs.len() ==> wf_geometry::<P>(#[trigger] gs[i]),
    }
}

/// A geometry whose shape is well formed and whose foreign members avoid the
/// keys a geometry object owns.
pub open spec fn wf_geometry<P: Position>(m: GeometryModel) -> bool
    decreases m, 1int,
{
    wf_value::<P>(m.value) && wf_foreign(m.foreign_members, geometry_keys())
}

/// A feature whose geometry, if any, is well formed, and whose foreign
/// members avoid the keys a feature object owns.
pub open spec fn wf_feature<P: Position>(m: FeatureModel) -> bool {
    &&& match m.geometry {
        Option::None => true,
        Option::Some(g) => wf_geometry::<P>(g),
    }
    &&& wf_foreign(m.foreign_members, feature_keys())
}

/// A collection of well-formed features whose foreign members avoid the keys
/// a collection object owns.
pub open spec fn wf_feature_collection<P: Position>(m: FeatureCollectionModel) -> bool {
    &&& forall|i: int| 0 <= i < m.features.len() ==> wf_feature::<P>(#[trigger] m.features[i])
    &&& wf_foreign(m.foreign_members, feature_collection_keys())
}

/// A well-formed GeoJSON value, variant by variant.
pub open spec fn wf_geojson<P: Position>(m: GeoJsonModel) -> bool {
    match m {
        GeoJsonModel::Geometry(g) => wf_geometry::<P>(g),
        GeoJsonModel::Feature(f) => wf_feature::<P>(f),
        GeoJsonModel::FeatureCollection(c) => wf_feature_collection::<P>(c),
    }
}

/// The nine tag literals and the owned member keys are pairwise distinct.
proof fn lemma_names_distinct()
    ensures
        "Point"@ != "MultiPoint"@ && "Point"@ != "LineString"@ && "Point"@ != "MultiLineString"@
            && "Point"@ != "Polygon"@ && "Point"@ != "MultiPolygon"@ && "Point"@
            != "GeometryCollection"@ && "Point"@ != "Feature"@ && "Point"@ != "FeatureCollection"@,
        "MultiPoint"@ != "LineString"@ && "MultiPoint"@ != "MultiLineString"@ && "MultiPoint"@
            != "Polygon"@ && "MultiPoint"@ != "MultiPolygon"@ && "MultiPoint"@
            != "GeometryCollection"@ && "MultiPoint"@ != "Feature"@ && "MultiPoint"@
            != "FeatureCollection"@,
        "LineString"@ != "MultiLineString"@ && "LineString"@ != "Polygon"@ && "LineString"@
            != "MultiPolygon"@ && "LineString"@ != "GeometryCollection"@ && "LineString"@
            != "Feature"@ && "LineString"@ != "FeatureCollection"@,
        "MultiLineString"@ != "Polygon"@ && "MultiLineString"@ != "MultiPolygon"@
            && "MultiLineString"@ != "GeometryCollection"@ && "MultiLineString"@ != "Feature"@
            && "MultiLineString"@ != "FeatureCollection"@,
        "Polygon"@ != "MultiPolygon"@ && "Polygon"@ != "GeometryCollection"@ && "Polygon"@
            != "Feature"@ && "Polygon"@ != "FeatureCollection"@,
        "MultiPolygon"@ != "GeometryCollection"@ && "MultiPolygon"@ != "Feature"@
            && "MultiPolygon"@ != "FeatureCollection"@,
        "GeometryCollection"@ != "Feature"@ && "GeometryCollection"@ != "FeatureCollection"@,
        "Feature"@ != "FeatureCollection"@,
        "type"@ != "coordinates"@ && "type"@ != "geometries"@ && "type"@ != "bbox"@ && "type"@
            != "geometry"@ && "type"@ != "properties"@ && "type"@ != "id"@ && "type"@
            != "features"@,
        "coordinates"@ != "geometries"@ && "coordinates"@ != "bbox"@,
        "geometries"@ != "bbox"@,
        "geometry"@ != "properties"@ && "geometry"@ != "id"@ && "geometry"@ != "bbox"@,
        "properties"@ != "id"@ && "properties"@ != "bbox"@,
        "id"@ != "bbox"@,
        "features"@ != "bbox"@,
{
    reveal_strlit("Point");
    reveal_strlit("MultiPoint");
    reveal_strlit("LineString");
    reveal_strlit("MultiLineString");
    reveal_strlit("Polygon");
    reveal_strlit("MultiPolygon");
    reveal_strlit("GeometryCollection");
    reveal_strlit("Feature");
    reveal_strlit("FeatureCollection");
    reveal_strlit("type");
    reveal_strlit("coordinates");
    reveal_strlit("geometries");
    reveal_strlit("bbox");
    reveal_strlit("geometry");
    reveal_strlit("properties");
    reveal_strlit("id");
    reveal_strlit("features");
    assert("Point"@[0] == 'P' && "Point"@[2] == 'i');
    assert("MultiPoint"@[0] == 'M' && "MultiPoint"@[5] == 'P' && "MultiPoint"@[7] == 'i');
    assert("LineString"@[0] == 'L');
    assert("MultiLineString"@[5] == 'L');
    assert("Polygon"@[0] == 'P' && "Polygon"@[2] == 'l');
    assert("MultiPolygon"@[5] == 'P' && "MultiPolygon"@[7] == 'l');
    assert("GeometryCollection"@[0] == 'G');
    assert("Feature"@[0] == 'F');
    assert("FeatureCollection"@[0] == 'F');
    assert("Feature"@.len() == 7);
    assert("FeatureCollection"@.len() == 17);
    assert("type"@[0] == 't');
    assert("coordinates"@[0] == 'c');
    assert("geometries"@[0] == 'g');
    assert("bbox"@[0] == 'b');
    assert("geometry"@[0] == 'g');
    assert("properties"@[0] == 'p');
    assert("id"@[0] == 'i');
    assert("features"@[0] == 'f');
    assert("geometries"@.len() == 10);
    assert("geometry"@.len() == 8);
}

/// A list of position encodings reads back as itself.
proof fn lemma_positions_rt<P: Position>(s: Seq<JsonModel>, n: int)
    requires
        0 <= n <= s.len(),
        wf_positions::<P>(s),
    ensures
        positions_from_json::<P>(s, n) == Ok::<Seq<JsonModel>, ErrorModel>(s.take(n)),
    decreases n,
{
    if n > 0 {
        lemma_positions_rt::<P>(s, n - 1);
        assert(s.take(n) =~= s.take(n - 1).push(s[n - 1]));
    } else {
        assert(s.take(0) =~= Seq::<JsonModel>::empty());
    }
}

/// A list of wrapped lines reads back as the lines themselves.
proof fn lemma_lines_rt<P: Position>(s: Seq<Seq<JsonModel>>, n: int)
    requires
        0 <= n <= s.len(),
        wf_lines::<P>(s),
    ensures
        lines_from_json::<P>(arrays_of(s, s.len() as int), n) == Ok::<
            Seq<Seq<JsonModel>>,
            ErrorModel,
        >(s.take(n)),
    decreases n,
{
    lemma_arrays_of_len(s, s.len() as int);
    if n > 0 {
        lemma_lines_rt::<P>(s, n - 1);
        lemma_positions_rt::<P>(s[n - 1], s[n - 1].len() as int);
        assert(s[n - 1].take(s[n - 1].len() as int) =~= s[n - 1]);
        assert(s.take(n) =~= s.take(n - 1).push(s[n - 1]));
    } else {
        assert(s.take(0) =~= Seq::<Seq<JsonModel>>::empty());
    }
}

/// A list of doubly wrapped polygons reads back as the polygons themselves.
proof fn lemma_polygons_rt<P: Position>(s: Seq<Seq<Seq<JsonModel>>>, n: int)
    requires
        0 <= n <= s.len(),
        wf_polygons::<P>(s),
    ensures
        polygons_from_json::<P>(arrays2_of(s, s.len() as int), n) == Ok::<
            Seq<Seq<Seq<JsonModel>>>,
            ErrorModel,
        >(s.take(n)),
    decreases n,
{
    lemma_arrays2_of_len(s, s.len() as int);
    if n > 0 {
        lemma_polygons_rt::<P>(s, n - 1);
        lemma_arrays_of_len(s[n - 1], s[n - 1].len() as int);
        lemma_lines_rt::<P>(s[n - 1], s[n - 1].len() as int);
        assert(s[n - 1].take(s[n - 1].len() as int) =~= s[n - 1]);
        assert(s.take(n) =~= s.take(n - 1).push(s[n - 1]));
    } else {
        assert(s.take(0) =~= Seq::<Seq<Seq<JsonModel>>>::empty());
    }
}

/// A list of number nodes reads back as the numbers themselves.
proof fn lemma_numbers_rt(s: Seq<serde_json::Number>, n: int)
    requires
        0 <= n <= s.len(),
    ensures
        numbers_from_json(numbers_json_of(s, s.len() as int), n) == Ok::<
            Seq<serde_json::Number>,
            ErrorModel,
        >(s.take(n)),
    decreases n,
{
    lemma_numbers_json_of_len(s, s.len() as int);
    if n > 0 {
        lemma_numbers_rt(s, n - 1);
        assert(s.take(n) =~= s.take(n - 1).push(s[n - 1]));
    } else {
        assert(s.take(0) =~= Seq::<serde_json::Number>::empty());
    }
}

/// A well-formed shape's coordinates read back as the same shape.
proof fn lemma_coordinates_rt<P: Position>(vm: ValueModel)
    requires
        wf_value::<P>(vm),
        !(vm is GeometryCollection),
    ensures
        coordinates_from_json::<P>(tag_of(vm), coordinates_json(vm)) == Ok::<
            ValueModel,
            ErrorModel,
        >(vm),
{
    lemma_names_distinct();
    match vm {
        ValueModel::Point(_) => {},
        ValueModel::MultiPoint(s) => {
            lemma_positions_rt::<P>(s, s.len() as int);
            assert(s.take(s.len() as int) =~= s);
        },
        ValueModel::LineString(s) => {
            lemma_positions_rt::<P>(s, s.len() as int);
            assert(s.take(s.len() as int) =~= s);
        },
        ValueModel::MultiLineString(s) => {
            lemma_arrays_of_len(s, s.len() as int);
            lemma_lines_rt::<P>(s, s.len() as int);
            assert(s.take(s.len() as int) =~= s);
        },
        ValueModel::Polygon(s) => {
            lemma_arrays_of_len(s, s.len() as int);
            lemma_lines_rt::<P>(s, s.len() as int);
            assert(s.take(s.len() as int) =~= s);
        },
        ValueModel::MultiPolygon(s) => {
            lemma_arrays2_of_len(s, s.len() as int);
            lemma_polygons_rt::<P>(s, s.len() as int);
            assert(s.take(s.len() as int) =~= s);
        },
        ValueModel::GeometryCollection(_) => {},
    }
}

/// The bounding box member reads back as the same bounding box, and an
/// absent one stays absent when the foreign members avoid `"bbox"`.
proof fn lemma_bbox_rt(o: ObjectModel, b: Option<Seq<serde_json::Number>>)
    requires
        obj_lookup(o, "bbox"@) == (match b {
            Option::None => Option::None::<JsonModel>,
            Option::Some(ns) => Option::Some(
                JsonModel::Array(numbers_json_of(ns, ns.len() as int)),
            ),
        }),
    ensures
        bbox_member_from(o) == Ok::<Option<Seq<serde_json::Number>>, ErrorModel>(b),
{
    match b {
        Option::None => {},
        Option::Some(ns) => {
            lemma_numbers_json_of_len(ns, ns.len() as int);
            lemma_numbers_rt(ns, ns.len() as int);
            assert(ns.take(ns.len() as int) =~= ns);
        },
    }
}

/// Converting a well-formed geometry to its JSON object and back yields the
/// same geometry.
pub proof fn lemma_geometry_round_trip<P: Position>(m: GeometryModel)
    requires
        wf_geometry::<P>(m),
    ensures
        geometry_from_object_model::<P>(geometry_to_object_model(m)) == Ok::<
            GeometryModel,
            ErrorModel,
        >(m),
        obj_lookup(geometry_to_object_model(m), "type"@) == Some(
            JsonModel::String(tag_of(m.value)),
        ),
    decreases m, 2int,
{
    lemma_names_distinct();
    let tp = seq![("type"@, JsonModel::String(tag_of(m.value)))];
    let cm = content_member(m.value);
    let bm = bbox_member(m.bbox);
    let fm = foreign_member_entries(m.foreign_members);
    let o = geometry_to_object_model(m);
    assert(o == tp + cm + bm + fm);

    // The single members resolve on their own keys.
    let ck: Seq<char> = if m.value is GeometryCollection {
        "geometries"@
    } else {
        "coordinates"@
    };
    let cv: JsonModel = if m.value is GeometryCollection {
        JsonModel::Array(
            geometries_to_json(
                m.value->GeometryCollection_0,
                m.value->GeometryCollection_0.len() as int,
            ),
        )
    } else {
        coordinates_json(m.value)
    };
    assert(cm == seq![(ck, cv)]);
    assert((tp + cm + bm) + fm =~= o);
    assert((tp + cm) + bm =~= tp + cm + bm);

    lemma_lookup_single(("type"@, JsonModel::String(tag_of(m.value))), "type"@);
    lemma_lookup_single((ck, cv), "type"@);
    match m.bbox {
        Option::None => {
            assert(bm =~= Seq::<(Seq<char>, JsonModel)>::empty());
            lemma_lookup_empty("type"@);
        },
        Option::Some(ns) => {
            lemma_lookup_single(
                ("bbox"@, JsonModel::Array(numbers_json_of(ns, ns.len() as int))),
                "type"@,
            );
        },
    }
    lemma_lookup_concat(tp + cm + bm, fm, "type"@);
    lemma_lookup_concat(tp + cm, bm, "type"@);
    lemma_lookup_concat(tp, cm, "type"@);

    lemma_lookup_single(("type"@, JsonModel::String(tag_of(m.value))), "coordinates"@);
    lemma_lookup_single((ck, cv), "coordinates"@);
    match m.bbox {
        Option::None => {
            assert(bm =~= Seq::<(Seq<char>, JsonModel)>::empty());
            lemma_lookup_empty("coordinates"@);
        },
        Option::Some(ns) => {
            lemma_lookup_single(
                ("bbox"@, JsonModel::Array(numbers_json_of(ns, ns.len() as int))),
                "coordinates"@,
            );
        },
    }
    lemma_lookup_concat(tp + cm + bm, fm, "coordinates"@);
    lemma_lookup_concat(tp + cm, bm, "coordinates"@);
    lemma_lookup_concat(tp, cm, "coordinates"@);

    lemma_lookup_single(("type"@, JsonModel::String(tag_of(m.value))), "geometries"@);
    lemma_lookup_single((ck, cv), "geometries"@);
    match m.bbox {
        Option::None => {
            assert(bm =~= Seq::<(Seq<char>, JsonModel)>::empty());
            lemma_lookup_empty("geometries"@);
        },
        Option::Some(ns) => {
            lemma_lookup_single(
                ("bbox"@, JsonModel::Array(numbers_json_of(ns, ns.len() as int))),
                "geometries"@,
            );
        },
    }
    lemma_lookup_concat(tp + cm + bm, fm, "geometries"@);
    lemma_lookup_concat(tp + cm, bm, "geometries"@);
    lemma_lookup_concat(tp, cm, "geometries"@);

    lemma_lookup_single(("type"@, JsonModel::String(tag_of(m.value))), "bbox"@);
    lemma_lookup_single((ck, cv), "bbox"@);
    match m.bbox {
        Option::None => {
            assert(bm =~= Seq::<(Seq<char>, JsonModel)>::empty());
            lemma_lookup_empty("bbox"@);
        },
        Option::Some(ns) => {
            lemma_lookup_single(
                ("bbox"@, JsonModel::Array(numbers_json_of(ns, ns.len() as int))),
                "bbox"@,
            );
        },
    }
    lemma_lookup_concat(tp + cm + bm, fm, "bbox"@);
    lemma_lookup_concat(tp + cm, bm, "bbox"@);
    lemma_lookup_concat(tp, cm, "bbox"@);

    // Foreign members never hold an owned key.
    assert(geometry_keys().contains("type"@) && geometry_keys().contains("coordinates"@)
        && geometry_keys().contains("geometries"@) && geometry_keys().contains("bbox"@));
    match m.foreign_members {
        Option::None => {
            assert(fm =~= Seq::<(Seq<char>, JsonModel)>::empty());
            lemma_lookup_empty("type"@);
            lemma_lookup_empty("coordinates"@);
            lemma_lookup_empty("geometries"@);
            lemma_lookup_empty("bbox"@);
        },
        Option::Some(f) => {
            assert(forall|i: int| 0 <= i < f.len() ==> (#[trigger] f[i].0) != "type"@);
            assert(forall|i: int| 0 <= i < f.len() ==> (#[trigger] f[i].0) != "coordinates"@);
            assert(forall|i: int| 0 <= i < f.len() ==> (#[trigger] f[i].0) != "geometries"@);
            assert(forall|i: int| 0 <= i < f.len() ==> (#[trigger] f[i].0) != "bbox"@);
            lemma_lookup_absent(f, "type"@, f.len() as int);
            lemma_lookup_absent(f, "coordinates"@, f.len() as int);
            lemma_lookup_absent(f, "geometries"@, f.len() as int);
            lemma_lookup_absent(f, "bbox"@, f.len() as int);
        },
    }
    assert(obj_lookup(o, "type"@) == Some(JsonModel::String(tag_of(m.value))));

    // The content member reads back as the same shape.
    if let ValueModel::GeometryCollection(gs) = m.value {
        lemma_geometries_to_json_len(gs, gs.len() as int);
        lemma_geometries_rt::<P>(gs, gs.len() as int);
        assert(gs.take(gs.len() as int) =~= gs);
        assert(obj_lookup(o, "geometries"@) == Some(
            JsonModel::Array(geometries_to_json(gs, gs.len() as int)),
        ));
    } else {
        lemma_coordinates_rt::<P>(m.value);
        assert(obj_lookup(o, "coordinates"@) == Some(coordinates_json(m.value)));
    }

    // The bounding box reads back unchanged.
    lemma_bbox_rt(o, m.bbox);

    // The foreign members read back unchanged.
    lemma_without_keys_concat(tp + cm + bm, fm, geometry_keys());
    lemma_without_keys_concat(tp + cm, bm, geometry_keys());
    lemma_without_keys_concat(tp, cm, geometry_keys());
    lemma_foreign_all_known(tp, geometry_keys(), tp.len() as int);
    lemma_foreign_all_known(cm, geometry_keys(), cm.len() as int);
    lemma_foreign_all_known(bm, geometry_keys(), bm.len() as int);
    match m.foreign_members {
        Option::None => {
            assert(obj_without_keys(o, geometry_keys()) =~= Seq::<(Seq<char>, JsonModel)>::empty());
        },
        Option::Some(f) => {
            lemma_foreign_none_known(f, geometry_keys(), f.len() as int);
            assert(f.take(f.len() as int) =~= f);
            assert(obj_without_keys(o, geometry_keys()) =~= f);
        },
    }
    assert(foreign_of(o, geometry_keys()) == m.foreign_members);

    assert(obj_lookup(o, "type"@) == Some(JsonModel::String(tag_of(m.value))));
    assert(is_geometry_tag(tag_of(m.value)));
    if m.value is GeometryCollection {
        assert(tag_of(m.value) == "GeometryCollection"@);
        assert(obj_lookup(o, "geometries"@) == Some(cv));
    } else {
        assert(tag_of(m.value) != "GeometryCollection"@);
        assert(obj_lookup(o, "coordinates"@) == Some(coordinates_json(m.value)));
        assert(coordinates_from_json::<P>(tag_of(m.value), coordinates_json(m.value)) == Ok::<
            ValueModel,
            ErrorModel,
        >(m.value));
    }
    assert(bbox_member_from(o) == Ok::<Option<Seq<serde_json::Number>>, ErrorModel>(m.bbox));
}

/// Converting well-formed geometries to JSON objects and back yields the
/// same geometries, in order.
proof fn lemma_geometries_rt<P: Position>(gs: Seq<GeometryModel>, n: int)
    requires
        0 <= n <= gs.len(),
        forall|i: int| 0 <= i < gs.len() ==> wf_geometry::<P>(#[trigger] gs[i]),
    ensures
        geometries_from_json::<P>(geometries_to_json(gs, gs.len() as int), n) == Ok::<
            Seq<GeometryModel>,
            ErrorModel,
        >(gs.take(n)),
    decreases gs, n,
{
    lemma_geometries_to_json_len(gs, gs.len() as int);
    if n > 0 {
        lemma_geometries_rt::<P>(gs, n - 1);
        assert(decreases_to!(gs => gs[n - 1]));
        lemma_geometry_round_trip::<P>(gs[n - 1]);
        assert(gs.take(n) =~= gs.take(n - 1).push(gs[n - 1]));
    } else {
        assert(gs.take(0) =~= Seq::<GeometryModel>::empty());
    }
}

/// The serialized geometries of a prefix, pointwise.
proof fn lemma_geometries_to_json_len(gs: Seq<GeometryModel>, n: int)
    requires
        0 <= n <= gs.len(),
    ensures
        geometries_to_json(gs, n).len() == n,
        forall|i: int|
            0 <= i < n ==> #[trigger] geometries_to_json(gs, n)[i] == JsonModel::Object(
                geometry_to_object_model(gs[i]),
            ),
    decreases n,
{
    if n > 0 {
        lemma_geometries_to_json_len(gs, n - 1);
    }
}


/// Converting a well-formed feature to its JSON object and back yields the
/// same feature.
pub proof fn lemma_feature_round_trip<P: Position>(m: FeatureModel)
    requires
        wf_feature::<P>(m),
    ensures
        feature_from_object_model::<P>(feature_to_object_model(m)) == Ok::<
            FeatureModel,
            ErrorModel,
        >(m),
        obj_lookup(feature_to_object_model(m), "type"@) == Some(JsonModel::String("Feature"@)),
{
    lemma_names_distinct();
    let p1 = ("type"@, JsonModel::String("Feature"@));
    let p2 = ("geometry"@, geometry_member_json(m.geometry));
    let p3 = ("properties"@, properties_member_json(m.properties));
    let tp = seq![p1, p2, p3];
    let im = id_member(m.id);
    let bm = bbox_member(m.bbox);
    let fm = foreign_member_entries_feature(m.foreign_members);
    let o = feature_to_object_model(m);
    assert(o == tp + im + bm + fm);
    assert(tp =~= (seq![p1] + seq![p2]) + seq![p3]);
    assert((tp + im + bm) + fm =~= o);
    assert((tp + im) + bm =~= tp + im + bm);
    match m.foreign_members {
        Option::None => {
            assert(fm =~= Seq::<(Seq<char>, JsonModel)>::empty());
            lemma_lookup_empty("type"@);
            lemma_lookup_empty("geometry"@);
            lemma_lookup_empty("properties"@);
            lemma_lookup_empty("id"@);
            lemma_lookup_empty("bbox"@);
        },
        Option::Some(f) => {
            assert(feature_keys().contains("type"@) && feature_keys().contains("geometry"@)
                && feature_keys().contains("properties"@) && feature_keys().contains("id"@)
                && feature_keys().contains("bbox"@));
            assert(forall|i: int| 0 <= i < f.len() ==> (#[trigger] f[i].0) != "type"@);
            assert(forall|i: int| 0 <= i < f.len() ==> (#[trigger] f[i].0) != "geometry"@);
            assert(forall|i: int| 0 <= i < f.len() ==> (#[trigger] f[i].0) != "properties"@);
            assert(forall|i: int| 0 <= i < f.len() ==> (#[trigger] f[i].0) != "id"@);
            assert(forall|i: int| 0 <= i < f.len() ==> (#[trigger] f[i].0) != "bbox"@);
            lemma_lookup_absent(f, "type"@, f.len() as int);
            lemma_lookup_absent(f, "geometry"@, f.len() as int);
            lemma_lookup_absent(f, "properties"@, f.len() as int);
            lemma_lookup_absent(f, "id"@, f.len() as int);
            lemma_lookup_absent(f, "bbox"@, f.len() as int);
        },
    }
    lemma_lookup_single(p1, "type"@);
    lemma_lookup_single(p2, "type"@);
    lemma_lookup_single(p3, "type"@);
    lemma_lookup_concat(seq![p1] + seq![p2], seq![p3], "type"@);
    lemma_lookup_concat(seq![p1], seq![p2], "type"@);
    match m.id {
        Option::None => {
            assert(im =~= Seq::<(Seq<char>, JsonModel)>::empty());
            lemma_lookup_empty("type"@);
        },
        Option::Some(IdModel::String(sid)) => {
            lemma_lookup_single(("id"@, JsonModel::String(sid)), "type"@);
        },
        Option::Some(IdModel::Number(nid)) => {
            lemma_lookup_single(("id"@, JsonModel::Number(nid)), "type"@);
        },
    }
    match m.bbox {
        Option::None => {
            assert(bm =~= Seq::<(Seq<char>, JsonModel)>::empty());
            lemma_lookup_empty("type"@);
        },
        Option::Some(ns) => {
            lemma_lookup_single(
                ("bbox"@, JsonModel::Array(numbers_json_of(ns, ns.len() as int))),
                "type"@,
            );
        },
    }
    lemma_lookup_concat(tp + im + bm, fm, "type"@);
    lemma_lookup_concat(tp + im, bm, "type"@);
    lemma_lookup_concat(tp, im, "type"@);

    lemma_lookup_single(p1, "geometry"@);
    lemma_lookup_single(p2, "geometry"@);
    lemma_lookup_single(p3, "geometry"@);
    lemma_lookup_concat(seq![p1] + seq![p2], seq![p3], "geometry"@);
    lemma_lookup_concat(seq![p1], seq![p2], "geometry"@);
    match m.id {
        Option::None => {
            assert(im =~= Seq::<(Seq<char>, JsonModel)>::empty());
            lemma_lookup_empty("geometry"@);
        },
        Option::Some(IdModel::String(sid)) => {
            lemma_lookup_single(("id"@, JsonModel::String(sid)), "geometry"@);
        },
        Option::Some(IdModel::Number(nid)) => {
            lemma_lookup_single(("id"@, JsonModel::Number(nid)), "geometry"@);
        },
    }
    match m.bbox {
        Option::None => {
            assert(bm =~= Seq::<(Seq<char>, JsonModel)>::empty());
            lemma_lookup_empty("geometry"@);
        },
        Option::Some(ns) => {
            lemma_lookup_single(
                ("bbox"@, JsonModel::Array(numbers_json_of(ns, ns.len() as int))),
                "geometry"@,
            );
        },
    }
    lemma_lookup_concat(tp + im + bm, fm, "geometry"@);
    lemma_lookup_concat(tp + im, bm, "geometry"@);
    lemma_lookup_concat(tp, im, "geometry"@);

    lemma_lookup_single(p1, "properties"@);
    lemma_lookup_single(p2, "properties"@);
    lemma_lookup_single(p3, "properties"@);
    lemma_lookup_concat(seq![p1] + seq![p2], seq![p3], "properties"@);
    lemma_lookup_concat(seq![p1], seq![p2], "properties"@);
    match m.id {
        Option::None => {
            assert(im =~= Seq::<(Seq<char>, JsonModel)>::empty());
            lemma_lookup_empty("properties"@);
        },
        Option::Some(IdModel::String(sid)) => {
            lemma_lookup_single(("id"@, JsonModel::String(sid)), "properties"@);
        },
        Option::Some(IdModel::Number(nid)) => {
            lemma_lookup_single(("id"@, JsonModel::Number(nid)), "properties"@);
        },
    }
    match m.bbox {
        Option::None => {
            assert(bm =~= Seq::<(Seq<char>, JsonModel)>::empty());
            lemma_lookup_empty("properties"@);
        },
        Option::Some(ns) => {
            lemma_lookup_single(
                ("bbox"@, JsonModel::Array(numbers_json_of(ns, ns.len() as int))),
                "properties"@,
            );
        },
    }
    lemma_lookup_concat(tp + im + bm, fm, "properties"@);
    lemma_lookup_concat(tp + im, bm, "properties"@);
    lemma_lookup_concat(tp, im, "properties"@);

    lemma_lookup_single(p1, "id"@);
    lemma_lookup_single(p2, "id"@);
    lemma_lookup_single(p3, "id"@);
    lemma_lookup_concat(seq![p1] + seq![p2], seq![p3], "id"@);
    lemma_lookup_concat(seq![p1], seq![p2], "id"@);
    match m.id {
        Option::None => {
            assert(im =~= Seq::<(Seq<char>, JsonModel)>::empty());
            lemma_lookup_empty("id"@);
        },
        Option::Some(IdModel::String(sid)) => {
            lemma_lookup_single(("id"@, JsonModel::String(sid)), "id"@);
        },
        Option::Some(IdModel::Number(nid)) => {
            lemma_lookup_single(("id"@, JsonModel::Number(nid)), "id"@);
        },
    }
    match m.bbox {
        Option::None => {
            assert(bm =~= Seq::<(Seq<char>, JsonModel)>::empty());
            lemma_lookup_empty("id"@);
        },
        Option::Some(ns) => {
            lemma_lookup_single(
                ("bbox"@, JsonModel::Array(numbers_json_of(ns, ns.len() as int))),
                "id"@,
            );
        },
    }
    lemma_lookup_concat(tp + im + bm, fm, "id"@);
    lemma_lookup_concat(tp + im, bm, "id"@);
    lemma_lookup_concat(tp, im, "id"@);

    lemma_lookup_single(p1, "bbox"@);
    lemma_lookup_single(p2, "bbox"@);
    lemma_lookup_single(p3, "bbox"@);
    lemma_lookup_concat(seq![p1] + seq![p2], seq![p3], "bbox"@);
    lemma_lookup_concat(seq![p1], seq![p2], "bbox"@);
    match m.id {
        Option::None => {
            assert(im =~= Seq::<(Seq<char>, JsonModel)>::empty());
            lemma_lookup_empty("bbox"@);
        },
        Option::Some(IdModel::String(sid)) => {
            lemma_lookup_single(("id"@, JsonModel::String(sid)), "bbox"@);
        },
        Option::Some(IdModel::Number(nid)) => {
            lemma_lookup_single(("id"@, JsonModel::Number(nid)), "bbox"@);
        },
    }
    match m.bbox {
        Option::None => {
            assert(bm =~= Seq::<(Seq<char>, JsonModel)>::empty());
            lemma_lookup_empty("bbox"@);
        },
        Option::Some(ns) => {
            lemma_lookup_single(
                ("bbox"@, JsonModel::Array(numbers_json_of(ns, ns.len() as int))),
                "bbox"@,
            );
        },
    }
    lemma_lookup_concat(tp + im + bm, fm, "bbox"@);
    lemma_lookup_concat(tp + im, bm, "bbox"@);
    lemma_lookup_concat(tp, im, "bbox"@);

    assert(obj_lookup(o, "type"@) == Some(JsonModel::String("Feature"@)));
    match m.geometry {
        Option::None => {},
        Option::Some(g) => {
            lemma_geometry_round_trip::<P>(g);
        },
    }
    assert(feature_geometry_from::<P>(o) == Ok::<Option<GeometryModel>, ErrorModel>(m.geometry));
    assert(feature_properties_from(o) == Ok::<Option<ObjectModel>, ErrorModel>(m.properties));
    assert(feature_id_from(o) == Ok::<Option<IdModel>, ErrorModel>(m.id));
    lemma_bbox_rt(o, m.bbox);

    lemma_without_keys_concat(tp + im + bm, fm, feature_keys());
    lemma_without_keys_concat(tp + im, bm, feature_keys());
    lemma_without_keys_concat(tp, im, feature_keys());
    lemma_foreign_all_known(tp, feature_keys(), tp.len() as int);
    lemma_foreign_all_known(im, feature_keys(), im.len() as int);
    lemma_foreign_all_known(bm, feature_keys(), bm.len() as int);
    match m.foreign_members {
        Option::None => {
            assert(obj_without_keys(o, feature_keys()) =~= Seq::<(Seq<char>, JsonModel)>::empty());
        },
        Option::Some(f) => {
            lemma_foreign_none_known(f, feature_keys(), f.len() as int);
            assert(f.take(f.len() as int) =~= f);
            assert(obj_without_keys(o, feature_keys()) =~= f);
        },
    }
    assert(foreign_of(o, feature_keys()) == m.foreign_members);
}

/// The serialized features of a prefix, pointwise.
proof fn lemma_features_to_json_len(fs: Seq<FeatureModel>, n: int)
    requires
        0 <= n <= fs.len(),
    ensures
        features_to_json(fs, n).len() == n,
        forall|i: int|
            0 <= i < n ==> #[trigger] features_to_json(fs, n)[i] == JsonModel::Object(
                feature_to_object_model(fs[i]),
            ),
    decreases n,
{
    if n > 0 {
        lemma_features_to_json_len(fs, n - 1);
    }
}

/// Converting well-formed features to JSON objects and back yields the same
/// features, in order.
proof fn lemma_features_rt<P: Position>(fs: Seq<FeatureModel>, n: int)
    requires
        0 <= n <= fs.len(),
        forall|i: int| 0 <= i < fs.len() ==> wf_feature::<P>(#[trigger] fs[i]),
    ensures
        features_from_json::<P>(features_to_json(fs, fs.len() as int), n) == Ok::<
            Seq<FeatureModel>,
            ErrorModel,
        >(fs.take(n)),
    decreases n,
{
    lemma_features_to_json_len(fs, fs.len() as int);
    if n > 0 {
        lemma_features_rt::<P>(fs, n - 1);
        lemma_feature_round_trip::<P>(fs[n - 1]);
        assert(fs.take(n) =~= fs.take(n - 1).push(fs[n - 1]));
    } else {
        assert(fs.take(0) =~= Seq::<FeatureModel>::empty());
    }
}

/// Converting a well-formed feature collection to its JSON object and back
/// yields the same collection, features in order.
pub proof fn lemma_feature_collection_round_trip<P: Position>(m: FeatureCollectionModel)
    requires
        wf_feature_collection::<P>(m),
    ensures
        feature_collection_from_object_model::<P>(feature_collection_to_object_model(m)) == Ok::<
            FeatureCollectionModel,
            ErrorModel,
        >(m),
        obj_lookup(feature_collection_to_object_model(m), "type"@) == Some(
            JsonModel::String("FeatureCollection"@),
        ),
{
    lemma_names_distinct();
    let p1 = ("type"@, JsonModel::String("FeatureCollection"@));
    let p2 = (
        "features"@,
        JsonModel::Array(features_to_json(m.features, m.features.len() as int)),
    );
    let tp = seq![p1, p2];
    let bm = bbox_member(m.bbox);
    let fm = (match m.foreign_members {
        Option::None => Seq::<(Seq<char>, JsonModel)>::empty(),
        Option::Some(f) => f,
    });
    let o = feature_collection_to_object_model(m);
    assert(o == tp + bm + fm);
    assert(tp =~= seq![p1] + seq![p2]);
    assert((tp + bm) + fm =~= o);
    match m.foreign_members {
        Option::None => {
            lemma_lookup_empty("type"@);
            lemma_lookup_empty("features"@);
            lemma_lookup_empty("bbox"@);
        },
        Option::Some(f) => {
            assert(feature_collection_keys().contains("type"@)
                && feature_collection_keys().contains("features"@)
                && feature_collection_keys().contains("bbox"@));
            assert(forall|i: int| 0 <= i < f.len() ==> (#[trigger] f[i].0) != "type"@);
            assert(forall|i: int| 0 <= i < f.len() ==> (#[trigger] f[i].0) != "features"@);
            assert(forall|i: int| 0 <= i < f.len() ==> (#[trigger] f[i].0) != "bbox"@);
            lemma_lookup_absent(f, "type"@, f.len() as int);
            lemma_lookup_absent(f, "features"@, f.len() as int);
            lemma_lookup_absent(f, "bbox"@, f.len() as int);
        },
    }
    lemma_lookup_single(p1, "type"@);
    lemma_lookup_single(p2, "type"@);
    lemma_lookup_concat(seq![p1], seq![p2], "type"@);
    match m.bbox {
        Option::None => {
            assert(bm =~= Seq::<(Seq<char>, JsonModel)>::empty());
            lemma_lookup_empty("type"@);
        },
        Option::Some(ns) => {
            lemma_lookup_single(
                ("bbox"@, JsonModel::Array(numbers_json_of(ns, ns.len() as int))),
                "type"@,
            );
        },
    }
    lemma_lookup_concat(tp + bm, fm, "type"@);
    lemma_lookup_concat(tp, bm, "type"@);

    lemma_lookup_single(p1, "features"@);
    lemma_lookup_single(p2, "features"@);
    lemma_lookup_concat(seq![p1], seq![p2], "features"@);
    match m.bbox {
        Option::None => {
            assert(bm =~= Seq::<(Seq<char>, JsonModel)>::empty());
            lemma_lookup_empty("features"@);
        },
        Option::Some(ns) => {
            lemma_lookup_single(
                ("bbox"@, JsonModel::Array(numbers_json_of(ns, ns.len() as int))),
                "features"@,
            );
        },
    }
    lemma_lookup_concat(tp + bm, fm, "features"@);
    lemma_lookup_concat(tp, bm, "features"@);

    lemma_lookup_single(p1, "bbox"@);
    lemma_lookup_single(p2, "bbox"@);
    lemma_lookup_concat(seq![p1], seq![p2], "bbox"@);
    match m.bbox {
        Option::None => {
            assert(bm =~= Seq::<(Seq<char>, JsonModel)>::empty());
            lemma_lookup_empty("bbox"@);
        },
        Option::Some(ns) => {
            lemma_lookup_single(
                ("bbox"@, JsonModel::Array(numbers_json_of(ns, ns.len() as int))),
                "bbox"@,
            );
        },
    }
    lemma_lookup_concat(tp + bm, fm, "bbox"@);
    lemma_lookup_concat(tp, bm, "bbox"@);

    assert(obj_lookup(o, "type"@) == Some(JsonModel::String("FeatureCollection"@)));
    lemma_features_to_json_len(m.features, m.features.len() as int);
    lemma_features_rt::<P>(m.features, m.features.len() as int);
    assert(m.features.take(m.features.len() as int) =~= m.features);
    lemma_bbox_rt(o, m.bbox);

    lemma_without_keys_concat(tp + bm, fm, feature_collection_keys());
    lemma_without_keys_concat(tp, bm, feature_collection_keys());
    lemma_foreign_all_known(tp, feature_collection_keys(), tp.len() as int);
    lemma_foreign_all_known(bm, feature_collection_keys(), bm.len() as int);
    match m.foreign_members {
        Option::None => {
            assert(obj_without_keys(o, feature_collection_keys()) =~= Seq::<
                (Seq<char>, JsonModel),
            >::empty());
        },
        Option::Some(f) => {
            lemma_foreign_none_known(f, feature_collection_keys(), f.len() as int);
            assert(f.take(f.len() as int) =~= f);
            assert(obj_without_keys(o, feature_collection_keys()) =~= f);
        },
    }
    assert(foreign_of(o, feature_collection_keys()) == m.foreign_members);
}

/// Round trip: converting any well-formed GeoJSON value to a JSON object and
/// reading the object back yields the same value, foreign members and
/// bounding box included.
pub proof fn lemma_geojson_round_trip<P: Position>(m: GeoJsonModel)
    requires
        wf_geojson::<P>(m),
    ensures
        geojson_from_object_model::<P>(geojson_to_object_model(m)) == Ok::<
            GeoJsonModel,
            ErrorModel,
        >(m),
{
    lemma_names_distinct();
    match m {
        GeoJsonModel::Geometry(g) => {
            lemma_geometry_round_trip::<P>(g);
        },
        GeoJsonModel::Feature(f) => {
            lemma_feature_round_trip::<P>(f);
        },
        GeoJsonModel::FeatureCollection(c) => {
            lemma_feature_collection_round_trip::<P>(c);
        },
    }
}

/// Tag and variant agree: whenever a conversion succeeds, the object carried
/// a recognised string tag, and the variant of the result is the category
/// that tag names.
pub proof fn lemma_tag_variant_agreement<P: Position>(o: ObjectModel, g: GeoJsonModel)
    requires
        geojson_from_object_model::<P>(o) == Ok::<GeoJsonModel, ErrorModel>(g),
    ensures
        obj_lookup(o, "type"@) matches Some(JsonModel::String(t)) && type_from_str(t) is Some,
        g is Feature <==> obj_lookup(o, "type"@) == Some(JsonModel::String("Feature"@)),
        g is FeatureCollection <==> obj_lookup(o, "type"@) == Some(
            JsonModel::String("FeatureCollection"@),
        ),
        g is Geometry <==> (obj_lookup(o, "type"@) matches Some(JsonModel::String(t))
            && is_geometry_tag(t)),
{
    lemma_names_distinct();
}


} // verus!
