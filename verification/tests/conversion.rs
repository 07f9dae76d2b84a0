use geojson::errors::GeoJsonError;
use geojson::feature::Feature;
use geojson::feature_collection::FeatureCollection;
use geojson::geojson::{GeoJson, Type};
use geojson::geometry::{Geometry, GeometryValue};
use geojson::json::{JsonObject, JsonValue};
use geojson::position::JsonPosition;

fn num(x: f64) -> JsonValue {
    JsonValue::Number(serde_json::Number::from_f64(x).unwrap())
}

fn point_coords() -> JsonValue {
    JsonValue::Array(vec![num(102.0), num(0.5)])
}

fn point_geometry_obj() -> JsonObject {
    let mut g = JsonObject::new();
    g.push("type".to_owned(), JsonValue::String("Point".to_owned()));
    g.push("coordinates".to_owned(), point_coords());
    g
}

fn feature_value() -> JsonValue {
    let mut o = JsonObject::new();
    o.push("type".to_owned(), JsonValue::String("Feature".to_owned()));
    o.push("geometry".to_owned(), JsonValue::Object(point_geometry_obj()));
    o.push("properties".to_owned(), JsonValue::Null);
    JsonValue::Object(o)
}

fn expected_feature() -> GeoJson<JsonPosition> {
    GeoJson::Feature(Feature {
        bbox: None,
        geometry: Some(Geometry::new(GeometryValue::Point(JsonPosition {
            value: point_coords(),
        }))),
        id: None,
        properties: None,
        foreign_members: None,
    })
}

#[test]
fn test_geojson_from_reader() {
    let json_str = r#"{
        "type": "Feature",
        "geometry": {
                "type": "Point",
                "coordinates": [102.0, 0.5]
        },
        "properties": null
    }"#;

    let g1 = GeoJson::<JsonPosition>::from_reader(json_str.as_bytes()).unwrap();
    let g2: GeoJson<JsonPosition> = GeoJson::from_json_value(feature_value()).unwrap();
    assert_eq!(g1, g2);
}

#[test]
fn test_geojson_from_value() {
    let json_value = feature_value();
    assert!(matches!(json_value, JsonValue::Object(_)));

    let geojson: GeoJson<JsonPosition> = GeoJson::from_json_value(json_value).unwrap();
    assert_eq!(geojson, expected_feature());
}

#[test]
fn test_invalid_json() {
    let geojson_str = r#"{
       "type": "FeatureCollection",
       "features": [
         !INTENTIONAL_TYPO! {
           "type": "Feature",
           "properties": {},
           "geometry": {
             "type": "Point",
             "coordinates": [
               -0.13583511114120483,
               51.5218870403801
             ]
           }
         }
       ]
    }"#;
    assert!(matches!(
        GeoJson::<JsonPosition>::from_str(geojson_str),
        Err(GeoJsonError::MalformedJson(_))
    ))
}

#[test]
fn feature_scenario_round_trips_to_equal_json() {
    let input = r#"{"type":"Feature","geometry":{"type":"Point","coordinates":[102.0,0.5]},"properties":null}"#;
    let parsed = GeoJson::<JsonPosition>::from_str(input).unwrap();
    assert_eq!(parsed, expected_feature());
    match &parsed {
        GeoJson::Feature(f) => {
            assert!(f.id.is_none());
            assert!(f.properties.is_none());
        }
        _ => panic!("expected a feature"),
    }
    let rendered = parsed.to_json_string().unwrap();
    let reparsed: serde_json::Value = serde_json::from_str(&rendered).unwrap();
    let original: serde_json::Value = serde_json::from_str(input).unwrap();
    assert_eq!(reparsed, original);
}

#[test]
fn feature_collection_keeps_feature_order() {
    let input = r#"{"type":"FeatureCollection","features":[
        {"type":"Feature","geometry":{"type":"Point","coordinates":[102.0,0.5]},"properties":null}
    ]}"#;
    let parsed = GeoJson::<JsonPosition>::from_str(input).unwrap();
    match parsed {
        GeoJson::FeatureCollection(c) => {
            assert_eq!(c.features.len(), 1);
            assert!(c.features[0].geometry.is_some());
        }
        _ => panic!("expected a feature collection"),
    }
}

#[test]
fn stray_token_in_features_is_malformed_json() {
    let input = r#"{"type":"FeatureCollection","features":[ oops
        {"type":"Feature","geometry":null,"properties":null}
    ]}"#;
    assert!(matches!(
        GeoJson::<JsonPosition>::from_str(input),
        Err(GeoJsonError::MalformedJson(_))
    ));
}

#[test]
fn typed_round_trip_keeps_foreign_members_and_bbox() {
    let mut foreign = JsonObject::new();
    foreign.push("title".to_owned(), JsonValue::String("hills".to_owned()));
    let original = GeoJson::FeatureCollection(FeatureCollection {
        bbox: Some(vec![
            serde_json::Number::from_f64(-1.0).unwrap(),
            serde_json::Number::from_f64(-2.0).unwrap(),
            serde_json::Number::from_f64(3.0).unwrap(),
            serde_json::Number::from_f64(4.0).unwrap(),
        ]),
        features: vec![Feature {
            bbox: None,
            geometry: Some(Geometry::new(GeometryValue::Point(JsonPosition {
                value: point_coords(),
            }))),
            id: Some(geojson::feature::Id::String("a".to_owned())),
            properties: None,
            foreign_members: None,
        }],
        foreign_members: Some(foreign),
    });
    let rebuilt = GeoJson::FeatureCollection(FeatureCollection {
        bbox: Some(vec![
            serde_json::Number::from_f64(-1.0).unwrap(),
            serde_json::Number::from_f64(-2.0).unwrap(),
            serde_json::Number::from_f64(3.0).unwrap(),
            serde_json::Number::from_f64(4.0).unwrap(),
        ]),
        features: vec![Feature {
            bbox: None,
            geometry: Some(Geometry::new(GeometryValue::Point(JsonPosition {
                value: point_coords(),
            }))),
            id: Some(geojson::feature::Id::String("a".to_owned())),
            properties: None,
            foreign_members: None,
        }],
        foreign_members: Some({
            let mut f = JsonObject::new();
            f.push("title".to_owned(), JsonValue::String("hills".to_owned()));
            f
        }),
    });
    let text = original.to_json_string().unwrap();
    let back = GeoJson::<JsonPosition>::from_str(&text).unwrap();
    assert_eq!(back, rebuilt);
}

#[test]
fn each_geometry_tag_yields_geometry_variant() {
    let cases = [
        ("Point", "[102.0, 0.5]"),
        ("MultiPoint", "[[1.0, 2.0]]"),
        ("LineString", "[[1.0, 2.0], [3.0, 4.0]]"),
        ("MultiLineString", "[[[1.0, 2.0], [3.0, 4.0]]]"),
        ("Polygon", "[[[1.0, 2.0], [3.0, 4.0], [5.0, 6.0], [1.0, 2.0]]]"),
        ("MultiPolygon", "[[[[1.0, 2.0], [3.0, 4.0], [5.0, 6.0], [1.0, 2.0]]]]"),
    ];
    for (tag, coords) in cases {
        let text = format!("{{\"type\":\"{}\",\"coordinates\":{}}}", tag, coords);
        let parsed = GeoJson::<JsonPosition>::from_str(&text).unwrap();
        assert!(matches!(parsed, GeoJson::Geometry(_)), "{}", tag);
    }
    let gc = r#"{"type":"GeometryCollection","geometries":[{"type":"Point","coordinates":[1.0,2.0]}]}"#;
    let parsed = GeoJson::<JsonPosition>::from_str(gc).unwrap();
    match parsed {
        GeoJson::Geometry(g) => match g.value {
            GeometryValue::GeometryCollection(gs) => assert_eq!(gs.len(), 1),
            _ => panic!("expected a geometry collection"),
        },
        _ => panic!("expected a geometry"),
    }
}

#[test]
fn feature_and_collection_tags_yield_their_variants() {
    let f = GeoJson::<JsonPosition>::from_str(
        r#"{"type":"Feature","geometry":null,"properties":null}"#,
    )
    .unwrap();
    assert!(matches!(f, GeoJson::Feature(_)));
    let c =
        GeoJson::<JsonPosition>::from_str(r#"{"type":"FeatureCollection","features":[]}"#).unwrap();
    assert!(matches!(c, GeoJson::FeatureCollection(_)));
}

#[test]
fn unrecognized_tag_is_empty_type() {
    let r = GeoJson::<JsonPosition>::from_str(r#"{"type":"Circle","coordinates":[1.0,2.0]}"#);
    assert!(matches!(r, Err(GeoJsonError::EmptyType)));
}

#[test]
fn missing_or_non_string_tag_is_geometry_unknown_type() {
    let r = GeoJson::<JsonPosition>::from_str(r#"{"coordinates":[1.0,2.0]}"#);
    match r {
        Err(GeoJsonError::GeometryUnknownType(k)) => assert_eq!(k, "type"),
        _ => panic!("expected GeometryUnknownType"),
    }
    let r2 = GeoJson::<JsonPosition>::from_str(r#"{"type":7,"coordinates":[1.0,2.0]}"#);
    assert!(matches!(r2, Err(GeoJsonError::GeometryUnknownType(_))));
}

#[test]
fn non_object_top_level_is_rejected() {
    for text in ["[1, 2]", "\"Point\"", "5.0", "true", "null"] {
        let r = GeoJson::<JsonPosition>::from_str(text);
        assert!(matches!(r, Err(GeoJsonError::ExpectedObjectValue(_))), "{}", text);
    }
    let r = GeoJson::<JsonPosition>::from_json_value(JsonValue::Bool(true));
    assert!(matches!(r, Err(GeoJsonError::GeoJsonExpectedObject(JsonValue::Bool(true)))));
}

#[test]
fn narrowing_mismatch_reports_both_names() {
    let f = GeoJson::<JsonPosition>::from_json_value(feature_value()).unwrap();
    match Geometry::try_from_geojson(f) {
        Err(GeoJsonError::ExpectedType { expected, actual }) => {
            assert_eq!(expected, "Geometry");
            assert_eq!(actual, "Feature");
        }
        _ => panic!("expected ExpectedType"),
    }
}

#[test]
fn narrowing_to_held_variant_returns_it_unchanged() {
    let f = GeoJson::<JsonPosition>::from_json_value(feature_value()).unwrap();
    let feature = Feature::try_from_geojson(f).unwrap();
    assert_eq!(GeoJson::Feature(feature), expected_feature());
    let g = Geometry::new(GeometryValue::Point(JsonPosition { value: point_coords() }));
    let narrowed = Geometry::try_from_geojson(GeoJson::from(g)).unwrap();
    assert_eq!(
        narrowed,
        Geometry::new(GeometryValue::Point(JsonPosition { value: point_coords() }))
    );
}

#[test]
fn collection_narrowing_mismatch() {
    let f = GeoJson::<JsonPosition>::from_json_value(feature_value()).unwrap();
    match FeatureCollection::try_from_geojson(f) {
        Err(GeoJsonError::ExpectedType { expected, actual }) => {
            assert_eq!(expected, "FeatureCollection");
            assert_eq!(actual, "Feature");
        }
        _ => panic!("expected ExpectedType"),
    }
}

#[test]
fn missing_required_members_are_reported() {
    let r = GeoJson::<JsonPosition>::from_str(r#"{"type":"Point"}"#);
    match r {
        Err(GeoJsonError::ExpectedProperty(k)) => assert_eq!(k, "coordinates"),
        _ => panic!("expected ExpectedProperty"),
    }
    let r2 = GeoJson::<JsonPosition>::from_str(r#"{"type":"GeometryCollection"}"#);
    match r2 {
        Err(GeoJsonError::ExpectedProperty(k)) => assert_eq!(k, "geometries"),
        _ => panic!("expected ExpectedProperty"),
    }
    let r3 = GeoJson::<JsonPosition>::from_str(r#"{"type":"FeatureCollection"}"#);
    match r3 {
        Err(GeoJsonError::ExpectedProperty(k)) => assert_eq!(k, "features"),
        _ => panic!("expected ExpectedProperty"),
    }
}

#[test]
fn malformed_members_are_reported() {
    let r = GeoJson::<JsonPosition>::from_str(r#"{"type":"MultiPoint","coordinates":5}"#);
    assert!(matches!(r, Err(GeoJsonError::ExpectedArray(_))));
    let r2 = GeoJson::<JsonPosition>::from_str(r#"{"type":"FeatureCollection","features":[5]}"#);
    assert!(matches!(r2, Err(GeoJsonError::ExpectedObject(_))));
    let r3 = GeoJson::<JsonPosition>::from_str(
        r#"{"type":"Feature","geometry":null,"properties":5}"#,
    );
    assert!(matches!(r3, Err(GeoJsonError::InvalidProperties(_))));
    let r4 = GeoJson::<JsonPosition>::from_str(
        r#"{"type":"Feature","geometry":null,"properties":null,"id":true}"#,
    );
    assert!(matches!(r4, Err(GeoJsonError::InvalidIdentifier(_))));
    let r5 = GeoJson::<JsonPosition>::from_str(
        r#"{"type":"Point","coordinates":[1.0,2.0],"bbox":"wide"}"#,
    );
    assert!(matches!(r5, Err(GeoJsonError::InvalidBbox(_))));
    let r6 = GeoJson::<JsonPosition>::from_str(
        r#"{"type":"Feature","geometry":7,"properties":null}"#,
    );
    assert!(matches!(r6, Err(GeoJsonError::ExpectedObject(_))));
}

#[test]
fn type_resolution_is_exact_and_case_sensitive() {
    assert_eq!(Type::from_str("Point"), Some(Type::Point));
    assert_eq!(Type::from_str("FeatureCollection"), Some(Type::FeatureCollection));
    assert_eq!(Type::from_str("point"), None);
    assert_eq!(Type::from_str(" Point"), None);
    assert_eq!(Type::from_str(""), None);
}

#[test]
fn get_object_accepts_only_objects() {
    let o = geojson::geojson::get_object(r#"{"a": 1}"#).unwrap();
    assert_eq!(o.len(), 1);
    assert!(matches!(
        geojson::geojson::get_object("[]"),
        Err(GeoJsonError::ExpectedObjectValue(_))
    ));
    assert!(matches!(
        geojson::geojson::get_object("{"),
        Err(GeoJsonError::MalformedJson(_))
    ));
}

#[test]
fn rendering_is_not_the_input_text() {
    let parsed = GeoJson::<JsonPosition>::from_str(
        r#"{  "type" : "Point", "coordinates" : [1.0, 2.0]  }"#,
    )
    .unwrap();
    let rendered = parsed.to_json_string().unwrap();
    assert_eq!(rendered, r#"{"coordinates":[1.0,2.0],"type":"Point"}"#);
}

#[test]
fn foreign_members_survive_a_text_round_trip() {
    let input = r#"{"type":"Point","coordinates":[1.0,2.0],"name":"origin"}"#;
    let parsed = GeoJson::<JsonPosition>::from_str(input).unwrap();
    match &parsed {
        GeoJson::Geometry(g) => {
            let fm = g.foreign_members.as_ref().unwrap();
            assert_eq!(fm.len(), 1);
        }
        _ => panic!("expected a geometry"),
    }
    let text = parsed.to_json_string().unwrap();
    let reparsed: serde_json::Value = serde_json::from_str(&text).unwrap();
    let original: serde_json::Value = serde_json::from_str(input).unwrap();
    assert_eq!(reparsed, original);
}

#[test]
fn a_clone_converts_like_the_original() {
    let original = GeoJson::<JsonPosition>::from_str(
        r#"{"type":"Feature","geometry":{"type":"Point","coordinates":[102.0,0.5]},"properties":null,"name":"here"}"#,
    )
    .unwrap();
    let copy = original.clone();
    assert_eq!(copy, original);
    let text = copy.to_json_string().unwrap();
    let back = GeoJson::<JsonPosition>::from_str(&text).unwrap();
    assert_eq!(back, original);
}

#[test]
fn rendering_always_succeeds() {
    let values = [
        GeoJson::<JsonPosition>::from_str(r#"{"type":"Point","coordinates":[1.0,2.0]}"#).unwrap(),
        GeoJson::<JsonPosition>::from_str(r#"{"type":"FeatureCollection","features":[]}"#)
            .unwrap(),
    ];
    for v in values {
        assert!(v.to_json_string().is_ok());
    }
}
