use mvt::decoded;
use mvt::tiles::{Feature as WireFeature, Layer as WireLayer, Tile as WireTile, ValueRecord};
use mvt::{
    decode_zigzag, encode_zigzag, signed_area, DecodeError, FeatureWithCommands,
    FeatureWithCoordinates, FeatureWithJson, Geometry, GeometryType, Layer, Polygon, Tile, Value,
};

fn empty_record() -> ValueRecord {
    ValueRecord {
        string_value: None,
        float_value: None,
        double_value: None,
        int_value: None,
        uint_value: None,
        sint_value: None,
        bool_value: None,
    }
}

fn wire_feature(geom_type: GeometryType, tags: Vec<u32>, geometry: Vec<u32>) -> WireFeature {
    WireFeature { id: 1, tags, geom_type, geometry }
}

/// Encodes MoveTo/LineTo blocks and ClosePath into a packed stream.
fn stream(parts: &[(u32, &[(i64, i64)])]) -> Vec<u32> {
    let mut out = Vec::new();
    for &(id, pairs) in parts {
        if id == 7 {
            out.push(7);
        } else {
            out.push(id | ((pairs.len() as u32) << 3));
            for &(dx, dy) in pairs {
                out.push(encode_zigzag(dx));
                out.push(encode_zigzag(dy));
            }
        }
    }
    out
}

#[test]
fn test_signed_area() {
    // Doubled signed areas: twice -30 for the first ring, twice 1 for
    // the second.
    let mut dots = vec![[3, 4], [5, 11], [12, 8], [9, 5], [5, 6]];
    assert_eq!(signed_area(&dots), Some(-60));

    dots = vec![[1, 1], [2, 1], [2, 2], [1, 2]];
    assert_eq!(signed_area(&dots), Some(2));
}

#[test]
fn signed_area_overflow_is_reported() {
    let m = i64::MAX;
    let dots = vec![[m, m], [-m, m], [-m, -m]];
    assert_eq!(signed_area(&dots), None);
}

#[test]
fn zigzag_concrete_values() {
    assert_eq!(decode_zigzag(0), 0);
    assert_eq!(decode_zigzag(1), -1);
    assert_eq!(decode_zigzag(2), 1);
    assert_eq!(decode_zigzag(3), -2);
    assert_eq!(decode_zigzag(10), 5);
    assert_eq!(decode_zigzag(u32::MAX), -0x8000_0000);
    assert_eq!(decode_zigzag(u32::MAX - 1), 0x7fff_ffff);
    assert_eq!(encode_zigzag(5), 10);
    assert_eq!(encode_zigzag(-1), 1);
}

#[test]
fn zigzag_roundtrip_samples() {
    for r in [0u32, 1, 2, 3, 7, 100, 4096, u32::MAX - 1, u32::MAX] {
        assert_eq!(encode_zigzag(decode_zigzag(r)), r);
    }
}

#[test]
fn shoelace_reversal_negates_concrete() {
    let ring = vec![[0, 0], [4, 0], [4, 4], [0, 4]];
    let reversed = vec![[0, 4], [4, 4], [4, 0], [0, 0]];
    assert_eq!(signed_area(&ring), Some(32));
    assert_eq!(signed_area(&reversed), Some(-32));
}

#[test]
fn shoelace_translation_invariant_concrete() {
    let ring = vec![[0, 0], [4, 0], [4, 4], [0, 4]];
    let shifted = vec![[7, -3], [11, -3], [11, 1], [7, 1]];
    assert_eq!(signed_area(&ring), signed_area(&shifted));
}

#[test]
fn value_decode_single_field() {
    let rec = ValueRecord { string_value: Some("x".to_string()), ..empty_record() };
    assert_eq!(Value::new(&rec), Value::StringValue("x".to_string()));

    let rec = ValueRecord { float_value: Some(0x3f80_0000), ..empty_record() };
    assert_eq!(Value::new(&rec), Value::FloatValue(0x3f80_0000));

    let rec = ValueRecord { double_value: Some(0x3ff0_0000_0000_0000), ..empty_record() };
    assert_eq!(Value::new(&rec), Value::DoubleValue(0x3ff0_0000_0000_0000));

    let rec = ValueRecord { int_value: Some(-7), ..empty_record() };
    assert_eq!(Value::new(&rec), Value::IntValue(-7));

    let rec = ValueRecord { uint_value: Some(7), ..empty_record() };
    assert_eq!(Value::new(&rec), Value::UintValue(7));

    let rec = ValueRecord { sint_value: Some(-9), ..empty_record() };
    assert_eq!(Value::new(&rec), Value::SintValue(-9));

    let rec = ValueRecord { bool_value: Some(true), ..empty_record() };
    assert_eq!(Value::new(&rec), Value::BoolValue(true));
}

#[test]
fn value_decode_none_set_defaults_to_empty_string() {
    assert_eq!(Value::new(&empty_record()), Value::StringValue(String::new()));
}

#[test]
fn value_decode_first_match_precedence() {
    let rec = ValueRecord {
        string_value: Some("s".to_string()),
        int_value: Some(3),
        ..empty_record()
    };
    assert_eq!(Value::new(&rec), Value::StringValue("s".to_string()));

    let rec = ValueRecord { int_value: Some(3), bool_value: Some(false), ..empty_record() };
    assert_eq!(Value::new(&rec), Value::IntValue(3));
}

fn keys_ab() -> Vec<String> {
    vec!["a".to_string(), "b".to_string()]
}

fn values_int_str() -> Vec<Value> {
    vec![Value::IntValue(10), Value::StringValue("x".to_string())]
}

#[test]
fn tags_resolve_against_dictionaries() {
    let feature = wire_feature(GeometryType::POINT, vec![0, 0, 1, 1], stream(&[(1, &[(5, 5)])]));
    let f = FeatureWithCommands::new(&feature, &keys_ab(), &values_int_str()).unwrap();
    let props = f.properties();
    assert_eq!(props.len(), 2);
    assert_eq!(props.get(&"a".to_string()), Some(&Value::IntValue(10)));
    assert_eq!(props.get(&"b".to_string()), Some(&Value::StringValue("x".to_string())));
    assert_eq!(props.get(&"c".to_string()), None);
}

#[test]
fn tags_later_pair_overwrites_earlier() {
    let feature = wire_feature(GeometryType::POINT, vec![0, 0, 0, 1], vec![]);
    let f = FeatureWithCommands::new(&feature, &keys_ab(), &values_int_str()).unwrap();
    let props = f.properties();
    assert_eq!(props.len(), 1);
    assert_eq!(props.get(&"a".to_string()), Some(&Value::StringValue("x".to_string())));
}

#[test]
fn odd_tags_are_malformed() {
    let feature = wire_feature(GeometryType::POINT, vec![0], vec![]);
    let r = FeatureWithCommands::new(&feature, &keys_ab(), &values_int_str());
    assert!(matches!(r, Err(DecodeError::MalformedTags)));
}

#[test]
fn tag_index_out_of_range() {
    let feature = wire_feature(GeometryType::POINT, vec![5, 0], vec![]);
    let r = FeatureWithCommands::new(&feature, &keys_ab(), &values_int_str());
    assert!(matches!(r, Err(DecodeError::IndexOutOfRange)));

    let feature = wire_feature(GeometryType::POINT, vec![0, 9], vec![]);
    let r = FeatureWithCommands::new(&feature, &keys_ab(), &values_int_str());
    assert!(matches!(r, Err(DecodeError::IndexOutOfRange)));
}

#[test]
fn unknown_opcode_is_malformed() {
    let feature = wire_feature(GeometryType::POINT, vec![], vec![3]);
    let r = FeatureWithCommands::new(&feature, &keys_ab(), &values_int_str());
    assert!(matches!(r, Err(DecodeError::MalformedCommandStream)));
}

#[test]
fn parameter_underflow_is_malformed() {
    // MoveTo with count 1 but only one of the two parameters present.
    let feature = wire_feature(GeometryType::POINT, vec![], vec![9, 10]);
    let r = FeatureWithCommands::new(&feature, &keys_ab(), &values_int_str());
    assert!(matches!(r, Err(DecodeError::MalformedCommandStream)));
}

#[test]
fn point_empty_geometry_fails() {
    let feature = wire_feature(GeometryType::POINT, vec![], vec![]);
    let r = FeatureWithCoordinates::new(&feature, &keys_ab(), &values_int_str());
    assert!(matches!(r, Err(DecodeError::EmptyGeometry)));
}

#[test]
fn point_single_move_to() {
    let feature = wire_feature(GeometryType::POINT, vec![], stream(&[(1, &[(5, 5)])]));
    let f = FeatureWithCoordinates::new(&feature, &keys_ab(), &values_int_str()).unwrap();
    assert_eq!(f.id(), 1);
    assert!(matches!(f.geometry(), Geometry::Point([5, 5])));
}

#[test]
fn point_multiple_move_to_accumulates_cursor() {
    let feature = wire_feature(
        GeometryType::POINT,
        vec![],
        stream(&[(1, &[(1, 1), (2, 3)])]),
    );
    let f = FeatureWithCoordinates::new(&feature, &keys_ab(), &values_int_str()).unwrap();
    match f.geometry() {
        Geometry::MultyPoint(pts) => {
            assert_eq!(pts, &vec![[1, 1], [3, 4]]);
        },
        other => panic!("expected MultyPoint, got {:?}", other),
    }
}

#[test]
fn point_rejects_line_to() {
    let feature = wire_feature(GeometryType::POINT, vec![], stream(&[(2, &[(5, 5)])]));
    let r = FeatureWithCoordinates::new(&feature, &keys_ab(), &values_int_str());
    assert!(matches!(r, Err(DecodeError::InvalidGeometryForType)));
}

#[test]
fn unknown_geometry_type_is_rejected() {
    let feature = wire_feature(GeometryType::UNKNOWN, vec![], vec![]);
    let r = FeatureWithCoordinates::new(&feature, &keys_ab(), &values_int_str());
    assert!(matches!(r, Err(DecodeError::InvalidGeometryForType)));
}

#[test]
fn linestring_single() {
    let feature = wire_feature(
        GeometryType::LINESTRING,
        vec![],
        stream(&[(1, &[(1, 1)]), (2, &[(2, 0), (0, 2)])]),
    );
    let f = FeatureWithCoordinates::new(&feature, &keys_ab(), &values_int_str()).unwrap();
    match f.geometry() {
        Geometry::LineString(pts) => {
            assert_eq!(pts, &vec![[1, 1], [3, 1], [3, 3]]);
        },
        other => panic!("expected LineString, got {:?}", other),
    }
}

#[test]
fn linestring_multiple_keeps_cursor_between_subpaths() {
    let feature = wire_feature(
        GeometryType::LINESTRING,
        vec![],
        stream(&[(1, &[(1, 1)]), (2, &[(2, 0)]), (1, &[(1, 1)]), (2, &[(0, 2)])]),
    );
    let f = FeatureWithCoordinates::new(&feature, &keys_ab(), &values_int_str()).unwrap();
    match f.geometry() {
        Geometry::MultyLineString(lines) => {
            assert_eq!(lines.len(), 2);
            assert_eq!(lines[0], vec![[1, 1], [3, 1]]);
            assert_eq!(lines[1], vec![[4, 2], [4, 4]]);
        },
        other => panic!("expected MultyLineString, got {:?}", other),
    }
}

#[test]
fn linestring_rejects_close_path() {
    let feature = wire_feature(
        GeometryType::LINESTRING,
        vec![],
        stream(&[(1, &[(1, 1)]), (7, &[])]),
    );
    let r = FeatureWithCoordinates::new(&feature, &keys_ab(), &values_int_str());
    assert!(matches!(r, Err(DecodeError::InvalidGeometryForType)));
}

#[test]
fn linestring_empty_geometry_fails() {
    let feature = wire_feature(GeometryType::LINESTRING, vec![], vec![]);
    let r = FeatureWithCoordinates::new(&feature, &keys_ab(), &values_int_str());
    assert!(matches!(r, Err(DecodeError::EmptyGeometry)));
}

/// One positive-area square: (0,0) (4,0) (4,4) (0,4).
fn exterior_parts() -> Vec<(u32, Vec<(i64, i64)>)> {
    vec![
        (1, vec![(0, 0)]),
        (2, vec![(4, 0), (0, 4), (-4, 0)]),
        (7, vec![]),
    ]
}

fn to_stream(parts: Vec<(u32, Vec<(i64, i64)>)>) -> Vec<u32> {
    let borrowed: Vec<(u32, &[(i64, i64)])> =
        parts.iter().map(|(id, v)| (*id, v.as_slice())).collect();
    stream(&borrowed)
}

#[test]
fn polygon_single_ring() {
    let feature = wire_feature(GeometryType::POLYGON, vec![], to_stream(exterior_parts()));
    let f = FeatureWithCoordinates::new(&feature, &keys_ab(), &values_int_str()).unwrap();
    match f.geometry() {
        Geometry::Polygon(p) => {
            assert_eq!(p.exterior_ring(), &vec![[0, 0], [4, 0], [4, 4], [0, 4]]);
            assert!(p.interior_rings().is_empty());
        },
        other => panic!("expected Polygon, got {:?}", other),
    }
}

#[test]
fn polygon_with_hole() {
    // Exterior ends at (0,4); the hole runs clockwise in y-down terms:
    // (1,1) (1,3) (3,3) (3,1), a negative doubled area.
    let mut parts = exterior_parts();
    parts.push((1, vec![(1, -3)]));
    parts.push((2, vec![(0, 2), (2, 0), (0, -2)]));
    parts.push((7, vec![]));
    let feature = wire_feature(GeometryType::POLYGON, vec![], to_stream(parts));
    let f = FeatureWithCoordinates::new(&feature, &keys_ab(), &values_int_str()).unwrap();
    match f.geometry() {
        Geometry::Polygon(p) => {
            assert_eq!(p.exterior_ring(), &vec![[0, 0], [4, 0], [4, 4], [0, 4]]);
            assert_eq!(p.interior_rings(), &vec![vec![[1, 1], [1, 3], [3, 3], [3, 1]]]);
        },
        other => panic!("expected Polygon, got {:?}", other),
    }
}

#[test]
fn polygon_interior_ring_without_exterior_fails() {
    // A negative-area ring first: (1,1) (1,3) (3,3) (3,1).
    let parts = vec![
        (1, vec![(1, 1)]),
        (2, vec![(0, 2), (2, 0), (0, -2)]),
        (7, vec![]),
    ];
    let feature = wire_feature(GeometryType::POLYGON, vec![], to_stream(parts));
    let r = FeatureWithCoordinates::new(&feature, &keys_ab(), &values_int_str());
    assert!(matches!(r, Err(DecodeError::InvalidGeometryForType)));
}

#[test]
fn polygon_single_point_ring_is_degenerate() {
    // MoveTo count 1 with parameters (5,5), then a bare ClosePath.
    let geometry = vec![1 | (1 << 3), encode_zigzag(5), encode_zigzag(5), 7];
    let feature = wire_feature(GeometryType::POLYGON, vec![], geometry);
    let r = FeatureWithCoordinates::new(&feature, &keys_ab(), &values_int_str());
    assert!(matches!(r, Err(DecodeError::InvalidGeometryForType)));
}

#[test]
fn polygon_two_exterior_rings_make_multi_polygon() {
    // Two positive-area squares closed back to back, no holes.
    let mut parts = exterior_parts();
    // Cursor is at (0,4); the second square spans (10,0)..(14,4).
    parts.push((1, vec![(10, -4)]));
    parts.push((2, vec![(4, 0), (0, 4), (-4, 0)]));
    parts.push((7, vec![]));
    let feature = wire_feature(GeometryType::POLYGON, vec![], to_stream(parts));
    let f = FeatureWithCoordinates::new(&feature, &keys_ab(), &values_int_str()).unwrap();
    match f.geometry() {
        Geometry::MultyPolygon(ps) => {
            assert_eq!(ps.len(), 2);
            assert_eq!(ps[0].exterior_ring(), &vec![[0, 0], [4, 0], [4, 4], [0, 4]]);
            assert!(ps[0].interior_rings().is_empty());
            assert_eq!(ps[1].exterior_ring(), &vec![[10, 0], [14, 0], [14, 4], [10, 4]]);
            assert!(ps[1].interior_rings().is_empty());
        },
        other => panic!("expected MultyPolygon, got {:?}", other),
    }
}

#[test]
fn polygon_empty_geometry_fails() {
    let feature = wire_feature(GeometryType::POLYGON, vec![], vec![]);
    let r = FeatureWithCoordinates::new(&feature, &keys_ab(), &values_int_str());
    assert!(matches!(r, Err(DecodeError::EmptyGeometry)));
}

#[test]
fn polygon_builder_methods() {
    let mut p = Polygon::new(vec![[0, 0], [4, 0], [4, 4]]);
    assert_eq!(p.exterior_ring(), &vec![[0, 0], [4, 0], [4, 4]]);
    assert!(p.interior_rings().is_empty());
    p.add_ring(vec![[1, 1], [1, 2], [2, 2]]);
    assert_eq!(p.interior_rings().len(), 1);
    assert_eq!(p.interior_rings()[0], vec![[1, 1], [1, 2], [2, 2]]);
}

fn wire_layer(name: &str, features: Vec<WireFeature>) -> WireLayer {
    WireLayer {
        version: 2,
        name: name.to_string(),
        keys: keys_ab(),
        values: vec![
            ValueRecord { int_value: Some(10), ..empty_record() },
            ValueRecord { string_value: Some("x".to_string()), ..empty_record() },
        ],
        features,
        extent: None,
    }
}

#[test]
fn layer_extent_defaults_to_4096() {
    let layer = Layer::<FeatureWithJson>::new(&wire_layer("water", vec![]));
    assert_eq!(layer.extent, 4096);
    assert_eq!(layer.version, 2);
    assert_eq!(layer.name, "water");
}

#[test]
fn layer_explicit_extent_is_kept() {
    let mut w = wire_layer("water", vec![]);
    w.extent = Some(512);
    let layer = Layer::<FeatureWithJson>::new(&w);
    assert_eq!(layer.extent, 512);
}

#[test]
fn layer_decodes_values_before_features() {
    let w = wire_layer(
        "roads",
        vec![wire_feature(GeometryType::POINT, vec![0, 0], stream(&[(1, &[(2, 2)])]))],
    );
    let layer = Layer::<FeatureWithCommands>::new(&w).unwrap();
    assert_eq!(layer.values, values_int_str());
    assert_eq!(layer.features.len(), 1);
    assert_eq!(
        layer.features[0].properties().get(&"a".to_string()),
        Some(&Value::IntValue(10))
    );
}

#[test]
fn tile_json_representation_copies_raw_fields() {
    let w = wire_layer(
        "roads",
        vec![wire_feature(GeometryType::LINESTRING, vec![0, 1], vec![9, 4, 4])],
    );
    let tile = Tile::<FeatureWithJson>::new(&WireTile { layers: vec![w] });
    assert_eq!(tile.layers.len(), 1);
    let f = &tile.layers[0].features[0];
    assert_eq!(f.id, 1);
    assert_eq!(f.tags, vec![0, 1]);
    assert_eq!(f.geom_type, GeometryType::LINESTRING);
    assert_eq!(f.geometry, vec![9, 4, 4]);
}

#[test]
fn tile_reports_first_failing_layer() {
    let good = wire_layer("a", vec![]);
    let bad = wire_layer("b", vec![wire_feature(GeometryType::POINT, vec![9, 9], vec![])]);
    let r = Tile::<FeatureWithCommands>::new(&WireTile { layers: vec![good, bad] });
    assert!(matches!(r, Err(DecodeError::IndexOutOfRange)));
}

#[test]
fn get_layer_finds_first_match() {
    let w1 = wire_layer("water", vec![]);
    let mut w2 = wire_layer("water", vec![]);
    w2.version = 9;
    let tile = Tile::<FeatureWithJson>::new(&WireTile { layers: vec![w1, w2] });
    let found = tile.get_layer(&"water".to_string()).unwrap();
    assert_eq!(found.version, 2);
    assert!(tile.get_layer(&"roads".to_string()).is_none());
}

#[test]
fn decoded_feature_collects_subpaths() {
    // A closed square and a trailing never-closed subpath, which drops.
    let mut parts = exterior_parts();
    parts.push((1, vec![(10, -4)]));
    parts.push((2, vec![(1, 1)]));
    let w = wire_layer(
        "shapes",
        vec![wire_feature(GeometryType::POLYGON, vec![0, 0], to_stream(parts))],
    );
    let tile = decoded::Tile::new(&WireTile { layers: vec![w] }).unwrap();
    let layers = tile.layers();
    assert_eq!(layers.len(), 1);
    assert_eq!(layers[0].name(), "shapes");
    assert_eq!(layers[0].extent(), 4096);
    let features = layers[0].features();
    assert_eq!(features.len(), 1);
    assert_eq!(features[0].id(), 1);
    assert_eq!(features[0].geom_type(), GeometryType::POLYGON);
    assert_eq!(
        features[0].metadata().get(&"a".to_string()),
        Some(&Value::IntValue(10))
    );
    let subpaths = features[0].geometry();
    assert_eq!(subpaths, &vec![vec![[0, 0], [4, 0], [4, 4], [0, 4]]]);
}

#[test]
fn decoded_close_path_keeps_current_subpath() {
    // Two ClosePath commands in a row record the same subpath twice.
    let parts = vec![
        (1, vec![(1, 1)]),
        (2, vec![(1, 0)]),
        (7, vec![]),
        (7, vec![]),
    ];
    let w = wire_layer(
        "shapes",
        vec![wire_feature(GeometryType::LINESTRING, vec![], to_stream(parts))],
    );
    let tile = decoded::Tile::new(&WireTile { layers: vec![w] }).unwrap();
    let subpaths = tile.layers()[0].features()[0].geometry().clone();
    assert_eq!(subpaths, vec![vec![[1, 1], [2, 1]], vec![[1, 1], [2, 1]]]);
}

#[test]
fn geometry_type_codes() {
    assert_eq!(GeometryType::new(0), GeometryType::UNKNOWN);
    assert_eq!(GeometryType::new(1), GeometryType::POINT);
    assert_eq!(GeometryType::new(2), GeometryType::LINESTRING);
    assert_eq!(GeometryType::new(3), GeometryType::POLYGON);
    assert_eq!(GeometryType::new(77), GeometryType::UNKNOWN);
    assert_eq!(GeometryType::default(), GeometryType::UNKNOWN);
}

#[test]
fn value_clone_preserves_value() {
    let v = Value::StringValue("abc".to_string());
    assert_eq!(v.clone(), v);
    let v = Value::IntValue(-4);
    assert_eq!(v.clone(), v);
}
