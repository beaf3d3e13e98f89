use mvtcurl::{
    convert_value, decode_geometry, decode_tile, fill_template, geom_type_from_code, needs_tile,
    parse_header, resolve_properties, select_zoom, Coordinates, FeatureMessage, GeomType,
    HeaderError, LayerMessage, Position, Property, PropertyValue, TileCoord, TileMessage,
    TileValue, UrlError,
};

fn pos(x: i32, y: i32) -> Position {
    Position { x, y }
}

fn string_value(s: &str) -> TileValue {
    TileValue { string_value: Some(s.to_string()), ..TileValue::default() }
}

fn lookup<'a>(props: &'a [Property], key: &str) -> Option<&'a PropertyValue> {
    props.iter().find(|p| p.key == key).map(|p| &p.value)
}

#[test]
fn zigzag_large_values() {
    assert_eq!(mvtcurl::decode_zigzag(u32::MAX), i32::MIN);
    assert_eq!(mvtcurl::decode_zigzag(u32::MAX - 1), i32::MAX);
    assert_eq!(mvtcurl::decode_zigzag(100), 50);
    assert_eq!(mvtcurl::decode_zigzag(101), -51);
}

#[test]
fn parse_command_splits_bits() {
    assert_eq!(mvtcurl::parse_command(0), (0, 0));
    assert_eq!(mvtcurl::parse_command(8 * 1000 + 2), (2, 1000));
    assert_eq!(mvtcurl::parse_command(u32::MAX), (7, (u32::MAX >> 3) as usize));
}

#[test]
fn single_point_is_bare() {
    let r = decode_geometry(&[9, 50, 34], GeomType::Point);
    assert_eq!(r, Coordinates::Position(pos(25, 17)));
}

#[test]
fn multi_point_is_flat_list() {
    let r = decode_geometry(&[17, 10, 14, 3, 9], GeomType::Point);
    assert_eq!(r, Coordinates::Line(vec![pos(5, 7), pos(3, 2)]));
}

#[test]
fn line_is_flat_and_ordered() {
    let r = decode_geometry(&[9, 4, 4, 18, 0, 16, 16, 0], GeomType::LineString);
    assert_eq!(r, Coordinates::Line(vec![pos(2, 2), pos(2, 10), pos(10, 10)]));
}

#[test]
fn polygon_two_rings() {
    let g = [9, 6, 12, 18, 10, 12, 24, 44, 15, 9, 0, 1, 18, 2, 3, 4, 5, 15];
    let r = decode_geometry(&g, GeomType::Polygon);
    assert_eq!(
        r,
        Coordinates::Rings(vec![
            vec![pos(3, 6), pos(8, 12), pos(20, 34)],
            vec![pos(20, 33), pos(21, 31), pos(23, 28)],
        ])
    );
}

#[test]
fn polygon_single_ring_keeps_nesting() {
    let r = decode_geometry(&[9, 0, 0, 26, 2, 0, 0, 2, 1, 0, 15], GeomType::Polygon);
    assert_eq!(r, Coordinates::Rings(vec![vec![pos(0, 0), pos(1, 0), pos(1, 1), pos(0, 1)]]));
}

#[test]
fn two_line_moves_make_two_rings() {
    let r = decode_geometry(&[9, 2, 2, 10, 2, 2, 9, 2, 2], GeomType::LineString);
    assert_eq!(r, Coordinates::Rings(vec![vec![pos(1, 1), pos(2, 2)], vec![pos(3, 3)]]));
}

#[test]
fn truncated_stream_keeps_what_was_built() {
    let r = decode_geometry(&[9, 2, 2, 18, 2, 2, 2], GeomType::LineString);
    assert_eq!(r, Coordinates::Line(vec![pos(1, 1), pos(2, 2)]));
}

#[test]
fn unknown_command_is_skipped() {
    let r = decode_geometry(&[3, 9, 2, 2], GeomType::Point);
    assert_eq!(r, Coordinates::Position(pos(1, 1)));
}

#[test]
fn unknown_type_has_empty_coordinates() {
    let r = decode_geometry(&[9, 2, 2, 18, 2, 2, 2, 2], GeomType::Unknown);
    assert_eq!(r, Coordinates::Rings(vec![]));
    assert_eq!(decode_geometry(&[], GeomType::Point), Coordinates::Line(vec![]));
}

#[test]
fn geom_type_codes() {
    assert_eq!(geom_type_from_code(None), GeomType::Unknown);
    assert_eq!(geom_type_from_code(Some(0)), GeomType::Unknown);
    assert_eq!(geom_type_from_code(Some(1)), GeomType::Point);
    assert_eq!(geom_type_from_code(Some(2)), GeomType::LineString);
    assert_eq!(geom_type_from_code(Some(3)), GeomType::Polygon);
    assert_eq!(geom_type_from_code(Some(9)), GeomType::Unknown);
    assert_eq!(GeomType::LineString.name(), "LineString");
    assert_eq!(GeomType::Unknown.name(), "Unknown");
}

#[test]
fn value_precedence() {
    let v = TileValue {
        string_value: Some("s".to_string()),
        int_value: Some(3),
        ..TileValue::default()
    };
    assert_eq!(convert_value(&v), PropertyValue::Str("s".to_string()));
    let v = TileValue { float_bits: Some(7), double_bits: Some(8), ..TileValue::default() };
    assert_eq!(convert_value(&v), PropertyValue::Float(7));
    let v = TileValue { uint_value: Some(4), sint_value: Some(-4), bool_value: Some(true), ..TileValue::default() };
    assert_eq!(convert_value(&v), PropertyValue::UInt(4));
    let v = TileValue { sint_value: Some(-4), bool_value: Some(true), ..TileValue::default() };
    assert_eq!(convert_value(&v), PropertyValue::SInt(-4));
    let v = TileValue { bool_value: Some(false), ..TileValue::default() };
    assert_eq!(convert_value(&v), PropertyValue::Bool(false));
    assert_eq!(convert_value(&TileValue::default()), PropertyValue::Null);
}

#[test]
fn out_of_range_tags_are_dropped() {
    let keys = vec!["name".to_string(), "kind".to_string()];
    let values = vec![string_value("park"), TileValue { int_value: Some(5), ..TileValue::default() }];
    let props = resolve_properties(&[0, 0, 5, 1, 1, 7, 1, 1], &keys, &values);
    assert_eq!(props.len(), 2);
    assert_eq!(lookup(&props, "name"), Some(&PropertyValue::Str("park".to_string())));
    assert_eq!(lookup(&props, "kind"), Some(&PropertyValue::Int(5)));
}

#[test]
fn later_duplicate_key_wins_and_odd_tag_ignored() {
    let keys = vec!["a".to_string(), "a".to_string()];
    let values = vec![string_value("x"), string_value("y")];
    let props = resolve_properties(&[0, 0, 1, 1, 0], &keys, &values);
    assert_eq!(props.len(), 1);
    assert_eq!(lookup(&props, "a"), Some(&PropertyValue::Str("y".to_string())));
    assert!(resolve_properties(&[], &keys, &values).is_empty());
}

fn sample_tile() -> TileMessage {
    TileMessage {
        layers: vec![
            LayerMessage {
                name: "roads".to_string(),
                extent: None,
                version: 2,
                keys: vec!["class".to_string()],
                values: vec![string_value("primary")],
                features: vec![
                    FeatureMessage {
                        id: Some(7),
                        geom_type: Some(2),
                        tags: vec![0, 0],
                        geometry: vec![9, 4, 4, 10, 2, 2],
                    },
                    FeatureMessage { id: None, geom_type: None, tags: vec![3, 0], geometry: vec![9, 2, 2] },
                ],
            },
            LayerMessage { name: "water".to_string(), extent: Some(512), version: 1, ..LayerMessage::default() },
        ],
    }
}

#[test]
fn decode_tile_assembles_layers() {
    let doc = decode_tile(&sample_tile());
    assert_eq!(doc.layers.len(), 2);
    let roads = &doc.layers[0];
    assert_eq!(roads.name, "roads");
    assert_eq!(roads.extent, 4096);
    assert_eq!(roads.version, 2);
    assert_eq!(roads.features.len(), 2);
    let f = &roads.features[0];
    assert_eq!(f.id, Some(7));
    assert_eq!(f.geometry.geom_type, GeomType::LineString);
    assert_eq!(f.geometry.coordinates, Coordinates::Line(vec![pos(2, 2), pos(3, 3)]));
    assert_eq!(lookup(&f.properties, "class"), Some(&PropertyValue::Str("primary".to_string())));
    let g = &roads.features[1];
    assert_eq!(g.id, None);
    assert_eq!(g.geometry.geom_type, GeomType::Unknown);
    assert_eq!(g.geometry.coordinates, Coordinates::Rings(vec![]));
    assert!(g.properties.is_empty());
    let water = &doc.layers[1];
    assert_eq!(water.name, "water");
    assert_eq!(water.extent, 512);
    assert!(water.features.is_empty());
}

#[test]
fn decode_tile_is_repeatable() {
    let tile = sample_tile();
    assert_eq!(decode_tile(&tile), decode_tile(&tile));
    assert!(decode_tile(&TileMessage::default()).layers.is_empty());
}

#[test]
fn url_placeholders() {
    assert!(needs_tile("https://t.example/{z}/{x}/{y}.pbf"));
    assert!(needs_tile("https://t.example/{y}"));
    assert!(!needs_tile("https://t.example/14/1/2.pbf"));
    let url = fill_template("https://t.example/{z}/{x}/{y}.pbf?z={z}", TileCoord::new(14, 14552, 6451));
    assert_eq!(url, "https://t.example/14/14552/6451.pbf?z=14");
}

#[test]
fn zoom_selection() {
    assert_eq!(select_zoom(true, None), Err(UrlError::ZoomRequired));
    assert_eq!(select_zoom(true, Some(10)), Ok(10));
    assert_eq!(select_zoom(false, None), Ok(0));
    assert_eq!(select_zoom(false, Some(3)), Ok(3));
}

#[test]
fn header_parsing() {
    assert_eq!(
        parse_header("  Authorization :  Bearer a:b  "),
        Ok(("Authorization".to_string(), "Bearer a:b".to_string()))
    );
    assert_eq!(parse_header("NoColon"), Err(HeaderError::MissingColon));
}
