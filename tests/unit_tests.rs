use mvtcurl::{
    decode_zigzag, parse_command, Extent, LatLon, PredefinedLocation, TileCoord, DEFAULT_EXTENT,
    MT_FUJI_LAT_E6, MT_FUJI_LON_E6, TOKYO_STATION_LAT_E6, TOKYO_STATION_LON_E6,
};

#[test]
fn test_decode_zigzag() {
    assert_eq!(decode_zigzag(0), 0);
    assert_eq!(decode_zigzag(1), -1);
    assert_eq!(decode_zigzag(2), 1);
    assert_eq!(decode_zigzag(3), -2);
    assert_eq!(decode_zigzag(4), 2);
}

#[test]
fn test_parse_command() {
    assert_eq!(parse_command(9), (1, 1));
    assert_eq!(parse_command(18), (2, 2));
    assert_eq!(parse_command(15), (7, 1));
}

#[test]
fn test_extent_default() {
    let extent = Extent::default();
    assert_eq!(extent.value(), DEFAULT_EXTENT);
}

#[test]
fn test_predefined_location_tokyo() {
    let location = PredefinedLocation::TokyoStation;
    let coords = location.coordinates();
    assert_eq!(coords.lat_e6, TOKYO_STATION_LAT_E6);
    assert_eq!(coords.lon_e6, TOKYO_STATION_LON_E6);
}

#[test]
fn test_predefined_location_fuji() {
    let location = PredefinedLocation::MtFuji;
    let coords = location.coordinates();
    assert_eq!(coords.lat_e6, MT_FUJI_LAT_E6);
    assert_eq!(coords.lon_e6, MT_FUJI_LON_E6);
}

#[test]
fn test_tile_coord_new() {
    let tile = TileCoord::new(14, 14551, 6449);
    assert_eq!(tile.z, 14);
    assert_eq!(tile.x, 14551);
    assert_eq!(tile.y, 6449);
}

#[test]
fn test_extent_value() {
    let extent = Extent::new(8192);
    assert_eq!(extent.value(), 8192);
}

#[test]
fn test_lat_lon_new() {
    let latlon = LatLon::new(35681200, 139767100);
    assert_eq!(latlon.lat_e6, 35681200);
    assert_eq!(latlon.lon_e6, 139767100);
}
