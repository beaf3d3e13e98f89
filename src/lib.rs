//! Decoding of Mapbox Vector Tiles: zigzag deltas and command streams into
//! tile-local geometries, tag pairs into typed properties, and whole tiles
//! into layered documents, together with the tile URL templating used to
//! fetch them.

pub mod attributes;
pub mod command;
pub mod extent;
pub mod geometry;
pub mod request;
pub mod tile;

pub use attributes::{convert_value, resolve_properties, Property, PropertyValue, TileValue};
pub use command::{decode_zigzag, parse_command};
pub use extent::{
    Extent, LatLon, PredefinedLocation, TileCoord, DEFAULT_EXTENT, MT_FUJI_LAT_E6, MT_FUJI_LON_E6,
    TOKYO_STATION_LAT_E6, TOKYO_STATION_LON_E6,
};
pub use geometry::{decode_geometry, geom_type_from_code, Coordinates, GeomType, Position};
pub use request::{
    fill_template, needs_tile, parse_header, select_zoom, HeaderError, UrlError,
};
pub use tile::{
    decode_feature, decode_layer, decode_tile, FeatureMessage, GeoJsonFeature, GeoJsonGeometry,
    Layer, LayerMessage, TileData, TileMessage,
};
