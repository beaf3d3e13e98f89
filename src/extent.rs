use vstd::prelude::*;

verus! {

/// The extent a layer has when it states none.
pub const DEFAULT_EXTENT: u32 = 4096;

/// Latitude of Tokyo Station, in millionths of a degree.
pub const TOKYO_STATION_LAT_E6: i32 = 35681236;

/// Longitude of Tokyo Station, in millionths of a degree.
pub const TOKYO_STATION_LON_E6: i32 = 139767125;

/// Latitude of the summit of Mt. Fuji, in millionths of a degree.
pub const MT_FUJI_LAT_E6: i32 = 35360556;

/// Longitude of the summit of Mt. Fuji, in millionths of a degree.
pub const MT_FUJI_LON_E6: i32 = 138727778;

/// A tile address: zoom level and column / row at that zoom.
#[derive(Debug, Clone, Copy, PartialEq, Eq, Structural)]
pub struct TileCoord {
    pub z: u32,
    pub x: u32,
    pub y: u32,
}

impl TileCoord {
    pub fn new(z: u32, x: u32, y: u32) -> (r: Self)
        ensures
            r.z == z,
            r.x == x,
            r.y == y,
    {
        TileCoord { z, x, y }
    }
}

/// A layer's extent: the size of its tile-local coordinate space along each
/// axis.
#[derive(Debug, Clone, Copy, PartialEq, Eq, Structural)]
pub struct Extent(u32);

impl View for Extent {
    type V = u32;

    closed spec fn view(&self) -> u32 {
        self.0
    }
}

impl Extent {
    pub fn new(value: u32) -> (r: Self)
        ensures
            r@ == value,
    {
        Extent(value)
    }

    pub fn value(&self) -> (r: u32)
        ensures
            r == self@,
    {
        self.0
    }
}

impl Default for Extent {
    fn default() -> (r: Self)
        ensures
            r@ == DEFAULT_EXTENT,
    {
        Extent(DEFAULT_EXTENT)
    }
}

/// A geographic position in millionths of a degree.
#[derive(Debug, Clone, Copy, PartialEq, Eq, Structural)]
pub struct LatLon {
    pub lat_e6: i32,
    pub lon_e6: i32,
}

impl LatLon {
    pub fn new(lat_e6: i32, lon_e6: i32) -> (r: Self)
        ensures
            r.lat_e6 == lat_e6,
            r.lon_e6 == lon_e6,
    {
        LatLon { lat_e6, lon_e6 }
    }
}

/// Named places whose tiles can be asked for without giving coordinates.
#[derive(Debug, Clone, Copy, PartialEq, Eq, Structural)]
pub enum PredefinedLocation {
    TokyoStation,
    MtFuji,
}

impl PredefinedLocation {
    pub fn coordinates(&self) -> (r: LatLon)
        ensures
            *self == PredefinedLocation::TokyoStation ==> r.lat_e6 == TOKYO_STATION_LAT_E6
                && r.lon_e6 == TOKYO_STATION_LON_E6,
            *self == PredefinedLocation::MtFuji ==> r.lat_e6 == MT_FUJI_LAT_E6 && r.lon_e6
                == MT_FUJI_LON_E6,
    {
        match self {
            PredefinedLocation::TokyoStation => LatLon::new(
                TOKYO_STATION_LAT_E6,
                TOKYO_STATION_LON_E6,
            ),
            PredefinedLocation::MtFuji => LatLon::new(MT_FUJI_LAT_E6, MT_FUJI_LON_E6),
        }
    }
}

} // verus!
