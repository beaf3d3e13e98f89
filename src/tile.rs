use vstd::prelude::*;

use crate::attributes::{
    keys_distinct, keys_view, property_map, resolve_properties, resolve_tags, values_view,
    Property, TileValue,
};
use crate::extent::DEFAULT_EXTENT;
use crate::geometry::{
    decode_geometry, geom_type_from_code, geom_type_of, geometry_model, Coordinates, GeomType,
};

verus! {

/// A feature as the wire format holds it.
#[derive(Debug, Clone, PartialEq, Default)]
pub struct FeatureMessage {
    pub id: Option<u64>,
    /// The geometry type code, if the feature gives one.
    pub geom_type: Option<i32>,
    /// Key-index / value-index pairs into the layer's dictionaries.
    pub tags: Vec<u32>,
    /// The geometry command stream.
    pub geometry: Vec<u32>,
}

/// A layer as the wire format holds it.
#[derive(Debug, Clone, PartialEq, Default)]
pub struct LayerMessage {
    pub name: String,
    pub extent: Option<u32>,
    pub version: u32,
    pub keys: Vec<String>,
    pub values: Vec<TileValue>,
    pub features: Vec<FeatureMessage>,
}

/// A tile as the wire format holds it.
#[derive(Debug, Clone, PartialEq, Default)]
pub struct TileMessage {
    pub layers: Vec<LayerMessage>,
}

/// A decoded geometry: its type and its coordinates.
#[derive(Debug, PartialEq)]
pub struct GeoJsonGeometry {
    pub geom_type: GeomType,
    pub coordinates: Coordinates,
}

/// A decoded feature.
#[derive(Debug, PartialEq)]
pub struct GeoJsonFeature {
    pub id: Option<u64>,
    pub geometry: GeoJsonGeometry,
    /// Resolved properties, one entry per key.
    pub properties: Vec<Property>,
}

/// A decoded layer.
#[derive(Debug, PartialEq)]
pub struct Layer {
    pub name: String,
    pub extent: u32,
    pub version: u32,
    pub features: Vec<GeoJsonFeature>,
}

/// A decoded tile.
#[derive(Debug, PartialEq)]
pub struct TileData {
    pub layers: Vec<Layer>,
}

/// The extent a layer uses: its own, or the default.
pub open spec fn extent_of(e: Option<u32>) -> u32 {
    match e {
        Some(v) => v,
        None => DEFAULT_EXTENT,
    }
}

/// `o` is the decoding of feature `f` of a layer with dictionaries `keys` and
/// `values`.
pub open spec fn feature_decoded(
    keys: Seq<String>,
    values: Seq<TileValue>,
    f: FeatureMessage,
    o: GeoJsonFeature,
) -> bool {
    let t = geom_type_of(f.geom_type);
    &&& o.id == f.id
    &&& o.geometry.geom_type == t
    &&& o.geometry.coordinates@ == geometry_model(f.geometry@, t)
    &&& keys_distinct(o.properties@)
    &&& property_map(o.properties@) == resolve_tags(f.tags@, keys_view(keys), values_view(values))
}

/// `o` is the decoding of layer `l`: same name and version, the layer's
/// extent, and its features decoded in order.
pub open spec fn layer_decoded(l: LayerMessage, o: Layer) -> bool {
    &&& o.name@ == l.name@
    &&& o.extent == extent_of(l.extent)
    &&& o.version == l.version
    &&& o.features.len() == l.features.len()
    &&& forall|j: int|
        0 <= j < l.features.len() ==> #[trigger] feature_decoded(
            l.keys@,
            l.values@,
            l.features@[j],
            o.features@[j],
        )
}

/// `o` is the decoding of tile `t`: its layers decoded in order.
pub open spec fn tile_decoded(t: TileMessage, o: TileData) -> bool {
    &&& o.layers.len() == t.layers.len()
    &&& forall|i: int| 0 <= i < t.layers.len() ==> #[trigger] layer_decoded(t.layers@[i], o.layers@[i])
}

/// Decodes one feature against its layer's dictionaries.
pub fn decode_feature(layer: &LayerMessage, feature: &FeatureMessage) -> (r: GeoJsonFeature)
    ensures
        feature_decoded(layer.keys@, layer.values@, *feature, r),
{
    let geom_type = geom_type_from_code(feature.geom_type);
    let coordinates = decode_geometry(feature.geometry.as_slice(), geom_type);
    let properties = resolve_properties(feature.tags.as_slice(), &layer.keys, &layer.values);
    GeoJsonFeature { id: feature.id, geometry: GeoJsonGeometry { geom_type, coordinates }, properties }
}

/// Decodes one layer: its extent (or the default), its version, and each
/// feature in order.
pub fn decode_layer(layer: &LayerMessage) -> (r: Layer)
    ensures
        layer_decoded(*layer, r),
{
    let extent = match layer.extent {
        Some(v) => v,
        None => DEFAULT_EXTENT,
    };
    let mut features: Vec<GeoJsonFeature> = Vec::new();
    let mut j: usize = 0;
    while j < layer.features.len()
        invariant
            j <= layer.features.len(),
            features.len() == j,
            forall|k: int|
                0 <= k < j ==> #[trigger] feature_decoded(
                    layer.keys@,
                    layer.values@,
                    layer.features@[k],
                    features@[k],
                ),
        decreases layer.features.len() - j,
    {
        let f = decode_feature(layer, &layer.features[j]);
        features.push(f);
        j = j + 1;
    }
    Layer { name: layer.name.clone(), extent, version: layer.version, features }
}

/// Decodes a whole tile, layer by layer in order. Nothing inside a tile makes
/// the decoding fail.
pub fn decode_tile(tile: &TileMessage) -> (r: TileData)
    ensures
        tile_decoded(*tile, r),
{
    let mut layers: Vec<Layer> = Vec::new();
    let mut i: usize = 0;
    while i < tile.layers.len()
        invariant
            i <= tile.layers.len(),
            layers.len() == i,
            forall|k: int| 0 <= k < i ==> #[trigger] layer_decoded(tile.layers@[k], layers@[k]),
        decreases tile.layers.len() - i,
    {
        let l = decode_layer(&tile.layers[i]);
        layers.push(l);
        i = i + 1;
    }
    TileData { layers }
}

/// Two decoded features carry the same id, geometry and property mapping.
pub open spec fn features_agree(a: GeoJsonFeature, b: GeoJsonFeature) -> bool {
    &&& a.id == b.id
    &&& a.geometry.geom_type == b.geometry.geom_type
    &&& a.geometry.coordinates@ == b.geometry.coordinates@
    &&& property_map(a.properties@) == property_map(b.properties@)
}

/// Two decoded layers carry the same name, extent, version and features.
pub open spec fn layers_agree(a: Layer, b: Layer) -> bool {
    &&& a.name@ == b.name@
    &&& a.extent == b.extent
    &&& a.version == b.version
    &&& a.features.len() == b.features.len()
    &&& forall|j: int|
        0 <= j < a.features.len() ==> #[trigger] features_agree(a.features@[j], b.features@[j])
}

/// Two decoded tiles carry the same layers.
pub open spec fn documents_agree(a: TileData, b: TileData) -> bool {
    &&& a.layers.len() == b.layers.len()
    &&& forall|i: int| 0 <= i < a.layers.len() ==> #[trigger] layers_agree(a.layers@[i], b.layers@[i])
}

/// Decoding is a function of the tile: any two decodings of one tile agree.
pub proof fn lemma_decode_deterministic(t: TileMessage, a: TileData, b: TileData)
    requires
        tile_decoded(t, a),
        tile_decoded(t, b),
    ensures
        documents_agree(a, b),
{
    assert forall|i: int| 0 <= i < a.layers.len() implies #[trigger] layers_agree(
        a.layers@[i],
        b.layers@[i],
    ) by {
        let l = t.layers@[i];
        assert(layer_decoded(l, a.layers@[i]));
        assert(layer_decoded(l, b.layers@[i]));
        assert forall|j: int| 0 <= j < a.layers@[i].features.len() implies #[trigger] features_agree(
            a.layers@[i].features@[j],
            b.layers@[i].features@[j],
        ) by {
            assert(feature_decoded(l.keys@, l.values@, l.features@[j], a.layers@[i].features@[j]));
            assert(feature_decoded(l.keys@, l.values@, l.features@[j], b.layers@[i].features@[j]));
        }
    }
}

} // verus!
