//! Decoder for Mapbox vector tiles (MVT).
//!
//! A tile is an ordered collection of layers; a layer carries key/value
//! dictionaries and a list of features; a feature carries raw tag indices
//! and a packed integer command stream describing its geometry.  The
//! decoder resolves tags against the layer dictionaries, interprets the
//! command stream into drawing commands, and assembles point, line string
//! and polygon geometries with winding-based ring classification.
//!
//! Every malformed input is reported as a typed [`DecodeError`]; no input
//! can make a decode panic.

mod commands;
pub mod decoded;
mod error;
mod feature;
mod geometry;
mod geometry_type;
mod layer;
mod props;
mod tile;
pub mod tiles;
mod utils;
mod value;

pub use commands::Command;
pub use error::DecodeError;
pub use feature::{FeatureWithCommands, FeatureWithCoordinates, FeatureWithJson};
pub use geometry::{
    lemma_polygon_hole_classification, lemma_polygon_interior_first_rejected, Geometry, Polygon,
    Ring,
};
pub use geometry_type::GeometryType;
pub use layer::Layer;
pub use props::Properties;
pub use tile::Tile;
pub use utils::{
    decode_zigzag, encode_zigzag, lemma_shoelace_reverse_negates,
    lemma_shoelace_translation_invariant, lemma_zigzag_roundtrip, signed_area,
};
pub use value::{lemma_value_decode_single_field, Value};
