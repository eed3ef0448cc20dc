use vstd::prelude::*;

use crate::geometry_type::GeometryType;

verus! {

/// One attribute value as it stands on the wire: up to seven optional
/// scalar fields, of which a well-formed producer sets at most one.
///
/// The two floating-point fields are carried as their raw bit patterns
/// (32 and 64 bits wide); the decoder never reads them numerically, it
/// only moves them into the chosen [`crate::Value`] variant.
pub struct ValueRecord {
    pub string_value: Option<String>,
    pub float_value: Option<u32>,
    pub double_value: Option<u64>,
    pub int_value: Option<i64>,
    pub uint_value: Option<u64>,
    pub sint_value: Option<i64>,
    pub bool_value: Option<bool>,
}

impl Default for ValueRecord {
    /// A record with no field set; it decodes to the empty string value.
    fn default() -> (r: Self)
        ensures
            r.string_value is None,
            r.float_value is None,
            r.double_value is None,
            r.int_value is None,
            r.uint_value is None,
            r.sint_value is None,
            r.bool_value is None,
    {
        ValueRecord {
            string_value: None,
            float_value: None,
            double_value: None,
            int_value: None,
            uint_value: None,
            sint_value: None,
            bool_value: None,
        }
    }
}

/// One feature as it stands on the wire: raw tag index pairs and the
/// packed geometry command stream, still undecoded.
pub struct Feature {
    pub id: u64,
    pub tags: Vec<u32>,
    pub geom_type: GeometryType,
    pub geometry: Vec<u32>,
}

/// One layer as it stands on the wire.  `extent` is `None` where the
/// producer omitted it; decoding applies the default of 4096.
pub struct Layer {
    pub version: u32,
    pub name: String,
    pub keys: Vec<String>,
    pub values: Vec<ValueRecord>,
    pub features: Vec<Feature>,
    pub extent: Option<u32>,
}

/// One tile as it stands on the wire: an ordered sequence of layers.
pub struct Tile {
    pub layers: Vec<Layer>,
}

} // verus!
