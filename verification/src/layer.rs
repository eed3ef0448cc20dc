use vstd::prelude::*;

use crate::error::DecodeError;
use crate::feature::{
    spec_feature_commands, spec_feature_coordinates, FeatureWithCommands, FeatureWithCoordinates,
    FeatureWithJson,
};
use crate::props::{keys_model, vals_model};
use crate::tiles;
use crate::value::{spec_decode_value, Value, ValueModel};

verus! {

/// The coordinate-space size a layer uses when the wire record omits
/// its extent.
pub const DEFAULT_EXTENT: u32 = 4096;

/// One decoded layer, generic over the feature representation the
/// caller selected.  The key and value dictionaries are fully built
/// before any feature is resolved against them.
#[derive(Debug)]
pub struct Layer<F> {
    pub version: u32,
    pub name: String,
    pub features: Vec<F>,
    pub keys: Vec<String>,
    pub values: Vec<Value>,
    pub extent: u32,
}

/// The values a wire layer's records decode to, in order.
pub open spec fn values_spec(records: Seq<tiles::ValueRecord>) -> Seq<ValueModel> {
    records.map_values(|rec: tiles::ValueRecord| spec_decode_value(rec))
}

/// The extent a wire layer decodes to: the stated one, or the default.
pub open spec fn extent_spec(e: Option<u32>) -> u32 {
    match e {
        Some(v) => v,
        None => DEFAULT_EXTENT,
    }
}

/// The field conditions every decoded layer meets against its wire
/// layer, whatever the feature representation.
pub open spec fn layer_fields_ok<F>(l: Layer<F>, w: tiles::Layer) -> bool {
    &&& l.version == w.version
    &&& l.name@ == w.name@
    &&& l.keys@ == w.keys@
    &&& vals_model(l.values@) == values_spec(w.values@)
    &&& l.extent == extent_spec(w.extent)
    &&& l.features@.len() == w.features@.len()
}

/// How one raw feature relates to its wire feature.
pub open spec fn feature_json_ok(f: FeatureWithJson, w: tiles::Feature) -> bool {
    &&& f.id == w.id
    &&& f.tags@ == w.tags@
    &&& f.geom_type == w.geom_type
    &&& f.geometry@ == w.geometry@
}

/// How a whole raw-representation layer relates to its wire layer.
pub open spec fn layer_json_ok(l: Layer<FeatureWithJson>, w: tiles::Layer) -> bool {
    &&& layer_fields_ok(l, w)
    &&& forall|i: int|
        0 <= i < w.features@.len() ==> feature_json_ok(#[trigger] l.features@[i], w.features@[i])
}

/// The outcome of the resolved-representation pipeline for feature `i`
/// of a wire layer, against that layer's decoded dictionaries.
pub open spec fn feature_commands_res(w: tiles::Layer, i: int) -> Result<
    (Map<Seq<char>, ValueModel>, Seq<crate::Command>),
    DecodeError,
> {
    spec_feature_commands(
        w.features@[i].tags@,
        w.features@[i].geometry@,
        keys_model(w.keys@),
        values_spec(w.values@),
    )
}

/// How one resolved feature relates to feature `i` of its wire layer.
pub open spec fn feature_commands_ok(f: FeatureWithCommands, w: tiles::Layer, i: int) -> bool {
    &&& f.wf()
    &&& f@.id == w.features@[i].id
    &&& f@.geom_type == w.features@[i].geom_type
    &&& feature_commands_res(w, i) == Ok::<_, DecodeError>((f@.properties, f@.commands))
}

/// How a whole resolved-representation layer relates to its wire layer.
pub open spec fn layer_commands_ok(l: Layer<FeatureWithCommands>, w: tiles::Layer) -> bool {
    &&& layer_fields_ok(l, w)
    &&& forall|i: int|
        0 <= i < w.features@.len() ==> feature_commands_ok(#[trigger] l.features@[i], w, i)
}

/// Whether every feature of a wire layer passes the resolved pipeline.
pub open spec fn layer_commands_decodes(w: tiles::Layer) -> bool {
    forall|k: int|
        0 <= k < w.features@.len() ==> !((#[trigger] feature_commands_res(w, k)) is Err)
}

/// The error the resolved pipeline reports for a wire layer: the error
/// of its first failing feature.
pub open spec fn layer_commands_first_err(w: tiles::Layer, e: DecodeError) -> bool {
    exists|i: int|
        0 <= i < w.features@.len() && (#[trigger] feature_commands_res(w, i)) == Err::<
            (Map<Seq<char>, ValueModel>, Seq<crate::Command>),
            _,
        >(e) && forall|j: int| 0 <= j < i ==> !((#[trigger] feature_commands_res(w, j)) is Err)
}

/// The outcome of the assembled-representation pipeline for feature `i`
/// of a wire layer.
pub open spec fn feature_coordinates_res(w: tiles::Layer, i: int) -> Result<
    (Map<Seq<char>, ValueModel>, crate::geometry::GeometryModel),
    DecodeError,
> {
    spec_feature_coordinates(
        w.features@[i].tags@,
        w.features@[i].geometry@,
        keys_model(w.keys@),
        values_spec(w.values@),
        w.features@[i].geom_type,
    )
}

/// How one assembled feature relates to feature `i` of its wire layer.
pub open spec fn feature_coordinates_ok(
    f: FeatureWithCoordinates,
    w: tiles::Layer,
    i: int,
) -> bool {
    &&& f.wf()
    &&& f@.id == w.features@[i].id
    &&& feature_coordinates_res(w, i) == Ok::<_, DecodeError>((f@.properties, f@.geometry))
}

/// How a whole assembled-representation layer relates to its wire
/// layer.
pub open spec fn layer_coordinates_ok(l: Layer<FeatureWithCoordinates>, w: tiles::Layer) -> bool {
    &&& layer_fields_ok(l, w)
    &&& forall|i: int|
        0 <= i < w.features@.len() ==> feature_coordinates_ok(#[trigger] l.features@[i], w, i)
}

/// Whether every feature of a wire layer passes the assembled pipeline.
pub open spec fn layer_coordinates_decodes(w: tiles::Layer) -> bool {
    forall|k: int|
        0 <= k < w.features@.len() ==> !((#[trigger] feature_coordinates_res(w, k)) is Err)
}

/// The error the assembled pipeline reports for a wire layer: the error
/// of its first failing feature.
pub open spec fn layer_coordinates_first_err(w: tiles::Layer, e: DecodeError) -> bool {
    exists|i: int|
        0 <= i < w.features@.len() && (#[trigger] feature_coordinates_res(w, i)) == Err::<
            (Map<Seq<char>, ValueModel>, crate::geometry::GeometryModel),
            _,
        >(e) && forall|j: int| 0 <= j < i ==> !((#[trigger] feature_coordinates_res(w, j)) is Err)
}

/// A layer every feature of which matched the resolved pipeline has
/// no failing feature.
pub proof fn lemma_layer_commands_ok_decodes(l: Layer<FeatureWithCommands>, w: tiles::Layer)
    requires
        layer_commands_ok(l, w),
    ensures
        layer_commands_decodes(w),
{
    assert forall|k: int| 0 <= k < w.features@.len() implies !((#[trigger] feature_commands_res(
        w,
        k,
    )) is Err) by {
        assert(feature_commands_ok(l.features@[k], w, k));
    }
}

/// A layer every feature of which matched the assembled pipeline has
/// no failing feature.
pub proof fn lemma_layer_coordinates_ok_decodes(l: Layer<FeatureWithCoordinates>, w: tiles::Layer)
    requires
        layer_coordinates_ok(l, w),
    ensures
        layer_coordinates_decodes(w),
{
    assert forall|k: int| 0 <= k < w.features@.len() implies !((
    #[trigger] feature_coordinates_res(w, k)) is Err) by {
        assert(feature_coordinates_ok(l.features@[k], w, k));
    }
}

/// Decodes a wire layer's value records, in order, each by first-match
/// over its optional fields.
pub(crate) fn decode_values(records: &Vec<tiles::ValueRecord>) -> (r: Vec<Value>)
    ensures
        vals_model(r@) == values_spec(records@),
{
    let n = records.len();
    let mut out: Vec<Value> = Vec::new();
    let mut i: usize = 0;
    while i < n
        invariant
            n == records@.len(),
            0 <= i <= n,
            out@.len() == i,
            forall|j: int| 0 <= j < i ==> (#[trigger] out@[j])@ == spec_decode_value(records@[j]),
        decreases n - i,
    {
        out.push(Value::new(&records[i]));
        i = i + 1;
    }
    proof {
        assert(vals_model(out@) =~= values_spec(records@));
    }
    out
}

/// Clones a wire layer's shared dictionaries and fixed fields.
fn decode_common(layer: &tiles::Layer) -> (r: (String, Vec<String>, Vec<Value>, u32))
    ensures
        r.0@ == layer.name@,
        r.1@ == layer.keys@,
        vals_model(r.2@) == values_spec(layer.values@),
        r.3 == extent_spec(layer.extent),
{
    let name = layer.name.clone();
    let keys = layer.keys.clone();
    proof {
        assert(keys@ =~= layer.keys@);
    }
    let values = decode_values(&layer.values);
    let extent = match layer.extent {
        Some(v) => v,
        None => DEFAULT_EXTENT,
    };
    (name, keys, values, extent)
}

impl Layer<FeatureWithJson> {
    /// Decodes a wire layer into the raw feature representation; this
    /// representation cannot fail.
    pub fn new(layer: &tiles::Layer) -> (r: Layer<FeatureWithJson>)
        ensures
            layer_json_ok(r, *layer),
    {
        let (name, keys, values, extent) = decode_common(layer);
        let n = layer.features.len();
        let mut features: Vec<FeatureWithJson> = Vec::new();
        let mut i: usize = 0;
        while i < n
            invariant
                n == layer.features@.len(),
                0 <= i <= n,
                features@.len() == i,
                forall|j: int|
                    0 <= j < i ==> feature_json_ok(
                        #[trigger] features@[j],
                        layer.features@[j],
                    ),
            decreases n - i,
        {
            features.push(FeatureWithJson::new(&layer.features[i]));
            i = i + 1;
        }
        Layer { version: layer.version, name, features, keys, values, extent }
    }
}

impl Layer<FeatureWithCommands> {
    /// Decodes a wire layer into the resolved feature representation:
    /// dictionaries first, then each feature in source order; the first
    /// failing feature's error is reported.
    pub fn new(layer: &tiles::Layer) -> (r: Result<Layer<FeatureWithCommands>, DecodeError>)
        ensures
            match r {
                Ok(l) => layer_commands_ok(l, *layer),
                Err(e) => layer_commands_first_err(*layer, e),
            },
    {
        let (name, keys, values, extent) = decode_common(layer);
        let n = layer.features.len();
        let mut features: Vec<FeatureWithCommands> = Vec::new();
        let mut i: usize = 0;
        while i < n
            invariant
                n == layer.features@.len(),
                0 <= i <= n,
                keys@ == layer.keys@,
                vals_model(values@) == values_spec(layer.values@),
                features@.len() == i,
                forall|j: int|
                    0 <= j < i ==> feature_commands_ok(#[trigger] features@[j], *layer, j),
            decreases n - i,
        {
            match FeatureWithCommands::new(&layer.features[i], &keys, &values) {
                Ok(f) => {
                    features.push(f);
                },
                Err(e) => {
                    proof {
                        assert(feature_commands_res(*layer, i as int) == Err::<
                            (Map<Seq<char>, ValueModel>, Seq<crate::Command>),
                            _,
                        >(e));
                        assert forall|j: int| 0 <= j < i implies !((#[trigger] feature_commands_res(
                            *layer,
                            j,
                        )) is Err) by {
                            assert(feature_commands_ok(features@[j], *layer, j));
                        }
                    }
                    return Err(e);
                },
            }
            i = i + 1;
        }
        Ok(Layer { version: layer.version, name, features, keys, values, extent })
    }
}

impl Layer<FeatureWithCoordinates> {
    /// Decodes a wire layer into the assembled feature representation:
    /// dictionaries first, then each feature through the whole
    /// pipeline; the first failing feature's error is reported.
    pub fn new(layer: &tiles::Layer) -> (r: Result<Layer<FeatureWithCoordinates>, DecodeError>)
        ensures
            match r {
                Ok(l) => layer_coordinates_ok(l, *layer),
                Err(e) => layer_coordinates_first_err(*layer, e),
            },
    {
        let (name, keys, values, extent) = decode_common(layer);
        let n = layer.features.len();
        let mut features: Vec<FeatureWithCoordinates> = Vec::new();
        let mut i: usize = 0;
        while i < n
            invariant
                n == layer.features@.len(),
                0 <= i <= n,
                keys@ == layer.keys@,
                vals_model(values@) == values_spec(layer.values@),
                features@.len() == i,
                forall|j: int|
                    0 <= j < i ==> feature_coordinates_ok(#[trigger] features@[j], *layer, j),
            decreases n - i,
        {
            match FeatureWithCoordinates::new(&layer.features[i], &keys, &values) {
                Ok(f) => {
                    features.push(f);
                },
                Err(e) => {
                    proof {
                        assert(feature_coordinates_res(*layer, i as int) == Err::<
                            (Map<Seq<char>, ValueModel>, crate::geometry::GeometryModel),
                            _,
                        >(e));
                        assert forall|j: int| 0 <= j < i implies !((
                        #[trigger] feature_coordinates_res(*layer, j)) is Err) by {
                            assert(feature_coordinates_ok(features@[j], *layer, j));
                        }
                    }
                    return Err(e);
                },
            }
            i = i + 1;
        }
        Ok(Layer { version: layer.version, name, features, keys, values, extent })
    }
}

} // verus!
