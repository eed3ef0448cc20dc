use vstd::prelude::*;

use crate::error::DecodeError;
use crate::feature::{FeatureWithCommands, FeatureWithCoordinates, FeatureWithJson};
use crate::layer::{
    layer_commands_decodes, layer_commands_first_err, layer_commands_ok, layer_coordinates_decodes,
    layer_coordinates_first_err, layer_coordinates_ok, layer_json_ok, Layer,
};
use crate::tiles;

verus! {

/// One decoded tile: its layers in source order, generic over the
/// feature representation the caller selected.
#[derive(Debug)]
pub struct Tile<F> {
    pub layers: Vec<Layer<F>>,
}

impl Tile<FeatureWithJson> {
    /// Decodes a wire tile into the raw feature representation.
    pub fn new(tile: &tiles::Tile) -> (r: Tile<FeatureWithJson>)
        ensures
            r.layers@.len() == tile.layers@.len(),
            forall|i: int|
                0 <= i < tile.layers@.len() ==> layer_json_ok(
                    #[trigger] r.layers@[i],
                    tile.layers@[i],
                ),
    {
        let n = tile.layers.len();
        let mut layers: Vec<Layer<FeatureWithJson>> = Vec::new();
        let mut i: usize = 0;
        while i < n
            invariant
                n == tile.layers@.len(),
                0 <= i <= n,
                layers@.len() == i,
                forall|j: int|
                    0 <= j < i ==> layer_json_ok(#[trigger] layers@[j], tile.layers@[j]),
            decreases n - i,
        {
            layers.push(Layer::<FeatureWithJson>::new(&tile.layers[i]));
            i = i + 1;
        }
        Tile { layers }
    }
}

impl Tile<FeatureWithCommands> {
    /// Decodes a wire tile into the resolved feature representation,
    /// layer by layer in source order; the first failing layer's error
    /// is reported.
    pub fn new(tile: &tiles::Tile) -> (r: Result<Tile<FeatureWithCommands>, DecodeError>)
        ensures
            match r {
                Ok(t) => t.layers@.len() == tile.layers@.len() && forall|i: int|
                    0 <= i < tile.layers@.len() ==> layer_commands_ok(
                        #[trigger] t.layers@[i],
                        tile.layers@[i],
                    ),
                Err(e) => exists|i: int|
                    0 <= i < tile.layers@.len() && layer_commands_first_err(
                        #[trigger] tile.layers@[i],
                        e,
                    ) && forall|j: int| 0 <= j < i ==> layer_commands_decodes(tile.layers@[j]),
            },
    {
        let n = tile.layers.len();
        let mut layers: Vec<Layer<FeatureWithCommands>> = Vec::new();
        let mut i: usize = 0;
        while i < n
            invariant
                n == tile.layers@.len(),
                0 <= i <= n,
                layers@.len() == i,
                forall|j: int|
                    0 <= j < i ==> layer_commands_ok(#[trigger] layers@[j], tile.layers@[j]),
            decreases n - i,
        {
            match Layer::<FeatureWithCommands>::new(&tile.layers[i]) {
                Ok(l) => {
                    layers.push(l);
                },
                Err(e) => {
                    proof {
                        assert forall|j: int| 0 <= j < i implies layer_commands_decodes(
                            #[trigger] tile.layers@[j],
                        ) by {
                            crate::layer::lemma_layer_commands_ok_decodes(
                                layers@[j],
                                tile.layers@[j],
                            );
                        }
                    }
                    return Err(e);
                },
            }
            i = i + 1;
        }
        Ok(Tile { layers })
    }
}

impl Tile<FeatureWithCoordinates> {
    /// Decodes a wire tile into the assembled feature representation,
    /// layer by layer in source order; the first failing layer's error
    /// is reported.
    pub fn new(tile: &tiles::Tile) -> (r: Result<Tile<FeatureWithCoordinates>, DecodeError>)
        ensures
            match r {
                Ok(t) => t.layers@.len() == tile.layers@.len() && forall|i: int|
                    0 <= i < tile.layers@.len() ==> layer_coordinates_ok(
                        #[trigger] t.layers@[i],
                        tile.layers@[i],
                    ),
                Err(e) => exists|i: int|
                    0 <= i < tile.layers@.len() && layer_coordinates_first_err(
                        #[trigger] tile.layers@[i],
                        e,
                    ) && forall|j: int| 0 <= j < i ==> layer_coordinates_decodes(tile.layers@[j]),
            },
    {
        let n = tile.layers.len();
        let mut layers: Vec<Layer<FeatureWithCoordinates>> = Vec::new();
        let mut i: usize = 0;
        while i < n
            invariant
                n == tile.layers@.len(),
                0 <= i <= n,
                layers@.len() == i,
                forall|j: int|
                    0 <= j < i ==> layer_coordinates_ok(#[trigger] layers@[j], tile.layers@[j]),
            decreases n - i,
        {
            match Layer::<FeatureWithCoordinates>::new(&tile.layers[i]) {
                Ok(l) => {
                    layers.push(l);
                },
                Err(e) => {
                    proof {
                        assert forall|j: int| 0 <= j < i implies layer_coordinates_decodes(
                            #[trigger] tile.layers@[j],
                        ) by {
                            crate::layer::lemma_layer_coordinates_ok_decodes(
                                layers@[j],
                                tile.layers@[j],
                            );
                        }
                    }
                    return Err(e);
                },
            }
            i = i + 1;
        }
        Ok(Tile { layers })
    }
}

impl<F> Tile<F> {
    /// Finds the first layer with the given name, scanning in source
    /// order, so duplicate names resolve to the first occurrence.
    pub fn get_layer(&self, name: &String) -> (r: Option<&Layer<F>>)
        ensures
            match r {
                Some(l) => exists|i: int|
                    0 <= i < self.layers@.len() && *l == #[trigger] self.layers@[i]
                        && self.layers@[i].name@ == name@ && forall|j: int|
                        0 <= j < i ==> (#[trigger] self.layers@[j]).name@ != name@,
                None => forall|i: int|
                    0 <= i < self.layers@.len() ==> (#[trigger] self.layers@[i]).name@ != name@,
            },
    {
        let n = self.layers.len();
        let mut i: usize = 0;
        while i < n
            invariant
                n == self.layers@.len(),
                0 <= i <= n,
                forall|j: int| 0 <= j < i ==> (#[trigger] self.layers@[j]).name@ != name@,
            decreases n - i,
        {
            if self.layers[i].name == *name {
                return Some(&self.layers[i]);
            }
            i = i + 1;
        }
        None
    }
}

} // verus!
