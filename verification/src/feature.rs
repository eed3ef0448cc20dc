use vstd::prelude::*;

use crate::commands::{parse_commands, spec_parse_commands, Command};
use crate::error::DecodeError;
use crate::geometry::{
    assemble_geometry, geometry_res_model, spec_assemble_geometry, Geometry, GeometryModel,
};
use crate::geometry_type::GeometryType;
use crate::props::{keys_model, resolve_tags, spec_resolve_tags, vals_model, Properties};
use crate::tiles;
use crate::value::ValueModel;

verus! {

/// The raw feature representation: the wire feature's fields copied as
/// they stand, with no tag resolution and no geometry decode.
#[derive(Debug)]
pub struct FeatureWithJson {
    pub id: u64,
    pub tags: Vec<u32>,
    pub geom_type: GeometryType,
    pub geometry: Vec<u32>,
}

impl FeatureWithJson {
    /// Copies the wire feature unchanged.
    pub fn new(feature: &tiles::Feature) -> (r: FeatureWithJson)
        ensures
            r.id == feature.id,
            r.tags@ == feature.tags@,
            r.geom_type == feature.geom_type,
            r.geometry@ == feature.geometry@,
    {
        let tags = feature.tags.clone();
        let geometry = feature.geometry.clone();
        proof {
            assert(tags@ =~= feature.tags@);
            assert(geometry@ =~= feature.geometry@);
        }
        FeatureWithJson { id: feature.id, tags, geom_type: feature.geom_type, geometry }
    }
}

/// The resolved feature representation: properties resolved against the
/// layer dictionaries and the command stream decoded, geometry not yet
/// assembled.
#[derive(Debug)]
pub struct FeatureWithCommands {
    id: u64,
    properties: Properties,
    commands: Vec<Command>,
    geom_type: GeometryType,
}

/// The mathematical shape of a [`FeatureWithCommands`].
pub struct FeatureWithCommandsModel {
    pub id: u64,
    pub properties: Map<Seq<char>, ValueModel>,
    pub commands: Seq<Command>,
    pub geom_type: GeometryType,
}

impl View for FeatureWithCommands {
    type V = FeatureWithCommandsModel;

    closed spec fn view(&self) -> FeatureWithCommandsModel {
        FeatureWithCommandsModel {
            id: self.id,
            properties: self.properties@,
            commands: self.commands@,
            geom_type: self.geom_type,
        }
    }
}

/// The outcome of resolving a feature's tags and decoding its command
/// stream, in that order: the first failing stage names the error.
pub open spec fn spec_feature_commands(
    ftags: Seq<u32>,
    fgeom: Seq<u32>,
    keys: Seq<Seq<char>>,
    vals: Seq<ValueModel>,
) -> Result<(Map<Seq<char>, ValueModel>, Seq<Command>), DecodeError> {
    match spec_resolve_tags(ftags, keys, vals) {
        Err(e) => Err(e),
        Ok(props) => match spec_parse_commands(fgeom) {
            None => Err(DecodeError::MalformedCommandStream),
            Some(cmds) => Ok((props, cmds)),
        },
    }
}

impl FeatureWithCommands {
    /// The property store keeps each key once.
    pub closed spec fn wf(&self) -> bool {
        self.properties.wf()
    }

    /// Resolves a wire feature against its layer's completed key and
    /// value dictionaries and decodes its command stream.
    pub fn new(feature: &tiles::Feature, keys: &Vec<String>, values: &Vec<crate::Value>) -> (r:
        Result<FeatureWithCommands, DecodeError>)
        ensures
            match r {
                Ok(f) => f.wf() && f@.id == feature.id && f@.geom_type == feature.geom_type
                    && spec_feature_commands(
                    feature.tags@,
                    feature.geometry@,
                    keys_model(keys@),
                    vals_model(values@),
                ) == Ok::<_, DecodeError>((f@.properties, f@.commands)),
                Err(e) => spec_feature_commands(
                    feature.tags@,
                    feature.geometry@,
                    keys_model(keys@),
                    vals_model(values@),
                ) is Err && spec_feature_commands(
                    feature.tags@,
                    feature.geometry@,
                    keys_model(keys@),
                    vals_model(values@),
                )->Err_0 == e,
            },
    {
        let properties = match resolve_tags(&feature.tags, keys, values) {
            Ok(p) => p,
            Err(e) => {
                return Err(e);
            },
        };
        let commands = match parse_commands(&feature.geometry) {
            Ok(c) => c,
            Err(e) => {
                return Err(e);
            },
        };
        Ok(
            FeatureWithCommands {
                id: feature.id,
                properties,
                commands,
                geom_type: feature.geom_type,
            },
        )
    }

    /// The feature's identifier.
    pub fn id(&self) -> (r: u64)
        ensures
            r == self@.id,
    {
        self.id
    }

    /// The feature's resolved properties.
    pub fn properties(&self) -> (r: &Properties)
        ensures
            r@ == self@.properties,
            self.wf() ==> r.wf(),
    {
        &self.properties
    }

    /// The feature's decoded drawing commands.
    pub fn commands(&self) -> (r: &Vec<Command>)
        ensures
            r@ == self@.commands,
    {
        &self.commands
    }

    /// The feature's declared geometry type.
    pub fn geom_type(&self) -> (r: GeometryType)
        ensures
            r == self@.geom_type,
    {
        self.geom_type
    }
}

/// The assembled feature representation: properties resolved and the
/// command stream run through geometry assembly.
#[derive(Debug)]
pub struct FeatureWithCoordinates {
    id: u64,
    properties: Properties,
    geometry: Geometry,
}

/// The mathematical shape of a [`FeatureWithCoordinates`].
pub struct FeatureWithCoordinatesModel {
    pub id: u64,
    pub properties: Map<Seq<char>, ValueModel>,
    pub geometry: GeometryModel,
}

impl View for FeatureWithCoordinates {
    type V = FeatureWithCoordinatesModel;

    closed spec fn view(&self) -> FeatureWithCoordinatesModel {
        FeatureWithCoordinatesModel {
            id: self.id,
            properties: self.properties@,
            geometry: self.geometry@,
        }
    }
}

/// The outcome of running the whole pipeline for one feature: tag
/// resolution, command decode, then geometry assembly under the
/// feature's declared type; the first failing stage names the error.
pub open spec fn spec_feature_coordinates(
    ftags: Seq<u32>,
    fgeom: Seq<u32>,
    keys: Seq<Seq<char>>,
    vals: Seq<ValueModel>,
    gt: GeometryType,
) -> Result<(Map<Seq<char>, ValueModel>, GeometryModel), DecodeError> {
    match spec_feature_commands(ftags, fgeom, keys, vals) {
        Err(e) => Err(e),
        Ok((props, cmds)) => match spec_assemble_geometry(cmds, gt) {
            Err(e) => Err(e),
            Ok(g) => Ok((props, g)),
        },
    }
}

impl FeatureWithCoordinates {
    /// The property store keeps each key once.
    pub closed spec fn wf(&self) -> bool {
        self.properties.wf()
    }

    /// Runs the whole decode pipeline for one wire feature.
    pub fn new(feature: &tiles::Feature, keys: &Vec<String>, values: &Vec<crate::Value>) -> (r:
        Result<FeatureWithCoordinates, DecodeError>)
        ensures
            match r {
                Ok(f) => f.wf() && f@.id == feature.id && spec_feature_coordinates(
                    feature.tags@,
                    feature.geometry@,
                    keys_model(keys@),
                    vals_model(values@),
                    feature.geom_type,
                ) == Ok::<_, DecodeError>((f@.properties, f@.geometry)),
                Err(e) => spec_feature_coordinates(
                    feature.tags@,
                    feature.geometry@,
                    keys_model(keys@),
                    vals_model(values@),
                    feature.geom_type,
                ) is Err && spec_feature_coordinates(
                    feature.tags@,
                    feature.geometry@,
                    keys_model(keys@),
                    vals_model(values@),
                    feature.geom_type,
                )->Err_0 == e,
            },
    {
        let with_commands = match FeatureWithCommands::new(feature, keys, values) {
            Ok(f) => f,
            Err(e) => {
                return Err(e);
            },
        };
        let geometry = match assemble_geometry(&with_commands.commands, with_commands.geom_type) {
            Ok(g) => g,
            Err(e) => {
                return Err(e);
            },
        };
        Ok(
            FeatureWithCoordinates {
                id: with_commands.id,
                properties: with_commands.properties,
                geometry,
            },
        )
    }

    /// The feature's identifier.
    pub fn id(&self) -> (r: u64)
        ensures
            r == self@.id,
    {
        self.id
    }

    /// The feature's resolved properties.
    pub fn properties(&self) -> (r: &Properties)
        ensures
            r@ == self@.properties,
            self.wf() ==> r.wf(),
    {
        &self.properties
    }

    /// The feature's assembled geometry.
    pub fn geometry(&self) -> (r: &Geometry)
        ensures
            r@ == self@.geometry,
    {
        &self.geometry
    }
}

} // verus!
