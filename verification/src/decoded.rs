use vstd::prelude::*;

use crate::commands;
use crate::commands::{block_prefix, opt_cat, spec_parse_commands};
use crate::error::DecodeError;
use crate::geometry::{in_i64, rings_model};
use crate::geometry_type::GeometryType;
use crate::props::{keys_model, resolve_tags, spec_resolve_tags, vals_model, Properties};
use crate::tiles;
use crate::utils::{decode_zigzag, ring_model};
use crate::value::{Value, ValueModel};

verus! {

/// One drawing command in record form: its kind and the two decoded
/// deltas, which are zero for a ClosePath.
#[derive(Debug)]
pub struct Command {
    command_type: CommandType,
    x: i64,
    y: i64,
}

/// The kind of a drawing command record.
#[derive(Debug, Clone, Copy, PartialEq, Eq, Structural)]
pub enum CommandType {
    MoveTo,
    LineTo,
    ClosePath,
}

impl View for Command {
    type V = commands::Command;

    closed spec fn view(&self) -> commands::Command {
        match self.command_type {
            CommandType::MoveTo => commands::Command::MoveTo(self.x, self.y),
            CommandType::LineTo => commands::Command::LineTo(self.x, self.y),
            CommandType::ClosePath => commands::Command::ClosePath,
        }
    }
}

/// The commands a record list denotes.
pub open spec fn cmds_view(s: Seq<Command>) -> Seq<commands::Command> {
    s.map_values(|c: Command| c@)
}

/// The wire opcode of a command kind.
pub open spec fn ct_id(ct: CommandType) -> u32 {
    match ct {
        CommandType::MoveTo => 1,
        CommandType::LineTo => 2,
        CommandType::ClosePath => 7,
    }
}

/// The subpath lists a command sequence yields: a MoveTo starts a fresh
/// subpath at the moved cursor, a LineTo extends the current one, and a
/// ClosePath records the current subpath without clearing it.  A
/// trailing subpath never closed is dropped.
pub open spec fn spec_subpaths(
    cmds: Seq<commands::Command>,
    cx: int,
    cy: int,
    cur: Seq<(int, int)>,
    acc: Seq<Seq<(int, int)>>,
) -> Result<Seq<Seq<(int, int)>>, DecodeError>
    decreases cmds.len(),
{
    if cmds.len() == 0 {
        Ok(acc)
    } else {
        match cmds[0] {
            commands::Command::MoveTo(dx, dy) => {
                let nx = cx + dx;
                let ny = cy + dy;
                if !in_i64(nx) || !in_i64(ny) {
                    Err(DecodeError::CoordinateOverflow)
                } else {
                    spec_subpaths(cmds.skip(1), nx, ny, seq![(nx, ny)], acc)
                }
            },
            commands::Command::LineTo(dx, dy) => {
                let nx = cx + dx;
                let ny = cy + dy;
                if !in_i64(nx) || !in_i64(ny) {
                    Err(DecodeError::CoordinateOverflow)
                } else {
                    spec_subpaths(cmds.skip(1), nx, ny, cur.push((nx, ny)), acc)
                }
            },
            commands::Command::ClosePath => spec_subpaths(cmds.skip(1), cx, cy, cur, acc.push(cur)),
        }
    }
}

/// The outcome of the subpath pipeline for one feature: tag resolution,
/// command decode, then subpath integration; the first failing stage
/// names the error.
pub open spec fn spec_feature_decoded(
    ftags: Seq<u32>,
    fgeom: Seq<u32>,
    keys: Seq<Seq<char>>,
    vals: Seq<ValueModel>,
) -> Result<(Map<Seq<char>, ValueModel>, Seq<Seq<(int, int)>>), DecodeError> {
    match spec_resolve_tags(ftags, keys, vals) {
        Err(e) => Err(e),
        Ok(props) => match spec_parse_commands(fgeom) {
            None => Err(DecodeError::MalformedCommandStream),
            Some(cs) => match spec_subpaths(cs, 0, 0, Seq::empty(), Seq::empty()) {
                Err(e) => Err(e),
                Ok(subs) => Ok((props, subs)),
            },
        },
    }
}

/// One feature decoded to metadata and raw subpaths, without ring
/// classification.
#[derive(Debug)]
pub struct Feature {
    id: u64,
    metadata: Properties,
    geometry: Vec<Vec<[i64; 2]>>,
    geom_type: GeometryType,
}

/// The mathematical shape of a decoded [`Feature`].
pub struct FeatureModel {
    pub id: u64,
    pub metadata: Map<Seq<char>, ValueModel>,
    pub geometry: Seq<Seq<(int, int)>>,
    pub geom_type: GeometryType,
}

impl View for Feature {
    type V = FeatureModel;

    closed spec fn view(&self) -> FeatureModel {
        FeatureModel {
            id: self.id,
            metadata: self.metadata@,
            geometry: rings_model(self.geometry@),
            geom_type: self.geom_type,
        }
    }
}

/// Copies a point list, so a recorded subpath stays independent of the
/// one still being extended.
fn copy_ring(src: &Vec<[i64; 2]>) -> (r: Vec<[i64; 2]>)
    ensures
        r@ == src@,
{
    let n = src.len();
    let mut out: Vec<[i64; 2]> = Vec::new();
    let mut t: usize = 0;
    proof {
        assert(out@ =~= src@.subrange(0, 0));
    }
    while t < n
        invariant
            n == src@.len(),
            0 <= t <= n,
            out@ == src@.subrange(0, t as int),
        decreases n - t,
    {
        out.push(src[t]);
        proof {
            assert(out@ =~= src@.subrange(0, t as int + 1));
        }
        t = t + 1;
    }
    proof {
        assert(src@.subrange(0, n as int) =~= src@);
    }
    out
}

/// Reads `count` zigzag-encoded parameter pairs for one command block,
/// advancing the stream index, or reports a malformed stream when too
/// few parameters remain, leaving the index unchanged.
fn process_command(command_type: CommandType, count: u32, i: &mut usize, data: &Vec<u32>) -> (r:
    Result<Vec<Command>, DecodeError>)
    requires
        command_type == CommandType::MoveTo || command_type == CommandType::LineTo,
        *old(i) <= data@.len(),
    ensures
        match r {
            Ok(cmds) => *old(i) + 2 * count <= data@.len() && *final(i) == *old(i) + 2 * count
                && cmds_view(cmds@) == block_prefix(
                data@,
                *old(i) as int,
                ct_id(command_type),
                count as int,
            ),
            Err(e) => e == DecodeError::MalformedCommandStream && *old(i) + 2 * count
                > data@.len() && *final(i) == *old(i),
        },
{
    let ghost i0 = *i as int;
    let cnt = count as usize;
    if (data.len() - *i) / 2 < cnt {
        return Err(DecodeError::MalformedCommandStream);
    }
    let len = data.len();
    let mut out: Vec<Command> = Vec::new();
    let mut k: usize = 0;
    proof {
        assert(cmds_view(out@) =~= block_prefix(data@, i0, ct_id(command_type), 0));
    }
    while k < cnt
        invariant
            command_type == CommandType::MoveTo || command_type == CommandType::LineTo,
            0 <= k <= cnt,
            len == data@.len(),
            i0 + 2 * cnt <= data@.len(),
            *i == i0 + 2 * k,
            cmds_view(out@) == block_prefix(data@, i0, ct_id(command_type), k as int),
        decreases cnt - k,
    {
        let ghost out0 = out@;
        let x = data[*i];
        *i = *i + 1;
        let y = data[*i];
        *i = *i + 1;
        out.push(Command { command_type, x: decode_zigzag(x), y: decode_zigzag(y) });
        k = k + 1;
        proof {
            assert(out@.last()@ == commands::pair_command(
                ct_id(command_type),
                data@[i0 + 2 * (k - 1)],
                data@[i0 + 2 * (k - 1) + 1],
            ));
            assert(cmds_view(out@) =~= cmds_view(out0).push(out@.last()@));
            assert(block_prefix(data@, i0, ct_id(command_type), k as int) =~= block_prefix(
                data@,
                i0,
                ct_id(command_type),
                k as int - 1,
            ).push(
                commands::pair_command(
                    ct_id(command_type),
                    data@[i0 + 2 * (k - 1)],
                    data@[i0 + 2 * (k - 1) + 1],
                ),
            ));
        }
    }
    Ok(out)
}

/// Interprets a packed geometry stream into command records.
fn parse_command_records(geometry: &Vec<u32>) -> (r: Result<Vec<Command>, DecodeError>)
    ensures
        match r {
            Ok(cmds) => spec_parse_commands(geometry@) == Some(cmds_view(cmds@)),
            Err(e) => e == DecodeError::MalformedCommandStream && spec_parse_commands(geometry@)
                is None,
        },
{
    let ghost g = geometry@;
    let n = geometry.len();
    let mut cmds: Vec<Command> = Vec::new();
    let mut i: usize = 0;
    proof {
        assert(g.skip(0) =~= g);
    }
    while i < n
        invariant
            n == g.len(),
            g == geometry@,
            0 <= i <= n,
            spec_parse_commands(g) == opt_cat(cmds_view(cmds@), spec_parse_commands(g.skip(i as int))),
        decreases n - i,
    {
        let ghost i0 = i as int;
        let ghost done0 = cmds_view(cmds@);
        let header = geometry[i];
        let command_id = header & 0x7;
        let count = header >> 3;
        i = i + 1;
        proof {
            assert(g.skip(i0)[0] == g[i0]);
            assert(g.skip(i0).len() == n - i0);
            assert(header >> 3 <= 0x1fff_ffff) by (bit_vector);
        }
        if command_id == 1 || command_id == 2 {
            let ct = if command_id == 1 {
                CommandType::MoveTo
            } else {
                CommandType::LineTo
            };
            let mut block = match process_command(ct, count, &mut i, geometry) {
                Ok(b) => b,
                Err(e) => {
                    proof {
                        assert(g.skip(i0).len() < 1 + 2 * (count as int));
                        assert(spec_parse_commands(g.skip(i0)) is None);
                    }
                    return Err(e);
                },
            };
            let ghost blockv = cmds_view(block@);
            cmds.append(&mut block);
            proof {
                let c = count as int;
                assert(cmds_view(cmds@) =~= done0 + blockv);
                assert(g.skip(i0).skip(1 + 2 * c) =~= g.skip(i0 + 1 + 2 * c));
                assert(block_prefix(g.skip(i0), 1, command_id, c) =~= block_prefix(
                    g,
                    i0 + 1,
                    command_id,
                    c,
                ));
                assert(spec_parse_commands(g) == opt_cat(
                    cmds_view(cmds@),
                    spec_parse_commands(g.skip(i as int)),
                )) by {
                    commands::lemma_opt_cat_assoc(
                        done0,
                        blockv,
                        spec_parse_commands(g.skip(i0 + 1 + 2 * c)),
                    );
                }
            }
        } else if command_id == 7 {
            cmds.push(Command { command_type: CommandType::ClosePath, x: 0, y: 0 });
            proof {
                assert(g.skip(i0).skip(1) =~= g.skip(i0 + 1));
                assert(cmds_view(cmds@) =~= done0 + seq![commands::Command::ClosePath]);
                assert(spec_parse_commands(g) == opt_cat(
                    cmds_view(cmds@),
                    spec_parse_commands(g.skip(i as int)),
                )) by {
                    commands::lemma_opt_cat_assoc(
                        done0,
                        seq![commands::Command::ClosePath],
                        spec_parse_commands(g.skip(i0 + 1)),
                    );
                }
            }
        } else {
            proof {
                assert(spec_parse_commands(g.skip(i0)) is None);
            }
            return Err(DecodeError::MalformedCommandStream);
        }
    }
    proof {
        assert(g.skip(n as int) =~= Seq::<u32>::empty());
        assert(cmds_view(cmds@) + Seq::<commands::Command>::empty() =~= cmds_view(cmds@));
    }
    Ok(cmds)
}

impl Feature {
    /// The metadata store keeps each key once.
    pub closed spec fn wf(&self) -> bool {
        self.metadata.wf()
    }

    /// Decodes one wire feature to metadata and raw subpaths against
    /// its layer's completed dictionaries.
    pub fn new(feature: &tiles::Feature, keys: &Vec<String>, values: &Vec<Value>) -> (r: Result<
        Feature,
        DecodeError,
    >)
        ensures
            match r {
                Ok(f) => f.wf() && f@.id == feature.id && f@.geom_type == feature.geom_type
                    && spec_feature_decoded(
                    feature.tags@,
                    feature.geometry@,
                    keys_model(keys@),
                    vals_model(values@),
                ) == Ok::<_, DecodeError>((f@.metadata, f@.geometry)),
                Err(e) => spec_feature_decoded(
                    feature.tags@,
                    feature.geometry@,
                    keys_model(keys@),
                    vals_model(values@),
                ) is Err && spec_feature_decoded(
                    feature.tags@,
                    feature.geometry@,
                    keys_model(keys@),
                    vals_model(values@),
                )->Err_0 == e,
            },
    {
        let metadata = match resolve_tags(&feature.tags, keys, values) {
            Ok(p) => p,
            Err(e) => {
                return Err(e);
            },
        };
        let cmds = match parse_command_records(&feature.geometry) {
            Ok(c) => c,
            Err(e) => {
                return Err(e);
            },
        };
        let ghost cv = cmds_view(cmds@);
        let m = cmds.len();
        let mut geometry: Vec<Vec<[i64; 2]>> = Vec::new();
        let mut element: Vec<[i64; 2]> = Vec::new();
        let mut current_x: i64 = 0;
        let mut current_y: i64 = 0;
        let mut j: usize = 0;
        proof {
            assert(cv.skip(0) =~= cv);
            assert(ring_model(element@) =~= Seq::<(int, int)>::empty());
            assert(rings_model(geometry@) =~= Seq::<Seq<(int, int)>>::empty());
        }
        while j < m
            invariant
                m == cmds@.len(),
                cv == cmds_view(cmds@),
                0 <= j <= m,
                metadata.wf(),
                spec_resolve_tags(feature.tags@, keys_model(keys@), vals_model(values@))
                    == Ok::<_, DecodeError>(metadata@),
                spec_parse_commands(feature.geometry@) == Some(cv),
                spec_subpaths(cv, 0, 0, Seq::empty(), Seq::empty()) == spec_subpaths(
                    cv.skip(j as int),
                    current_x as int,
                    current_y as int,
                    ring_model(element@),
                    rings_model(geometry@),
                ),
            decreases m - j,
        {
            let ghost j0 = j as int;
            proof {
                assert(cv.skip(j0)[0] == cv[j0]);
                assert(cv[j0] == cmds@[j0]@);
                assert(cv.skip(j0).skip(1) =~= cv.skip(j0 + 1));
            }
            let ct = cmds[j].command_type;
            let dx = cmds[j].x;
            let dy = cmds[j].y;
            match ct {
                CommandType::MoveTo => {
                    let nx = match current_x.checked_add(dx) {
                        Some(v) => v,
                        None => {
                            return Err(DecodeError::CoordinateOverflow);
                        },
                    };
                    let ny = match current_y.checked_add(dy) {
                        Some(v) => v,
                        None => {
                            return Err(DecodeError::CoordinateOverflow);
                        },
                    };
                    element = Vec::new();
                    element.push([nx, ny]);
                    proof {
                        assert(ring_model(element@) =~= seq![(nx as int, ny as int)]);
                    }
                    current_x = nx;
                    current_y = ny;
                },
                CommandType::LineTo => {
                    let nx = match current_x.checked_add(dx) {
                        Some(v) => v,
                        None => {
                            return Err(DecodeError::CoordinateOverflow);
                        },
                    };
                    let ny = match current_y.checked_add(dy) {
                        Some(v) => v,
                        None => {
                            return Err(DecodeError::CoordinateOverflow);
                        },
                    };
                    let ghost el0 = element@;
                    element.push([nx, ny]);
                    proof {
                        assert(ring_model(element@) =~= ring_model(el0).push(
                            (nx as int, ny as int),
                        ));
                    }
                    current_x = nx;
                    current_y = ny;
                },
                CommandType::ClosePath => {
                    let ghost gs0 = rings_model(geometry@);
                    let copied = copy_ring(&element);
                    geometry.push(copied);
                    proof {
                        assert(rings_model(geometry@) =~= gs0.push(ring_model(element@)));
                    }
                },
            }
            j = j + 1;
        }
        proof {
            assert(cv.skip(m as int) =~= Seq::<commands::Command>::empty());
        }
        Ok(
            Feature {
                id: feature.id,
                metadata,
                geometry,
                geom_type: feature.geom_type,
            },
        )
    }

    /// The feature's identifier.
    pub fn id(&self) -> (r: u64)
        ensures
            r == self@.id,
    {
        self.id
    }

    /// The feature's resolved metadata.
    pub fn metadata(&self) -> (r: &Properties)
        ensures
            r@ == self@.metadata,
            self.wf() ==> r.wf(),
    {
        &self.metadata
    }

    /// The feature's raw subpaths, in ClosePath order.
    pub fn geometry(&self) -> (r: &Vec<Vec<[i64; 2]>>)
        ensures
            rings_model(r@) == self@.geometry,
    {
        &self.geometry
    }

    /// The feature's declared geometry type.
    pub fn geom_type(&self) -> (r: GeometryType)
        ensures
            r == self@.geom_type,
    {
        self.geom_type
    }
}

/// The outcome of the subpath pipeline for feature `i` of a wire layer.
pub open spec fn decoded_feature_res(w: tiles::Layer, i: int) -> Result<
    (Map<Seq<char>, ValueModel>, Seq<Seq<(int, int)>>),
    DecodeError,
> {
    spec_feature_decoded(
        w.features@[i].tags@,
        w.features@[i].geometry@,
        keys_model(w.keys@),
        crate::layer::values_spec(w.values@),
    )
}

/// How one decoded feature's model relates to feature `i` of its wire
/// layer.
pub open spec fn decoded_feature_ok(fm: FeatureModel, w: tiles::Layer, i: int) -> bool {
    &&& fm.id == w.features@[i].id
    &&& fm.geom_type == w.features@[i].geom_type
    &&& decoded_feature_res(w, i) == Ok::<_, DecodeError>((fm.metadata, fm.geometry))
}

/// The mathematical shape of a decoded [`Layer`].
pub struct LayerModel {
    pub name: Seq<char>,
    pub features: Seq<FeatureModel>,
    pub extent: u32,
}

/// How a decoded layer's model relates to its wire layer.
pub open spec fn decoded_layer_ok(lm: LayerModel, w: tiles::Layer) -> bool {
    &&& lm.name == w.name@
    &&& lm.extent == crate::layer::extent_spec(w.extent)
    &&& lm.features.len() == w.features@.len()
    &&& forall|i: int|
        0 <= i < w.features@.len() ==> decoded_feature_ok(#[trigger] lm.features[i], w, i)
}

/// Whether every feature of a wire layer passes the subpath pipeline.
pub open spec fn decoded_layer_decodes(w: tiles::Layer) -> bool {
    forall|k: int| 0 <= k < w.features@.len() ==> !((#[trigger] decoded_feature_res(w, k)) is Err)
}

/// The error the subpath pipeline reports for a wire layer: the error
/// of its first failing feature.
pub open spec fn decoded_layer_first_err(w: tiles::Layer, e: DecodeError) -> bool {
    exists|i: int|
        0 <= i < w.features@.len() && (#[trigger] decoded_feature_res(w, i)) == Err::<
            (Map<Seq<char>, ValueModel>, Seq<Seq<(int, int)>>),
            _,
        >(e) && forall|j: int| 0 <= j < i ==> !((#[trigger] decoded_feature_res(w, j)) is Err)
}

/// One layer decoded to named subpath features.
#[derive(Debug)]
pub struct Layer {
    name: String,
    features: Vec<Feature>,
    extent: u32,
}

impl View for Layer {
    type V = LayerModel;

    closed spec fn view(&self) -> LayerModel {
        LayerModel {
            name: self.name@,
            features: self.features@.map_values(|f: Feature| f@),
            extent: self.extent,
        }
    }
}

impl Layer {
    /// Every feature's metadata store keeps each key once.
    pub closed spec fn wf(&self) -> bool {
        forall|i: int| 0 <= i < self.features@.len() ==> (#[trigger] self.features@[i]).wf()
    }

    /// Decodes a wire layer to subpath features: dictionaries first,
    /// then each feature in source order; the first failing feature's
    /// error is reported.
    pub fn new(layer: &tiles::Layer) -> (r: Result<Layer, DecodeError>)
        ensures
            match r {
                Ok(l) => l.wf() && decoded_layer_ok(l@, *layer),
                Err(e) => decoded_layer_first_err(*layer, e),
            },
    {
        let name = layer.name.clone();
        let keys = layer.keys.clone();
        proof {
            assert(keys@ =~= layer.keys@);
        }
        let values = crate::layer::decode_values(&layer.values);
        let extent = match layer.extent {
            Some(v) => v,
            None => crate::layer::DEFAULT_EXTENT,
        };
        let n = layer.features.len();
        let mut features: Vec<Feature> = Vec::new();
        let mut i: usize = 0;
        while i < n
            invariant
                n == layer.features@.len(),
                0 <= i <= n,
                keys@ == layer.keys@,
                vals_model(values@) == crate::layer::values_spec(layer.values@),
                features@.len() == i,
                forall|j: int| 0 <= j < i ==> (#[trigger] features@[j]).wf(),
                forall|j: int|
                    0 <= j < i ==> decoded_feature_ok(#[trigger] features@[j]@, *layer, j),
            decreases n - i,
        {
            match Feature::new(&layer.features[i], &keys, &values) {
                Ok(f) => {
                    features.push(f);
                },
                Err(e) => {
                    proof {
                        assert(decoded_feature_res(*layer, i as int) == Err::<
                            (Map<Seq<char>, ValueModel>, Seq<Seq<(int, int)>>),
                            _,
                        >(e));
                        assert forall|j: int| 0 <= j < i implies !((#[trigger] decoded_feature_res(
                            *layer,
                            j,
                        )) is Err) by {
                            assert(decoded_feature_ok(features@[j]@, *layer, j));
                        }
                    }
                    return Err(e);
                },
            }
            i = i + 1;
        }
        let l = Layer { name, features, extent };
        proof {
            assert(l@.features =~= l.features@.map_values(|f: Feature| f@));
            assert forall|j: int| 0 <= j < n implies decoded_feature_ok(
                #[trigger] l@.features[j],
                *layer,
                j,
            ) by {
                assert(l@.features[j] == l.features@[j]@);
            }
        }
        Ok(l)
    }

    /// The layer's name.
    pub fn name(&self) -> (r: &String)
        ensures
            r@ == self@.name,
    {
        &self.name
    }

    /// The layer's decoded features, in source order.
    pub fn features(&self) -> (r: &Vec<Feature>)
        ensures
            r@.map_values(|f: Feature| f@) == self@.features,
            self.wf() ==> forall|i: int| 0 <= i < r@.len() ==> (#[trigger] r@[i]).wf(),
    {
        &self.features
    }

    /// The layer's coordinate extent.
    pub fn extent(&self) -> (r: u32)
        ensures
            r == self@.extent,
    {
        self.extent
    }
}

/// One tile decoded to subpath layers.
#[derive(Debug)]
pub struct Tile {
    layers: Vec<Layer>,
}

impl View for Tile {
    type V = Seq<LayerModel>;

    closed spec fn view(&self) -> Seq<LayerModel> {
        self.layers@.map_values(|l: Layer| l@)
    }
}

impl Tile {
    /// Every layer is well formed.
    pub closed spec fn wf(&self) -> bool {
        forall|i: int| 0 <= i < self.layers@.len() ==> (#[trigger] self.layers@[i]).wf()
    }

    /// Decodes a wire tile to subpath layers, in source order; the
    /// first failing layer's error is reported.
    pub fn new(tile: &tiles::Tile) -> (r: Result<Tile, DecodeError>)
        ensures
            match r {
                Ok(t) => t.wf() && t@.len() == tile.layers@.len() && forall|i: int|
                    0 <= i < tile.layers@.len() ==> decoded_layer_ok(#[trigger] t@[i], tile.layers@[i]),
                Err(e) => exists|i: int|
                    0 <= i < tile.layers@.len() && decoded_layer_first_err(
                        #[trigger] tile.layers@[i],
                        e,
                    ) && forall|j: int| 0 <= j < i ==> decoded_layer_decodes(tile.layers@[j]),
            },
    {
        let n = tile.layers.len();
        let mut layers: Vec<Layer> = Vec::new();
        let mut i: usize = 0;
        while i < n
            invariant
                n == tile.layers@.len(),
                0 <= i <= n,
                layers@.len() == i,
                forall|j: int| 0 <= j < i ==> (#[trigger] layers@[j]).wf(),
                forall|j: int|
                    0 <= j < i ==> decoded_layer_ok(#[trigger] layers@[j]@, tile.layers@[j]),
            decreases n - i,
        {
            match Layer::new(&tile.layers[i]) {
                Ok(l) => {
                    layers.push(l);
                },
                Err(e) => {
                    proof {
                        assert forall|j: int| 0 <= j < i implies decoded_layer_decodes(
                            #[trigger] tile.layers@[j],
                        ) by {
                            let w = tile.layers@[j];
                            assert(decoded_layer_ok(layers@[j]@, w));
                            assert forall|k: int| 0 <= k < w.features@.len() implies !((
                            #[trigger] decoded_feature_res(w, k)) is Err) by {
                                assert(decoded_feature_ok(layers@[j]@.features[k], w, k));
                            }
                        }
                    }
                    return Err(e);
                },
            }
            i = i + 1;
        }
        let t = Tile { layers };
        proof {
            assert forall|j: int| 0 <= j < n implies decoded_layer_ok(
                #[trigger] t@[j],
                tile.layers@[j],
            ) by {
                assert(t@[j] == t.layers@[j]@);
            }
        }
        Ok(t)
    }

    /// The tile's decoded layers, in source order.
    pub fn layers(&self) -> (r: &Vec<Layer>)
        ensures
            r@.map_values(|l: Layer| l@) == self@,
            self.wf() ==> forall|i: int| 0 <= i < r@.len() ==> (#[trigger] r@[i]).wf(),
    {
        &self.layers
    }
}

} // verus!
