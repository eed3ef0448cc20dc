use vstd::prelude::*;

use crate::commands::Command;
use crate::error::DecodeError;
use crate::utils::{pt_model, ring_model, shoelace2, signed_area, sl_fits};

verus! {

/// An open ring: an ordered list of integer points with no repeated
/// closing vertex.
pub type Ring = Vec<[i64; 2]>;

/// One polygon: an exterior ring and the interior rings (holes) that
/// were classified into it.
#[derive(Debug, Clone)]
pub struct Polygon {
    exterior_ring: Ring,
    interior_rings: Vec<Ring>,
}

/// One assembled geometry in tile coordinates.  The single-element
/// shapes are used when exactly one point, line or polygon was decoded;
/// the `Multy` shapes otherwise.
#[derive(Debug, Clone)]
pub enum Geometry {
    Point([i64; 2]),
    MultyPoint(Vec<[i64; 2]>),
    LineString(Vec<[i64; 2]>),
    MultyLineString(Vec<Vec<[i64; 2]>>),
    Polygon(Polygon),
    MultyPolygon(Vec<Polygon>),
}

/// The mathematical shape of a [`Polygon`].
pub struct PolygonModel {
    pub exterior_ring: Seq<(int, int)>,
    pub interior_rings: Seq<Seq<(int, int)>>,
}

/// The mathematical shape of a [`Geometry`].
pub enum GeometryModel {
    Point((int, int)),
    MultyPoint(Seq<(int, int)>),
    LineString(Seq<(int, int)>),
    MultyLineString(Seq<Seq<(int, int)>>),
    Polygon(PolygonModel),
    MultyPolygon(Seq<PolygonModel>),
}

/// The sequences of mathematical points a list of stored rings denotes.
pub open spec fn rings_model(s: Seq<Ring>) -> Seq<Seq<(int, int)>> {
    s.map_values(|v: Ring| ring_model(v@))
}

impl View for Polygon {
    type V = PolygonModel;

    closed spec fn view(&self) -> PolygonModel {
        PolygonModel {
            exterior_ring: ring_model(self.exterior_ring@),
            interior_rings: rings_model(self.interior_rings@),
        }
    }
}

/// The models of a list of stored polygons.
pub open spec fn polys_model(s: Seq<Polygon>) -> Seq<PolygonModel> {
    s.map_values(|p: Polygon| p@)
}

impl View for Geometry {
    type V = GeometryModel;

    open spec fn view(&self) -> GeometryModel {
        match self {
            Geometry::Point(p) => GeometryModel::Point(pt_model(*p)),
            Geometry::MultyPoint(ps) => GeometryModel::MultyPoint(ring_model(ps@)),
            Geometry::LineString(ps) => GeometryModel::LineString(ring_model(ps@)),
            Geometry::MultyLineString(ls) => GeometryModel::MultyLineString(rings_model(ls@)),
            Geometry::Polygon(p) => GeometryModel::Polygon(p@),
            Geometry::MultyPolygon(ps) => GeometryModel::MultyPolygon(polys_model(ps@)),
        }
    }
}

impl Polygon {
    /// Opens a new polygon whose exterior is the given ring.
    pub fn new(ring: Ring) -> (p: Polygon)
        ensures
            p@.exterior_ring == ring_model(ring@),
            p@.interior_rings == Seq::<Seq<(int, int)>>::empty(),
    {
        let p = Polygon { exterior_ring: ring, interior_rings: Vec::new() };
        proof {
            assert(rings_model(p.interior_rings@) =~= Seq::<Seq<(int, int)>>::empty());
        }
        p
    }

    /// Appends one interior ring (a hole) to this polygon.
    pub fn add_ring(&mut self, ring: Ring)
        ensures
            final(self)@.exterior_ring == old(self)@.exterior_ring,
            final(self)@.interior_rings == old(self)@.interior_rings.push(ring_model(ring@)),
    {
        self.interior_rings.push(ring);
        proof {
            assert(rings_model(self.interior_rings@) =~= rings_model(old(self).interior_rings@)
                .push(ring_model(ring@)));
        }
    }

    /// The polygon's exterior ring.
    pub fn exterior_ring(&self) -> (r: &Ring)
        ensures
            ring_model(r@) == self@.exterior_ring,
    {
        &self.exterior_ring
    }

    /// The polygon's interior rings, in the order they were added.
    pub fn interior_rings(&self) -> (r: &Vec<Ring>)
        ensures
            rings_model(r@) == self@.interior_rings,
    {
        &self.interior_rings
    }
}

impl Default for Geometry {
    /// The degenerate geometry used before any decode: a point at the
    /// origin.
    fn default() -> (r: Self)
        ensures
            r@ == GeometryModel::Point((0, 0)),
    {
        Geometry::Point([0, 0])
    }
}

/// Whether a value fits the machine integer used for coordinates.
pub open spec fn in_i64(v: int) -> bool {
    i64::MIN <= v <= i64::MAX
}

/// The point list a command sequence yields under POINT assembly,
/// folding the running cursor from `(cx, cy)` over commands that must
/// all be MoveTo.
pub open spec fn spec_points(
    cmds: Seq<Command>,
    cx: int,
    cy: int,
    acc: Seq<(int, int)>,
) -> Result<Seq<(int, int)>, DecodeError>
    decreases cmds.len(),
{
    if cmds.len() == 0 {
        Ok(acc)
    } else {
        match cmds[0] {
            Command::MoveTo(dx, dy) => {
                let nx = cx + dx;
                let ny = cy + dy;
                if !in_i64(nx) || !in_i64(ny) {
                    Err(DecodeError::CoordinateOverflow)
                } else {
                    spec_points(cmds.skip(1), nx, ny, acc.push((nx, ny)))
                }
            },
            _ => Err(DecodeError::InvalidGeometryForType),
        }
    }
}

/// The geometry a command sequence decodes to under the POINT type:
/// one `Point` for a single command, `MultyPoint` for several, and
/// `EmptyGeometry` for none.
pub open spec fn spec_point_geometry(cmds: Seq<Command>) -> Result<GeometryModel, DecodeError> {
    match spec_points(cmds, 0, 0, Seq::empty()) {
        Ok(pts) => if pts.len() == 0 {
            Err(DecodeError::EmptyGeometry)
        } else if pts.len() == 1 {
            Ok(GeometryModel::Point(pts[0]))
        } else {
            Ok(GeometryModel::MultyPoint(pts))
        },
        Err(e) => Err(e),
    }
}

/// The line lists a command sequence yields under LINESTRING assembly:
/// a MoveTo opens a new list seeded with the moved cursor, a LineTo
/// extends the current list, and a LineTo before any MoveTo advances
/// the cursor without recording a point.  A ClosePath is illegal here.
pub open spec fn spec_lines(
    cmds: Seq<Command>,
    cx: int,
    cy: int,
    lines: Seq<Seq<(int, int)>>,
) -> Result<Seq<Seq<(int, int)>>, DecodeError>
    decreases cmds.len(),
{
    if cmds.len() == 0 {
        Ok(lines)
    } else {
        match cmds[0] {
            Command::MoveTo(dx, dy) => {
                let nx = cx + dx;
                let ny = cy + dy;
                if !in_i64(nx) || !in_i64(ny) {
                    Err(DecodeError::CoordinateOverflow)
                } else {
                    spec_lines(cmds.skip(1), nx, ny, lines.push(seq![(nx, ny)]))
                }
            },
            Command::LineTo(dx, dy) => {
                let nx = cx + dx;
                let ny = cy + dy;
                if !in_i64(nx) || !in_i64(ny) {
                    Err(DecodeError::CoordinateOverflow)
                } else if lines.len() == 0 {
                    spec_lines(cmds.skip(1), nx, ny, lines)
                } else {
                    spec_lines(
                        cmds.skip(1),
                        nx,
                        ny,
                        lines.update(lines.len() - 1, lines.last().push((nx, ny))),
                    )
                }
            },
            Command::ClosePath => Err(DecodeError::InvalidGeometryForType),
        }
    }
}

/// The geometry a command sequence decodes to under the LINESTRING
/// type: one `LineString` for a single list, `MultyLineString` for
/// several, and `EmptyGeometry` for none.
pub open spec fn spec_linestring_geometry(cmds: Seq<Command>) -> Result<
    GeometryModel,
    DecodeError,
> {
    match spec_lines(cmds, 0, 0, Seq::empty()) {
        Ok(ls) => if ls.len() == 0 {
            Err(DecodeError::EmptyGeometry)
        } else if ls.len() == 1 {
            Ok(GeometryModel::LineString(ls[0]))
        } else {
            Ok(GeometryModel::MultyLineString(ls))
        },
        Err(e) => Err(e),
    }
}

/// The polygon list a command sequence yields under POLYGON assembly.
/// MoveTo and LineTo accumulate cursor positions into the ring in
/// progress.  A ClosePath finalises that ring: a ring of fewer than
/// three points is degenerate; a positive doubled signed area opens a
/// new polygon; a zero or negative area appends the ring as a hole of
/// the most recently opened polygon, which must exist.  A trailing
/// unclosed ring is dropped.
pub open spec fn spec_polys(
    cmds: Seq<Command>,
    cx: int,
    cy: int,
    ring: Seq<(int, int)>,
    polys: Seq<PolygonModel>,
) -> Result<Seq<PolygonModel>, DecodeError>
    decreases cmds.len(),
{
    if cmds.len() == 0 {
        Ok(polys)
    } else {
        match cmds[0] {
            Command::MoveTo(dx, dy) => {
                let nx = cx + dx;
                let ny = cy + dy;
                if !in_i64(nx) || !in_i64(ny) {
                    Err(DecodeError::CoordinateOverflow)
                } else {
                    spec_polys(cmds.skip(1), nx, ny, ring.push((nx, ny)), polys)
                }
            },
            Command::LineTo(dx, dy) => {
                let nx = cx + dx;
                let ny = cy + dy;
                if !in_i64(nx) || !in_i64(ny) {
                    Err(DecodeError::CoordinateOverflow)
                } else {
                    spec_polys(cmds.skip(1), nx, ny, ring.push((nx, ny)), polys)
                }
            },
            Command::ClosePath => {
                if ring.len() < 3 {
                    Err(DecodeError::InvalidGeometryForType)
                } else if !sl_fits(ring) {
                    Err(DecodeError::CoordinateOverflow)
                } else if shoelace2(ring) > 0 {
                    spec_polys(
                        cmds.skip(1),
                        cx,
                        cy,
                        Seq::empty(),
                        polys.push(
                            PolygonModel { exterior_ring: ring, interior_rings: Seq::empty() },
                        ),
                    )
                } else if polys.len() == 0 {
                    Err(DecodeError::InvalidGeometryForType)
                } else {
                    let last = polys.last();
                    spec_polys(
                        cmds.skip(1),
                        cx,
                        cy,
                        Seq::empty(),
                        polys.update(
                            polys.len() - 1,
                            PolygonModel {
                                exterior_ring: last.exterior_ring,
                                interior_rings: last.interior_rings.push(ring),
                            },
                        ),
                    )
                }
            },
        }
    }
}

/// The geometry a command sequence decodes to under the POLYGON type:
/// one `Polygon` for a single polygon, `MultyPolygon` for several, in
/// the order their exterior rings opened, and `EmptyGeometry` for none.
pub open spec fn spec_polygon_geometry(cmds: Seq<Command>) -> Result<GeometryModel, DecodeError> {
    match spec_polys(cmds, 0, 0, Seq::empty(), Seq::empty()) {
        Ok(ps) => if ps.len() == 0 {
            Err(DecodeError::EmptyGeometry)
        } else if ps.len() == 1 {
            Ok(GeometryModel::Polygon(ps[0]))
        } else {
            Ok(GeometryModel::MultyPolygon(ps))
        },
        Err(e) => Err(e),
    }
}

/// The geometry a command sequence decodes to under each declared
/// geometry type; decoding under `UNKNOWN` is refused.
pub open spec fn spec_assemble_geometry(
    cmds: Seq<Command>,
    gt: crate::geometry_type::GeometryType,
) -> Result<GeometryModel, DecodeError> {
    match gt {
        crate::geometry_type::GeometryType::POINT => spec_point_geometry(cmds),
        crate::geometry_type::GeometryType::LINESTRING => spec_linestring_geometry(cmds),
        crate::geometry_type::GeometryType::POLYGON => spec_polygon_geometry(cmds),
        crate::geometry_type::GeometryType::UNKNOWN => Err(DecodeError::InvalidGeometryForType),
    }
}

/// The model of a geometry decode outcome.
pub open spec fn geometry_res_model(r: Result<Geometry, DecodeError>) -> Result<
    GeometryModel,
    DecodeError,
> {
    match r {
        Ok(geo) => Ok(geo@),
        Err(e) => Err(e),
    }
}

/// Advances the running cursor by one delta pair, or reports that the
/// new position leaves the coordinate range.
fn step_cursor(cx: i64, cy: i64, dx: i64, dy: i64) -> (r: Option<(i64, i64)>)
    ensures
        match r {
            Some(p) => in_i64(cx + dx) && in_i64(cy + dy) && p.0 == cx + dx && p.1 == cy + dy,
            None => !in_i64(cx + dx) || !in_i64(cy + dy),
        },
{
    match cx.checked_add(dx) {
        Some(nx) => match cy.checked_add(dy) {
            Some(ny) => Some((nx, ny)),
            None => None,
        },
        None => None,
    }
}

/// Assembles a geometry of the POINT class: every command must be a
/// MoveTo, and each one records the moved cursor as a point.
pub fn get_geometry_for_point(commands: &Vec<Command>) -> (r: Result<Geometry, DecodeError>)
    ensures
        geometry_res_model(r) == spec_point_geometry(commands@),
{
    let ghost cs = commands@;
    let n = commands.len();
    let mut points: Vec<[i64; 2]> = Vec::new();
    let mut cx: i64 = 0;
    let mut cy: i64 = 0;
    let mut i: usize = 0;
    proof {
        assert(cs.skip(0) =~= cs);
        assert(ring_model(points@) =~= Seq::<(int, int)>::empty());
    }
    while i < n
        invariant
            n == cs.len(),
            cs == commands@,
            0 <= i <= n,
            spec_points(cs, 0, 0, Seq::empty()) == spec_points(
                cs.skip(i as int),
                cx as int,
                cy as int,
                ring_model(points@),
            ),
        decreases n - i,
    {
        let ghost i0 = i as int;
        proof {
            assert(cs.skip(i0)[0] == cs[i0]);
            assert(cs.skip(i0).skip(1) =~= cs.skip(i0 + 1));
        }
        match commands[i] {
            Command::MoveTo(dx, dy) => {
                let (nx, ny) = match step_cursor(cx, cy, dx, dy) {
                    Some(p) => p,
                    None => {
                        return Err(DecodeError::CoordinateOverflow);
                    },
                };
                let ghost pts0 = points@;
                points.push([nx, ny]);
                proof {
                    assert(ring_model(points@) =~= ring_model(pts0).push((nx as int, ny as int)));
                }
                cx = nx;
                cy = ny;
                i = i + 1;
            },
            Command::LineTo(_, _) => {
                return Err(DecodeError::InvalidGeometryForType);
            },
            Command::ClosePath => {
                return Err(DecodeError::InvalidGeometryForType);
            },
        }
    }
    proof {
        assert(cs.skip(n as int) =~= Seq::<Command>::empty());
    }
    if points.len() == 0 {
        return Err(DecodeError::EmptyGeometry);
    }
    if points.len() == 1 {
        let p = points[0];
        proof {
            assert(ring_model(points@)[0] == pt_model(points@[0]));
        }
        return Ok(Geometry::Point(p));
    }
    Ok(Geometry::MultyPoint(points))
}

/// Assembles a geometry of the LINESTRING class: each MoveTo opens a
/// new line at the moved cursor, each LineTo extends the current one.
pub fn get_geometry_for_linestring(commands: &Vec<Command>) -> (r: Result<Geometry, DecodeError>)
    ensures
        geometry_res_model(r) == spec_linestring_geometry(commands@),
{
    let ghost cs = commands@;
    let n = commands.len();
    let mut linestrings: Vec<Vec<[i64; 2]>> = Vec::new();
    let mut cx: i64 = 0;
    let mut cy: i64 = 0;
    let mut i: usize = 0;
    proof {
        assert(cs.skip(0) =~= cs);
        assert(rings_model(linestrings@) =~= Seq::<Seq<(int, int)>>::empty());
    }
    while i < n
        invariant
            n == cs.len(),
            cs == commands@,
            0 <= i <= n,
            spec_lines(cs, 0, 0, Seq::empty()) == spec_lines(
                cs.skip(i as int),
                cx as int,
                cy as int,
                rings_model(linestrings@),
            ),
        decreases n - i,
    {
        let ghost i0 = i as int;
        let ghost ls0 = rings_model(linestrings@);
        proof {
            assert(cs.skip(i0)[0] == cs[i0]);
            assert(cs.skip(i0).skip(1) =~= cs.skip(i0 + 1));
        }
        match commands[i] {
            Command::MoveTo(dx, dy) => {
                let (nx, ny) = match step_cursor(cx, cy, dx, dy) {
                    Some(p) => p,
                    None => {
                        return Err(DecodeError::CoordinateOverflow);
                    },
                };
                let mut opened: Vec<[i64; 2]> = Vec::new();
                opened.push([nx, ny]);
                proof {
                    assert(ring_model(opened@) =~= seq![(nx as int, ny as int)]);
                }
                linestrings.push(opened);
                proof {
                    assert(rings_model(linestrings@) =~= ls0.push(
                        seq![(nx as int, ny as int)],
                    ));
                }
                cx = nx;
                cy = ny;
                i = i + 1;
            },
            Command::LineTo(dx, dy) => {
                let (nx, ny) = match step_cursor(cx, cy, dx, dy) {
                    Some(p) => p,
                    None => {
                        return Err(DecodeError::CoordinateOverflow);
                    },
                };
                if linestrings.len() > 0 {
                    let ghost lsv0 = linestrings@;
                    let mut last = linestrings.pop().unwrap();
                    let ghost lv0 = last@;
                    last.push([nx, ny]);
                    linestrings.push(last);
                    proof {
                        assert(linestrings@.last()@ == lv0.push([nx, ny]));
                        assert(ring_model(lv0.push([nx, ny])) =~= ring_model(lv0).push(
                            (nx as int, ny as int),
                        ));
                        assert(ring_model(lv0) == ls0.last());
                        assert(rings_model(linestrings@) =~~= ls0.update(
                            ls0.len() - 1,
                            ls0.last().push((nx as int, ny as int)),
                        ));
                    }
                }
                cx = nx;
                cy = ny;
                i = i + 1;
            },
            Command::ClosePath => {
                return Err(DecodeError::InvalidGeometryForType);
            },
        }
    }
    proof {
        assert(cs.skip(n as int) =~= Seq::<Command>::empty());
    }
    if linestrings.len() == 0 {
        return Err(DecodeError::EmptyGeometry);
    }
    if linestrings.len() == 1 {
        let only = linestrings.pop().unwrap();
        proof {
            assert(rings_model(linestrings@.push(only))[0] == ring_model(only@));
        }
        return Ok(Geometry::LineString(only));
    }
    Ok(Geometry::MultyLineString(linestrings))
}

/// Assembles a geometry of the POLYGON class: MoveTo and LineTo grow
/// the ring in progress, and each ClosePath classifies it by the sign
/// of its signed area, opening a new polygon or filing a hole.
pub fn get_geometry_for_polygon(commands: &Vec<Command>) -> (r: Result<Geometry, DecodeError>)
    ensures
        geometry_res_model(r) == spec_polygon_geometry(commands@),
{
    let ghost cs = commands@;
    let n = commands.len();
    let mut geometry: Vec<Polygon> = Vec::new();
    let mut ring: Vec<[i64; 2]> = Vec::new();
    let mut cx: i64 = 0;
    let mut cy: i64 = 0;
    let mut i: usize = 0;
    proof {
        assert(cs.skip(0) =~= cs);
        assert(ring_model(ring@) =~= Seq::<(int, int)>::empty());
        assert(polys_model(geometry@) =~= Seq::<PolygonModel>::empty());
    }
    while i < n
        invariant
            n == cs.len(),
            cs == commands@,
            0 <= i <= n,
            spec_polys(cs, 0, 0, Seq::empty(), Seq::empty()) == spec_polys(
                cs.skip(i as int),
                cx as int,
                cy as int,
                ring_model(ring@),
                polys_model(geometry@),
            ),
        decreases n - i,
    {
        let ghost i0 = i as int;
        let ghost ps0 = polys_model(geometry@);
        proof {
            assert(cs.skip(i0)[0] == cs[i0]);
            assert(cs.skip(i0).skip(1) =~= cs.skip(i0 + 1));
        }
        match commands[i] {
            Command::MoveTo(dx, dy) => {
                let (nx, ny) = match step_cursor(cx, cy, dx, dy) {
                    Some(p) => p,
                    None => {
                        return Err(DecodeError::CoordinateOverflow);
                    },
                };
                let ghost rg0 = ring@;
                ring.push([nx, ny]);
                proof {
                    assert(ring_model(ring@) =~= ring_model(rg0).push((nx as int, ny as int)));
                }
                cx = nx;
                cy = ny;
                i = i + 1;
            },
            Command::LineTo(dx, dy) => {
                let (nx, ny) = match step_cursor(cx, cy, dx, dy) {
                    Some(p) => p,
                    None => {
                        return Err(DecodeError::CoordinateOverflow);
                    },
                };
                let ghost rg0 = ring@;
                ring.push([nx, ny]);
                proof {
                    assert(ring_model(ring@) =~= ring_model(rg0).push((nx as int, ny as int)));
                }
                cx = nx;
                cy = ny;
                i = i + 1;
            },
            Command::ClosePath => {
                if ring.len() < 3 {
                    return Err(DecodeError::InvalidGeometryForType);
                }
                let area = match signed_area(&ring) {
                    Some(a) => a,
                    None => {
                        return Err(DecodeError::CoordinateOverflow);
                    },
                };
                if area > 0 {
                    let ghost fin = ring@;
                    let finished = ring;
                    ring = Vec::new();
                    geometry.push(Polygon::new(finished));
                    proof {
                        assert(ring_model(ring@) =~= Seq::<(int, int)>::empty());
                        assert(polys_model(geometry@) =~~= ps0.push(
                            PolygonModel {
                                exterior_ring: ring_model(fin),
                                interior_rings: Seq::empty(),
                            },
                        ));
                    }
                } else {
                    if geometry.len() == 0 {
                        return Err(DecodeError::InvalidGeometryForType);
                    }
                    let ghost fin = ring@;
                    let finished = ring;
                    ring = Vec::new();
                    let mut last = geometry.pop().unwrap();
                    proof {
                        assert(last@ == ps0.last());
                    }
                    last.add_ring(finished);
                    geometry.push(last);
                    proof {
                        assert(ring_model(ring@) =~= Seq::<(int, int)>::empty());
                        let lastm = ps0.last();
                        assert(geometry@.last()@.exterior_ring == lastm.exterior_ring);
                        assert(geometry@.last()@.interior_rings == lastm.interior_rings.push(
                            ring_model(fin),
                        ));
                        assert(polys_model(geometry@) =~~= ps0.update(
                            ps0.len() - 1,
                            PolygonModel {
                                exterior_ring: lastm.exterior_ring,
                                interior_rings: lastm.interior_rings.push(ring_model(fin)),
                            },
                        ));
                    }
                }
                i = i + 1;
            },
        }
    }
    proof {
        assert(cs.skip(n as int) =~= Seq::<Command>::empty());
    }
    if geometry.len() == 0 {
        return Err(DecodeError::EmptyGeometry);
    }
    if geometry.len() == 1 {
        let only = geometry.pop().unwrap();
        proof {
            assert(polys_model(geometry@.push(only))[0] == only@);
        }
        return Ok(Geometry::Polygon(only));
    }
    Ok(Geometry::MultyPolygon(geometry))
}

/// Assembles the geometry for a feature's declared type; decoding
/// under `UNKNOWN` is refused rather than treated as unreachable.
pub fn assemble_geometry(
    commands: &Vec<Command>,
    geom_type: crate::geometry_type::GeometryType,
) -> (r: Result<Geometry, DecodeError>)
    ensures
        geometry_res_model(r) == spec_assemble_geometry(commands@, geom_type),
{
    match geom_type {
        crate::geometry_type::GeometryType::POINT => get_geometry_for_point(commands),
        crate::geometry_type::GeometryType::LINESTRING => get_geometry_for_linestring(commands),
        crate::geometry_type::GeometryType::POLYGON => get_geometry_for_polygon(commands),
        crate::geometry_type::GeometryType::UNKNOWN => Err(DecodeError::InvalidGeometryForType),
    }
}

/// Whether a command draws (moves the cursor) rather than closing a
/// ring.
pub open spec fn is_draw(c: Command) -> bool {
    c is MoveTo || c is LineTo
}

/// Whether a command sequence consists of drawing commands only.
pub open spec fn all_draws(cmds: Seq<Command>) -> bool {
    forall|i: int| 0 <= i < cmds.len() ==> is_draw(#[trigger] cmds[i])
}

/// The delta pair a drawing command carries.
pub open spec fn draw_delta(c: Command) -> (int, int) {
    match c {
        Command::MoveTo(dx, dy) => (dx as int, dy as int),
        Command::LineTo(dx, dy) => (dx as int, dy as int),
        Command::ClosePath => (0, 0),
    }
}

/// Whether integrating a drawing sequence from `(cx, cy)` keeps every
/// cursor position in coordinate range.
pub open spec fn draws_ok(cmds: Seq<Command>, cx: int, cy: int) -> bool
    decreases cmds.len(),
{
    if cmds.len() == 0 {
        true
    } else {
        let nx = cx + draw_delta(cmds[0]).0;
        let ny = cy + draw_delta(cmds[0]).1;
        in_i64(nx) && in_i64(ny) && draws_ok(cmds.skip(1), nx, ny)
    }
}

/// The cursor position after integrating a drawing sequence.
pub open spec fn draws_end(cmds: Seq<Command>, cx: int, cy: int) -> (int, int)
    decreases cmds.len(),
{
    if cmds.len() == 0 {
        (cx, cy)
    } else {
        draws_end(cmds.skip(1), cx + draw_delta(cmds[0]).0, cy + draw_delta(cmds[0]).1)
    }
}

/// The ring a drawing sequence accumulates: the cursor position after
/// each command, in order.
pub open spec fn drawn_pts(cmds: Seq<Command>, cx: int, cy: int) -> Seq<(int, int)>
    decreases cmds.len(),
{
    if cmds.len() == 0 {
        Seq::empty()
    } else {
        let nx = cx + draw_delta(cmds[0]).0;
        let ny = cy + draw_delta(cmds[0]).1;
        seq![(nx, ny)] + drawn_pts(cmds.skip(1), nx, ny)
    }
}

proof fn lemma_polys_draws(
    d: Seq<Command>,
    rest: Seq<Command>,
    cx: int,
    cy: int,
    ring: Seq<(int, int)>,
    polys: Seq<PolygonModel>,
)
    requires
        all_draws(d),
        draws_ok(d, cx, cy),
    ensures
        spec_polys(d + rest, cx, cy, ring, polys) == spec_polys(
            rest,
            draws_end(d, cx, cy).0,
            draws_end(d, cx, cy).1,
            ring + drawn_pts(d, cx, cy),
            polys,
        ),
    decreases d.len(),
{
    if d.len() == 0 {
        assert(d + rest =~= rest);
        assert(ring + drawn_pts(d, cx, cy) =~= ring);
    } else {
        let c = d[0];
        assert(is_draw(c));
        let nx = cx + draw_delta(c).0;
        let ny = cy + draw_delta(c).1;
        assert((d + rest)[0] == c);
        assert((d + rest).len() > 0);
        assert((d + rest).skip(1) =~= d.skip(1) + rest);
        assert forall|t: int| 0 <= t < d.skip(1).len() implies is_draw(#[trigger] d.skip(1)[t]) by {
            assert(d.skip(1)[t] == d[t + 1]);
            assert(is_draw(d[t + 1]));
        }
        lemma_polys_draws(d.skip(1), rest, nx, ny, ring.push((nx, ny)), polys);
        assert(ring.push((nx, ny)) + drawn_pts(d.skip(1), nx, ny) =~= ring + drawn_pts(d, cx, cy));
    }
}

/// Ring classification under POLYGON assembly: a positive-area ring
/// followed immediately by a ring of zero or negative area decodes to
/// one polygon carrying the second ring as its hole.
pub proof fn lemma_polygon_hole_classification(d1: Seq<Command>, d2: Seq<Command>)
    requires
        all_draws(d1),
        draws_ok(d1, 0, 0),
        all_draws(d2),
        draws_ok(d2, draws_end(d1, 0, 0).0, draws_end(d1, 0, 0).1),
        drawn_pts(d1, 0, 0).len() >= 3,
        sl_fits(drawn_pts(d1, 0, 0)),
        shoelace2(drawn_pts(d1, 0, 0)) > 0,
        drawn_pts(d2, draws_end(d1, 0, 0).0, draws_end(d1, 0, 0).1).len() >= 3,
        sl_fits(drawn_pts(d2, draws_end(d1, 0, 0).0, draws_end(d1, 0, 0).1)),
        shoelace2(drawn_pts(d2, draws_end(d1, 0, 0).0, draws_end(d1, 0, 0).1)) <= 0,
    ensures
        spec_polygon_geometry(
            d1 + seq![Command::ClosePath] + d2 + seq![Command::ClosePath],
        ) == Ok::<_, DecodeError>(
            GeometryModel::Polygon(
                PolygonModel {
                    exterior_ring: drawn_pts(d1, 0, 0),
                    interior_rings: seq![
                        drawn_pts(d2, draws_end(d1, 0, 0).0, draws_end(d1, 0, 0).1),
                    ],
                },
            ),
        ),
{
    let e1 = draws_end(d1, 0, 0);
    let ring1 = drawn_pts(d1, 0, 0);
    let ring2 = drawn_pts(d2, e1.0, e1.1);
    let cmds = d1 + seq![Command::ClosePath] + d2 + seq![Command::ClosePath];
    let rest1 = seq![Command::ClosePath] + (d2 + seq![Command::ClosePath]);
    assert(cmds =~= d1 + rest1);
    lemma_polys_draws(d1, rest1, 0, 0, Seq::empty(), Seq::empty());
    assert(Seq::<(int, int)>::empty() + ring1 =~= ring1);
    assert(rest1[0] == Command::ClosePath);
    assert(rest1.skip(1) =~= d2 + seq![Command::ClosePath]);
    let poly1 = PolygonModel { exterior_ring: ring1, interior_rings: Seq::empty() };
    assert(spec_polys(rest1, e1.0, e1.1, ring1, Seq::empty()) == spec_polys(
        d2 + seq![Command::ClosePath],
        e1.0,
        e1.1,
        Seq::empty(),
        seq![poly1],
    )) by {
        assert(Seq::<PolygonModel>::empty().push(poly1) =~= seq![poly1]);
    }
    lemma_polys_draws(d2, seq![Command::ClosePath], e1.0, e1.1, Seq::empty(), seq![poly1]);
    assert(Seq::<(int, int)>::empty() + ring2 =~= ring2);
    let e2 = draws_end(d2, e1.0, e1.1);
    let tail = seq![Command::ClosePath];
    assert(tail[0] == Command::ClosePath);
    assert(tail.skip(1) =~= Seq::<Command>::empty());
    let poly2 = PolygonModel {
        exterior_ring: ring1,
        interior_rings: Seq::<Seq<(int, int)>>::empty().push(ring2),
    };
    assert(spec_polys(tail, e2.0, e2.1, ring2, seq![poly1]) == spec_polys(
        Seq::empty(),
        e2.0,
        e2.1,
        Seq::empty(),
        seq![poly1].update(0, poly2),
    ));
    assert(seq![poly1].update(0, poly2) =~= seq![poly2]);
    assert(Seq::<Seq<(int, int)>>::empty().push(ring2) =~= seq![ring2]);
    assert(poly2 == PolygonModel { exterior_ring: ring1, interior_rings: seq![ring2] });
}

/// Ring classification under POLYGON assembly: a ring of zero or
/// negative area closed before any exterior ring exists is rejected,
/// whatever commands follow.
pub proof fn lemma_polygon_interior_first_rejected(d1: Seq<Command>, rest: Seq<Command>)
    requires
        all_draws(d1),
        draws_ok(d1, 0, 0),
        drawn_pts(d1, 0, 0).len() >= 3,
        sl_fits(drawn_pts(d1, 0, 0)),
        shoelace2(drawn_pts(d1, 0, 0)) <= 0,
    ensures
        spec_polygon_geometry(d1 + seq![Command::ClosePath] + rest) == Err::<GeometryModel, _>(
            DecodeError::InvalidGeometryForType,
        ),
{
    let ring1 = drawn_pts(d1, 0, 0);
    let e1 = draws_end(d1, 0, 0);
    let rest1 = seq![Command::ClosePath] + rest;
    assert(d1 + seq![Command::ClosePath] + rest =~= d1 + rest1);
    lemma_polys_draws(d1, rest1, 0, 0, Seq::empty(), Seq::empty());
    assert(Seq::<(int, int)>::empty() + ring1 =~= ring1);
    assert(rest1[0] == Command::ClosePath);
}

} // verus!
