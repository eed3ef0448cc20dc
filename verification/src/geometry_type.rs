use vstd::prelude::*;

verus! {

/// The geometry class a feature declares on the wire: a 2-bit
/// enumeration, with `UNKNOWN` as the default when absent.
#[derive(Clone, Copy, Debug, PartialEq, Eq, Structural)]
pub enum GeometryType {
    UNKNOWN,
    POINT,
    LINESTRING,
    POLYGON,
}

/// The geometry type a wire code denotes: 1, 2 and 3 name the concrete
/// classes, and every other code reads as `UNKNOWN`.
pub open spec fn spec_geometry_type(code: u32) -> GeometryType {
    if code == 1 {
        GeometryType::POINT
    } else if code == 2 {
        GeometryType::LINESTRING
    } else if code == 3 {
        GeometryType::POLYGON
    } else {
        GeometryType::UNKNOWN
    }
}

impl GeometryType {
    /// Reads a wire enumeration code.
    pub fn new(code: u32) -> (r: GeometryType)
        ensures
            r == spec_geometry_type(code),
    {
        if code == 1 {
            GeometryType::POINT
        } else if code == 2 {
            GeometryType::LINESTRING
        } else if code == 3 {
            GeometryType::POLYGON
        } else {
            GeometryType::UNKNOWN
        }
    }
}

impl Default for GeometryType {
    fn default() -> (r: Self)
        ensures
            r == GeometryType::UNKNOWN,
    {
        GeometryType::UNKNOWN
    }
}

} // verus!
