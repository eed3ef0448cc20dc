use vstd::prelude::*;

verus! {

/// The ways a single decode attempt can fail.
///
/// Errors are reported to the caller and never recovered internally, so a
/// caller working through many tiles can reject one feature or tile
/// without abandoning the batch.
#[derive(Clone, Copy, Debug, PartialEq, Eq, Structural)]
pub enum DecodeError {
    /// The byte-level parse that produces the wire message tree failed
    /// upstream; the cause is opaque to this crate.
    UnderlyingDecodeError,
    /// A feature's tag array has odd length, so it cannot be read as
    /// (key index, value index) pairs.
    MalformedTags,
    /// A tag index points past the end of its layer's key or value
    /// dictionary.
    IndexOutOfRange,
    /// The geometry command stream holds an unknown opcode, runs out of
    /// parameters for a declared count, or ends mid-command.
    MalformedCommandStream,
    /// A command is illegal for the feature's declared geometry type: a
    /// non-MoveTo under POINT, a ClosePath under LINESTRING, an interior
    /// ring with no open exterior, a ring closed with fewer than three
    /// points, or an UNKNOWN geometry type.
    InvalidGeometryForType,
    /// The command stream produced no points, no subpaths or no rings
    /// where the geometry type requires at least one.
    EmptyGeometry,
    /// A cursor coordinate or a ring's signed area left the range of the
    /// machine integers used to hold it.
    CoordinateOverflow,
}

} // verus!
