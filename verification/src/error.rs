use vstd::prelude::*;

verus! {

/// Why a buffer could not be decoded.
#[derive(Clone, Copy, Debug, PartialEq, Eq, Structural)]
pub enum DecodeError {
    /// A seek or a read reaches past the end of the buffer.
    OutOfBounds,
    /// A name has no zero byte between its start and the end of the buffer.
    MissingTerminator,
    /// A face asks for a palette entry beyond the 256 the palette holds.
    UnknownPaletteIndex,
    /// The child and sibling offsets of a model lead through more nodes than
    /// the buffer can hold, so some node is reached twice.
    StructuralCycle,
}

} // verus!
