use vstd::prelude::*;

verus! {

/// The ways an operation on a PNG container can fail. Every failure is
/// terminal for the operation that raised it; none is downgraded.
#[derive(Debug, Clone, Copy, PartialEq, Eq, Structural)]
pub enum PngError {
    /// The buffer does not begin with the PNG signature.
    BadSignature,
    /// A four-byte type code is not all alphabetic, or its reserved bit is set.
    InvalidChunkType,
    /// Too few bytes remain for a declared length, payload or checksum.
    TruncatedChunk,
    /// The stored checksum disagrees with the one recomputed over the data.
    ChecksumMismatch { expected: u32, computed: u32 },
    /// No chunk with the requested type code is present.
    ChunkNotFound,
    /// A payload was requested as text but is not valid UTF-8.
    InvalidText,
}

} // verus!
