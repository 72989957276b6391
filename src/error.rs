use vstd::prelude::*;

verus! {

/// Why decoding an archive, loading a map or walking its partition tree failed.
#[derive(Debug, Clone, Copy, PartialEq, Eq, Structural)]
pub enum WadError {
    /// The archive file could not be opened or read.
    IoFailure,
    /// A read would go past the end of the archive.
    Truncated,
    /// A lump name or text field is not valid UTF-8.
    InvalidEncoding,
    /// No directory entry carries the requested map name.
    MapNotFound,
    /// A lump's byte size is not a multiple of its record width.
    MalformedRecordSize,
    /// A table index falls outside its table.
    OutOfRange,
    /// A walk of the partition tree met a node already on its current path.
    CyclicTree,
    /// The partition tree has no nodes.
    EmptyTree,
}

} // verus!
