use vstd::prelude::*;

verus! {

/// The ways an operation on a memory space can fail.
#[derive(Debug, Clone, PartialEq, Eq, Structural)]
pub enum VMError {
    /// The resolved location does not fit the requested access.
    IllegalAccess,
    /// The address is defined nowhere along the parent chain.
    OrphanMemory,
    /// A detached view was written into a space that does not own it.
    MemoryNotOwned,
    /// A space that must be held exclusively has another live reference.
    HandMemDanglingPtr,
    /// A length-prefixed byte run is not valid UTF-8.
    InvalidString,
    /// No payload size is registered for the event.
    EventNotDefined(i64),
    /// A pop from an empty block.
    EmptyBlock,
    /// A delete at an index past the end of the block.
    IndexOutOfRange { idx: usize, len: usize },
    /// Parent and child both changed the same address to different places.
    MergeConflict,
}

pub type VMResult<T> = Result<T, VMError>;

} // verus!
