use vstd::prelude::*;

verus! {

/// What can go wrong between the database engine and the store.
#[derive(Debug, Clone, Copy, PartialEq, Eq, Structural)]
pub enum VfsError {
    /// The store failed, or handed back a value that is not one whole block.
    BackingStore,
    /// A seek relative to the cursor or to the end of the file was asked for.
    UnsupportedSeek,
    /// Block 0 is too short to hold the page count, or holds a count whose
    /// file size does not fit in 64 bits.
    CorruptHeader,
    /// A changed block could not be written back; it stays marked as changed.
    PartialFlushFailure,
}

/// Where a seek is measured from.
#[derive(Debug, Clone, Copy, PartialEq, Eq, Structural)]
pub enum Whence {
    Start(u64),
    End(i64),
    Current(i64),
}

/// What a read or a write came to.
#[derive(Debug, Clone, Copy, PartialEq, Eq, Structural)]
pub enum Step {
    /// That many bytes were moved and the cursor advanced by as many.
    Done(usize),
    /// Nothing was done: the block with this index is not cached yet.
    Fetch(u64),
}

} // verus!
