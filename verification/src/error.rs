//! Outcomes of the fallible operations.

use vstd::prelude::*;

verus! {

/// Why a capture, a decode or a restore gave no snapshot.
#[derive(Debug, Clone, Copy, PartialEq, Eq, Structural)]
pub enum FrozenError {
    /// The span of the table's allocation, or an address inside it, does not
    /// fit in a machine word.
    LayoutOverflow,
    /// The blob ends inside its fixed-size header.
    TruncatedBlob,
    /// The length that the header declares for the buffer is not the number
    /// of bytes that follow the header.
    TrailingOrMissingBytes,
    /// The buffer is not as long as the span computed from the table's
    /// layout and bucket mask.
    SizeMismatch,
    /// The control bytes would sit at address zero.
    NullRelocation,
}

/// What a successful restore found.
#[derive(Debug, Clone, Copy, PartialEq, Eq, Structural)]
pub enum Restored {
    /// The snapshot owns no bytes: there was nothing to point the header at,
    /// and the snapshot cannot be iterated.
    EmptySingleton,
    /// The header's control pointer now refers into the snapshot's own
    /// buffer.
    TableView,
}

} // verus!
