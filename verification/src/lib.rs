//! Snapshots of flat, open-addressing hash tables.
//!
//! A table of this kind lives in one contiguous allocation: the slots, laid
//! out in reverse index order, are followed by one control byte per bucket
//! and a trailing group of control bytes. This crate computes the span of
//! that allocation, assembles an owned [`FrozenHashMap`] from the bytes
//! copied out of it, encodes the snapshot as a relocatable blob, decodes it
//! again, points the table header at the owned copy, and enumerates the
//! occupied slots by scanning the control bytes.
//!
//! The contracts are stated over the [`Snapshot`] model of a frozen table.
//! Every function here is verified but two, which ask the standard library
//! for what depends on the host: the address of a buffer, and the order in
//! which the host keeps the bytes of a word.

use vstd::prelude::*;

pub mod blob;
pub mod error;
pub mod frozen;
pub mod iter;
pub mod laws;
pub mod layout;

pub use crate::blob::ByteOrder;
pub use crate::error::{FrozenError, Restored};
pub use crate::frozen::{FrozenHashMap, HashMap, RandomState, RawTable, RawTableInner, Snapshot};
pub use crate::iter::RawBucketIter;
pub use crate::layout::{Layout, TableLayout};

verus! {

/// The group of control bytes that a table probes at once.
pub struct Group {}

impl Group {
    /// Number of control bytes in a group: sixteen, the group of a 128-bit
    /// vector unit. A table keeps this many control bytes after the last
    /// bucket's, so that a group load that starts at any bucket stays
    /// inside the allocation. The tables of a host that probes narrower
    /// groups have other spans than this crate computes.
    pub const WIDTH: usize = 16;
}

} // verus!
