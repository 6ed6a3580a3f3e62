//! The frozen table: a table's header, its layout, and an owned copy of its
//! allocation.

use vstd::prelude::*;
use vstd::arithmetic::power2::is_pow2;
use crate::error::{FrozenError, Restored};
use crate::layout::{is_power_of_two, Layout, TableLayout};

verus! {

/// The two keys of the default hasher.
#[derive(Debug, Clone, Copy, PartialEq, Eq, Structural)]
pub struct RandomState {
    pub k0: u64,
    pub k1: u64,
}

/// The header of a table.
#[derive(Debug, Clone, Copy, PartialEq, Eq, Structural)]
pub struct RawTableInner {
    /// Number of buckets less one. Zero for a table that never allocated.
    pub bucket_mask: usize,
    /// Address of the first control byte. Zero while the address is not
    /// known.
    pub ctrl: usize,
    /// Number of insertions left before the table grows.
    pub growth_left: usize,
    /// Number of occupied buckets.
    pub items: usize,
}

/// The table of a map.
#[derive(Debug, Clone, Copy, PartialEq, Eq, Structural)]
pub struct RawTable {
    pub table: RawTableInner,
}

/// A map: its hasher and its table.
#[derive(Debug, Clone)]
pub struct HashMap<S = RandomState> {
    pub hash_builder: S,
    pub table: RawTable,
}

/// A table's header and layout together with an owned copy of the table's
/// allocation.
#[derive(Debug, Clone)]
pub struct FrozenHashMap<S = RandomState> {
    pub table_layout: TableLayout,
    pub hashmap: HashMap<S>,
    pub memory: Vec<u8>,
}

/// The mathematical content of a [`FrozenHashMap`].
#[verifier::ext_equal]
pub struct Snapshot {
    pub layout: TableLayout,
    pub metadata: RawTableInner,
    pub raw_bytes: Seq<u8>,
}

impl RawTableInner {
    /// The invariant of a header: the number of buckets is a power of two
    /// that fits in a `usize`.
    pub open spec fn well_formed(&self) -> bool {
        &&& self.bucket_mask < usize::MAX
        &&& is_pow2(self.bucket_mask + 1)
    }

    /// Where the allocation of this table starts, and its layout: see
    /// [`RawTableInner::allocation`].
    pub open spec fn spec_allocation(&self, table_layout: &TableLayout) -> Option<(usize, Layout)> {
        let buckets = self.bucket_mask as nat + 1;
        if self.bucket_mask == 0 || table_layout.span(buckets) > usize::MAX
            || self.ctrl < table_layout.ctrl_offset(buckets) {
            None
        } else {
            Some(
                (
                    (self.ctrl - table_layout.ctrl_offset(buckets)) as usize,
                    Layout {
                        size: table_layout.span(buckets) as usize,
                        align: table_layout.ctrl_align,
                    },
                ),
            )
        }
    }

    /// Where the control bytes start in this table's allocation, and the
    /// allocation's layout: see [`RawTableInner::reallocation`].
    pub open spec fn spec_reallocation(&self, table_layout: &TableLayout) -> Option<
        (usize, Layout),
    > {
        let buckets = self.bucket_mask as nat + 1;
        if self.bucket_mask == 0 || table_layout.span(buckets) > usize::MAX {
            None
        } else {
            Some(
                (
                    table_layout.ctrl_offset(buckets) as usize,
                    Layout {
                        size: table_layout.span(buckets) as usize,
                        align: table_layout.ctrl_align,
                    },
                ),
            )
        }
    }

    /// Tests the invariant.
    pub fn is_well_formed(&self) -> (r: bool)
        ensures
            r == self.well_formed(),
    {
        self.bucket_mask < usize::MAX && is_power_of_two(self.bucket_mask + 1)
    }

    /// Address of the first byte of this table's allocation, and the
    /// allocation's layout. The slots lie before the control bytes, so the
    /// allocation starts at the control pointer less the control offset.
    /// `None` for a table that never allocated, and where the allocation's
    /// length or its first address is not a `usize`.
    pub fn allocation(&self, table_layout: &TableLayout) -> (r: Option<(usize, Layout)>)
        requires
            self.well_formed(),
            table_layout.well_formed(),
        ensures
            r == self.spec_allocation(table_layout),
    {
        if self.is_empty_singleton() {
            None
        } else {
            match table_layout.calculate_layout_for(self.buckets()) {
                Some((layout, ctrl_offset)) => match self.ctrl.checked_sub(ctrl_offset) {
                    Some(start) => Some((start, layout)),
                    None => None,
                },
                None => None,
            }
        }
    }

    /// Offset of the first control byte in this table's allocation, and the
    /// allocation's layout. `None` for a table that never allocated, and
    /// where the allocation's length is not a `usize`.
    pub fn reallocation(&self, table_layout: &TableLayout) -> (r: Option<(usize, Layout)>)
        requires
            self.well_formed(),
            table_layout.well_formed(),
        ensures
            r == self.spec_reallocation(table_layout),
    {
        if self.is_empty_singleton() {
            None
        } else {
            match table_layout.calculate_layout_for(self.buckets()) {
                Some((layout, ctrl_offset)) => Some((ctrl_offset, layout)),
                None => None,
            }
        }
    }

    /// Number of buckets.
    pub fn buckets(&self) -> (r: usize)
        requires
            self.bucket_mask < usize::MAX,
        ensures
            r == self.bucket_mask + 1,
    {
        self.bucket_mask + 1
    }

    /// Whether the table never allocated.
    pub fn is_empty_singleton(&self) -> (r: bool)
        ensures
            r == (self.bucket_mask == 0),
    {
        self.bucket_mask == 0
    }
}

impl<S> HashMap<S> {
    /// Number of entries.
    pub fn len(&self) -> (r: usize)
        ensures
            r == self.table.table.items,
    {
        self.table.table.items
    }
}

impl Snapshot {
    /// Number of buckets of the table.
    pub open spec fn buckets(self) -> nat {
        self.metadata.bucket_mask as nat + 1
    }

    /// Offset of the first control byte in the buffer.
    pub open spec fn ctrl_offset(self) -> nat {
        self.layout.ctrl_offset(self.buckets())
    }

    /// Length of the buffer of a snapshot with this header and layout:
    /// nothing for a table that never allocated, else the span of the
    /// table.
    pub open spec fn expected_len(self) -> nat {
        if self.metadata.bucket_mask == 0 {
            0
        } else {
            self.layout.span(self.buckets())
        }
    }

    /// The invariant of a snapshot: header and layout are well formed, and
    /// the buffer is exactly as long as the table's allocation.
    pub open spec fn well_formed(self) -> bool {
        &&& self.layout.well_formed()
        &&& self.metadata.well_formed()
        &&& self.raw_bytes.len() == self.expected_len()
    }

    /// The snapshot of the table with header `metadata` and layout `layout`
    /// whose allocation held `bytes`.
    pub open spec fn capture(layout: TableLayout, metadata: RawTableInner, bytes: Seq<u8>) -> Result<
        Snapshot,
        FrozenError,
    > {
        if metadata.bucket_mask == 0 {
            Ok(Snapshot { layout, metadata, raw_bytes: Seq::empty() })
        } else {
            match metadata.spec_allocation(&layout) {
                None => Err(FrozenError::LayoutOverflow),
                Some((start, allocated)) => if bytes.len() != allocated.size {
                    Err(FrozenError::SizeMismatch)
                } else {
                    Ok(Snapshot { layout, metadata, raw_bytes: bytes })
                },
            }
        }
    }

    /// Whether the buffer holds a table: header and layout are those of a
    /// table that allocated, and the buffer is as long as that table's
    /// allocation, which is a length that fits in a `usize`.
    pub open spec fn holds_table(self) -> bool {
        &&& self.layout.well_formed()
        &&& self.metadata.well_formed()
        &&& self.metadata.bucket_mask != 0
        &&& self.raw_bytes.len() == self.layout.span(self.buckets())
        &&& self.raw_bytes.len() <= usize::MAX
    }

    /// The outcome of a restore into a buffer at address `base`, and the
    /// snapshot after it.
    pub open spec fn restore(self, base: usize) -> (Result<Restored, FrozenError>, Snapshot) {
        if self.raw_bytes.len() == 0 {
            (Ok(Restored::EmptySingleton), self)
        } else if !self.layout.well_formed() || !self.metadata.well_formed()
            || self.metadata.bucket_mask == 0 {
            (Err(FrozenError::SizeMismatch), self)
        } else if self.layout.span(self.buckets()) > usize::MAX {
            (Err(FrozenError::LayoutOverflow), self)
        } else if self.layout.span(self.buckets()) != self.raw_bytes.len() {
            (Err(FrozenError::SizeMismatch), self)
        } else if base + self.ctrl_offset() > usize::MAX {
            (Err(FrozenError::LayoutOverflow), self)
        } else if base + self.ctrl_offset() == 0 {
            (Err(FrozenError::NullRelocation), self)
        } else {
            (
                Ok(Restored::TableView),
                Snapshot {
                    metadata: RawTableInner {
                        ctrl: (base + self.ctrl_offset()) as usize,
                        ..self.metadata
                    },
                    ..self
                },
            )
        }
    }
}

impl<S> View for FrozenHashMap<S> {
    type V = Snapshot;

    open spec fn view(&self) -> Snapshot {
        Snapshot {
            layout: self.table_layout,
            metadata: self.hashmap.table.table,
            raw_bytes: self.memory@,
        }
    }
}

/// `Vec::as_ptr`, as an integer: the address of the buffer of `v`. Which
/// address that is depends on the allocator; a vector's pointer is never
/// null.
#[verifier::external_body]
fn buffer_address(v: &Vec<u8>) -> (r: usize)
    ensures
        r != 0,
{
    v.as_ptr() as usize
}

impl FrozenHashMap<RandomState> {
    /// Assembles the snapshot of a live table whose slots have the layout
    /// `slot`: [`FrozenHashMap::construct_with`] on the table layout for
    /// such slots.
    pub fn construct(hashmap: HashMap<RandomState>, slot: Layout, memory: Vec<u8>) -> (r: Result<
        Self,
        FrozenError,
    >)
        requires
            hashmap.table.table.well_formed(),
            slot.well_formed(),
        ensures
            match r {
                Ok(frozen) => {
                    &&& Snapshot::capture(
                        TableLayout::spec_new(slot),
                        hashmap.table.table,
                        memory@,
                    ) == Ok::<Snapshot, FrozenError>(frozen@)
                    &&& frozen@.well_formed()
                    &&& frozen.hashmap.hash_builder == hashmap.hash_builder
                },
                Err(e) => Snapshot::capture(
                    TableLayout::spec_new(slot),
                    hashmap.table.table,
                    memory@,
                ) == Err::<Snapshot, FrozenError>(e),
            },
    {
        Self::construct_with(hashmap, TableLayout::new(slot), memory)
    }

    /// Assembles the snapshot of a live table from its header, its layout,
    /// and the bytes copied out of the allocation that
    /// [`RawTableInner::allocation`] locates. A table that never allocated
    /// gives a snapshot with an empty buffer, whatever `memory` holds.
    pub fn construct_with(
        hashmap: HashMap<RandomState>,
        table_layout: TableLayout,
        memory: Vec<u8>,
    ) -> (r: Result<Self, FrozenError>)
        requires
            hashmap.table.table.well_formed(),
            table_layout.well_formed(),
        ensures
            match r {
                Ok(frozen) => {
                    &&& Snapshot::capture(table_layout, hashmap.table.table, memory@) == Ok::<
                        Snapshot,
                        FrozenError,
                    >(frozen@)
                    &&& frozen@.well_formed()
                    &&& frozen.hashmap.hash_builder == hashmap.hash_builder
                },
                Err(e) => Snapshot::capture(table_layout, hashmap.table.table, memory@) == Err::<
                    Snapshot,
                    FrozenError,
                >(e),
            },
    {
        if hashmap.table.table.is_empty_singleton() {
            return Ok(FrozenHashMap { table_layout, hashmap, memory: Vec::new() });
        }
        match hashmap.table.table.allocation(&table_layout) {
            None => Err(FrozenError::LayoutOverflow),
            Some((_, allocated)) => {
                if memory.len() != allocated.size {
                    Err(FrozenError::SizeMismatch)
                } else {
                    Ok(FrozenHashMap { table_layout, hashmap, memory })
                }
            },
        }
    }

    /// Points the header at the snapshot's own buffer, taken to lie at
    /// address `base`: the control pointer becomes `base` plus the control
    /// offset. An empty buffer holds no table and is left as it is. A
    /// header or layout that no table has, or a buffer of another length
    /// than the table's allocation, is a size mismatch. On any error the
    /// snapshot is unchanged.
    pub fn reconstruct_at(&mut self, base: usize) -> (r: Result<Restored, FrozenError>)
        ensures
            (r, final(self)@) == old(self)@.restore(base),
            final(self).hashmap.hash_builder == old(self).hashmap.hash_builder,
    {
        if self.memory.is_empty() {
            return Ok(Restored::EmptySingleton);
        }
        if !self.table_layout.is_well_formed() || !self.hashmap.table.table.is_well_formed() {
            return Err(FrozenError::SizeMismatch);
        }
        if self.hashmap.table.table.is_empty_singleton() {
            return Err(FrozenError::SizeMismatch);
        }
        match self.hashmap.table.table.reallocation(&self.table_layout) {
            None => Err(FrozenError::LayoutOverflow),
            Some((offset, layout)) => {
                if layout.size != self.memory.len() {
                    return Err(FrozenError::SizeMismatch);
                }
                match base.checked_add(offset) {
                    None => Err(FrozenError::LayoutOverflow),
                    Some(address) => {
                        if address == 0 {
                            return Err(FrozenError::NullRelocation);
                        }
                        self.hashmap.table.table.ctrl = address;
                        Ok(Restored::TableView)
                    },
                }
            },
        }
    }

    /// Points the header at the snapshot's own buffer, where it lies now.
    /// The buffer must not be moved or resized afterwards: the control
    /// pointer is an absolute address into it.
    pub fn reconstruct(&mut self) -> (r: Result<Restored, FrozenError>)
        ensures
            exists|base: usize| base != 0 && (r, final(self)@) == old(self)@.restore(base),
            final(self).hashmap.hash_builder == old(self).hashmap.hash_builder,
    {
        let base: usize = buffer_address(&self.memory);
        self.reconstruct_at(base)
    }

    /// Number of entries of the table.
    pub fn len(&self) -> (r: usize)
        ensures
            r == self@.metadata.items,
    {
        self.hashmap.len()
    }
}

} // verus!
