//! Enumeration of the occupied slots of a frozen table.
//!
//! The control byte of bucket `i` is the `i`-th byte after the control
//! offset; the slot of bucket `i` ends `i` slots before the control offset.
//! A bucket is occupied where the top bit of its control byte is clear. The
//! scan walks the control bytes in ascending order and reports each occupied
//! slot by the offset of its first byte in the buffer.

use vstd::prelude::*;
use crate::frozen::{FrozenHashMap, Snapshot};
use crate::layout::lemma_round_up_is_multiple;

verus! {

/// Whether a control byte marks an occupied bucket.
pub open spec fn is_full(ctrl: u8) -> bool {
    ctrl < 0x80
}

/// The indices from `from` on, in ascending order, of the control bytes
/// that mark an occupied bucket.
pub open spec fn full_indices(ctrl: Seq<u8>, from: int) -> Seq<int>
    decreases ctrl.len(),
{
    if ctrl.len() == 0 || ctrl.len() <= from {
        Seq::empty()
    } else if is_full(ctrl.last()) {
        full_indices(ctrl.drop_last(), from).push(ctrl.len() - 1)
    } else {
        full_indices(ctrl.drop_last(), from)
    }
}

/// The first `limit` items of `s`, or all of `s` where it has fewer.
pub open spec fn first_items(s: Seq<int>, limit: nat) -> Seq<int> {
    if limit < s.len() {
        s.take(limit as int)
    } else {
        s
    }
}

/// The offsets in the buffer of the first `limit` occupied slots among the
/// buckets from `from` on, in ascending order of their control bytes. The
/// control bytes `ctrl` start at offset `base`, and a slot has `size` bytes.
pub open spec fn occupied_slots(
    ctrl: Seq<u8>,
    from: int,
    limit: nat,
    base: nat,
    size: nat,
) -> Seq<usize> {
    first_items(full_indices(ctrl, from), limit).map_values(
        |i: int| (base - (i + 1) * size) as usize,
    )
}

/// The indices that `full_indices` lists lie between `from` and the number
/// of control bytes, mark occupied buckets, and ascend.
pub proof fn lemma_full_indices_sound(ctrl: Seq<u8>, from: int)
    ensures
        forall|k: int|
            0 <= k < full_indices(ctrl, from).len() ==> {
                let i = #[trigger] full_indices(ctrl, from)[k];
                from <= i < ctrl.len() && 0 <= i && is_full(ctrl[i])
            },
        forall|k: int, l: int|
            0 <= k < l < full_indices(ctrl, from).len() ==> full_indices(ctrl, from)[k]
                < full_indices(ctrl, from)[l],
    decreases ctrl.len(),
{
    let all = full_indices(ctrl, from);
    if ctrl.len() == 0 || ctrl.len() <= from {
    } else {
        let shorter = full_indices(ctrl.drop_last(), from);
        lemma_full_indices_sound(ctrl.drop_last(), from);
        assert forall|k: int| 0 <= k < all.len() implies {
            let i = #[trigger] all[k];
            from <= i < ctrl.len() && 0 <= i && is_full(ctrl[i])
        } by {
            if k < shorter.len() {
                let i = shorter[k];
                assert(ctrl.drop_last()[i] == ctrl[i]);
            }
        }
        assert forall|k: int, l: int| 0 <= k < l < all.len() implies all[k] < all[l] by {
            if l < shorter.len() {
                assert(shorter[k] < shorter[l]);
            } else {
                assert(shorter[k] < ctrl.len() - 1);
            }
        }
    }
}

/// `full_indices` lists every index from `from` on that marks an occupied
/// bucket.
pub proof fn lemma_full_indices_complete(ctrl: Seq<u8>, from: int, i: int)
    requires
        0 <= i < ctrl.len(),
        from <= i,
        is_full(ctrl[i]),
    ensures
        full_indices(ctrl, from).contains(i),
    decreases ctrl.len(),
{
    let all = full_indices(ctrl, from);
    if i == ctrl.len() - 1 {
        assert(all[all.len() - 1] == i);
    } else {
        let shorter = full_indices(ctrl.drop_last(), from);
        lemma_full_indices_complete(ctrl.drop_last(), from, i);
        let k = choose|k: int| 0 <= k < shorter.len() && shorter[k] == i;
        assert(all[k] == i);
    }
}

/// There are no more occupied buckets from `from` on than buckets.
pub proof fn lemma_full_indices_len(ctrl: Seq<u8>, from: int)
    requires
        0 <= from,
    ensures
        full_indices(ctrl, from).len() <= ctrl.len() - from || full_indices(ctrl, from).len() == 0,
    decreases ctrl.len(),
{
    if ctrl.len() == 0 || ctrl.len() <= from {
    } else {
        lemma_full_indices_len(ctrl.drop_last(), from);
    }
}

/// A bucket that is not occupied adds nothing to the indices from it on.
proof fn lemma_full_indices_skip(ctrl: Seq<u8>, from: int)
    requires
        0 <= from < ctrl.len(),
        !is_full(ctrl[from]),
    ensures
        full_indices(ctrl, from) == full_indices(ctrl, from + 1),
    decreases ctrl.len(),
{
    if from + 1 < ctrl.len() {
        lemma_full_indices_skip(ctrl.drop_last(), from);
    } else {
        assert(full_indices(ctrl.drop_last(), from) =~= Seq::<int>::empty());
    }
}

/// An occupied bucket comes first among the indices from it on.
proof fn lemma_full_indices_first(ctrl: Seq<u8>, from: int)
    requires
        0 <= from < ctrl.len(),
        is_full(ctrl[from]),
    ensures
        full_indices(ctrl, from) == seq![from] + full_indices(ctrl, from + 1),
    decreases ctrl.len(),
{
    if from + 1 < ctrl.len() {
        lemma_full_indices_first(ctrl.drop_last(), from);
        assert(full_indices(ctrl, from) =~= seq![from] + full_indices(ctrl, from + 1));
    } else {
        assert(full_indices(ctrl.drop_last(), from) =~= Seq::<int>::empty());
        assert(full_indices(ctrl, from) =~= seq![from] + full_indices(ctrl, from + 1));
    }
}

impl Snapshot {
    /// The control bytes of the table's buckets.
    pub open spec fn ctrl_bytes(self) -> Seq<u8> {
        self.raw_bytes.subrange(
            self.ctrl_offset() as int,
            (self.ctrl_offset() + self.buckets()) as int,
        )
    }

    /// The offsets in the buffer of the occupied slots, as a scan of the
    /// control bytes meets them, up to the number of items that the header
    /// declares. None where the buffer holds no table.
    pub open spec fn slot_offsets(self) -> Seq<usize> {
        if self.holds_table() {
            occupied_slots(
                self.ctrl_bytes(),
                0,
                self.metadata.items as nat,
                self.ctrl_offset(),
                self.layout.size as nat,
            )
        } else {
            Seq::empty()
        }
    }

    /// The bytes of the occupied slots, in the order of `slot_offsets`.
    pub open spec fn entries(self) -> Seq<Seq<u8>> {
        self.slot_offsets().map_values(
            |offset: usize| self.raw_bytes.subrange(offset as int, offset + self.layout.size),
        )
    }
}

/// A scan over the control bytes of a frozen table that yields the offset
/// of each occupied slot. It borrows the table's buffer.
pub struct RawBucketIter<'a> {
    base: usize,
    cur: usize,
    end: usize,
    bucket_size: usize,
    items: usize,
    memory: &'a [u8],
}

impl<'a> RawBucketIter<'a> {
    #[verifier::type_invariant]
    spec fn inv(&self) -> bool {
        &&& self.base <= self.cur <= self.end <= self.memory@.len()
        &&& (self.end - self.base) * self.bucket_size <= self.base
    }

    /// The offsets that the scan has yet to yield, in order.
    pub closed spec fn remaining(&self) -> Seq<usize> {
        occupied_slots(
            self.memory@.subrange(self.base as int, self.end as int),
            self.cur - self.base,
            self.items as nat,
            self.base as nat,
            self.bucket_size as nat,
        )
    }

    /// The number of items that the scan still looks for.
    pub closed spec fn expected(&self) -> nat {
        self.items as nat
    }

    /// The offset of the next occupied slot. `None` once the scan has
    /// yielded as many offsets as the header declared items, or has passed
    /// the last control byte.
    pub fn next(&mut self) -> (r: Option<usize>)
        ensures
            match r {
                Some(offset) => {
                    &&& old(self).remaining().len() > 0
                    &&& offset == old(self).remaining()[0]
                    &&& final(self).remaining() == old(self).remaining().drop_first()
                    &&& final(self).expected() == old(self).expected() - 1
                },
                None => {
                    &&& old(self).remaining().len() == 0
                    &&& final(self).remaining().len() == 0
                    &&& final(self).expected() == old(self).expected()
                },
            },
    {
        proof {
            use_type_invariant(&*self);
        }
        if self.items == 0 {
            return None;
        }
        let ghost ctrl = self.memory@.subrange(self.base as int, self.end as int);
        while self.cur < self.end
            invariant
                self.base <= self.cur <= self.end <= self.memory@.len(),
                (self.end - self.base) * self.bucket_size <= self.base,
                self.base == old(self).base,
                self.end == old(self).end,
                self.bucket_size == old(self).bucket_size,
                self.items == old(self).items,
                self.memory == old(self).memory,
                self.items > 0,
                ctrl == self.memory@.subrange(self.base as int, self.end as int),
                full_indices(ctrl, self.cur - self.base) == full_indices(
                    ctrl,
                    old(self).cur - old(self).base,
                ),
            decreases self.end - self.cur,
        {
            let byte: u8 = self.memory[self.cur];
            let full: bool = (byte & 0x80) == 0;
            let ghost index: int = self.cur - self.base;
            proof {
                assert(((byte & 0x80) == 0) == (byte < 0x80)) by (bit_vector);
                assert(ctrl[index] == byte);
                if full {
                    lemma_full_indices_first(ctrl, index);
                } else {
                    lemma_full_indices_skip(ctrl, index);
                }
            }
            self.cur = self.cur + 1;
            if full {
                let count: usize = self.cur - self.base;
                proof {
                    assert(count * self.bucket_size <= self.base) by (nonlinear_arith)
                        requires
                            count <= self.end - self.base,
                            (self.end - self.base) * self.bucket_size <= self.base,
                    ;
                    let rest = full_indices(ctrl, index + 1);
                    let before = first_items(seq![index] + rest, self.items as nat);
                    let after = first_items(rest, (self.items - 1) as nat);
                    assert(before.drop_first() =~= after);
                    assert(before[0] == index);
                }
                let offset: usize = self.base - count * self.bucket_size;
                self.items = self.items - 1;
                assert(final(self).remaining() =~= old(self).remaining().drop_first());
                return Some(offset);
            }
        }
        None
    }

    /// Bounds on the number of offsets still to come: the number of items
    /// that the scan still looks for, as both bounds.
    pub fn size_hint(&self) -> (r: (usize, Option<usize>))
        ensures
            r.0 == self.expected(),
            r.1 == Some(r.0),
    {
        (self.items, Some(self.items))
    }
}

impl<S> FrozenHashMap<S> {
    /// A scan over the occupied slots of this table, where its buffer holds
    /// one.
    pub fn raw_iter<'a>(&'a self) -> (r: Option<RawBucketIter<'a>>)
        ensures
            match r {
                Some(iter) => {
                    &&& self@.holds_table()
                    &&& iter.remaining() == self@.slot_offsets()
                    &&& iter.expected() == self@.metadata.items
                },
                None => !self@.holds_table(),
            },
    {
        if !self.table_layout.is_well_formed() || !self.hashmap.table.table.is_well_formed() {
            return None;
        }
        let len: usize = self.memory.len();
        match self.hashmap.table.table.reallocation(&self.table_layout) {
            Some((offset, layout)) => {
                if layout.size != len {
                    return None;
                }
                let buckets: usize = self.hashmap.table.table.buckets();
                proof {
                    lemma_round_up_is_multiple(
                        self.table_layout.size as nat * buckets as nat,
                        self.table_layout.ctrl_align as nat,
                    );
                    assert(buckets * self.table_layout.size == self.table_layout.size as nat
                        * buckets as nat) by (nonlinear_arith);
                    assert(self.memory@.subrange(offset as int, offset + buckets)
                        == self@.ctrl_bytes());
                }
                Some(
                    RawBucketIter {
                        base: offset,
                        cur: offset,
                        end: offset + buckets,
                        bucket_size: self.table_layout.size,
                        items: self.hashmap.table.table.items,
                        memory: self.memory.as_slice(),
                    },
                )
            },
            None => None,
        }
    }
}

} // verus!
