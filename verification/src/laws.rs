//! What holds of capture, blob, restore and scan together.

use vstd::prelude::*;
use crate::blob::{lemma_word_round_trip, word_at, word_bytes, ByteOrder, HEADER_LEN};
use crate::error::{FrozenError, Restored};
use crate::frozen::{RawTableInner, Snapshot};
use crate::iter::{
    first_items, full_indices, is_full, lemma_full_indices_len, lemma_full_indices_sound,
};
use crate::layout::{lemma_round_up_is_multiple, TableLayout};

verus! {

/// The snapshot `s` with its control pointer set to zero: what a blob keeps
/// of `s`.
pub open spec fn without_address(s: Snapshot) -> Snapshot {
    Snapshot { metadata: RawTableInner { ctrl: 0, ..s.metadata }, ..s }
}

/// The words of a blob are the header's fields, and the buffer follows
/// them.
pub proof fn lemma_blob_layout(s: Snapshot, order: ByteOrder)
    requires
        s.raw_bytes.len() <= usize::MAX,
    ensures
        s.encode(order).len() == HEADER_LEN + s.raw_bytes.len(),
        word_at(s.encode(order), 0, order) == s.layout.size,
        word_at(s.encode(order), 1, order) == s.layout.ctrl_align,
        word_at(s.encode(order), 2, order) == s.metadata.bucket_mask,
        word_at(s.encode(order), 3, order) == 0,
        word_at(s.encode(order), 4, order) == s.metadata.growth_left,
        word_at(s.encode(order), 5, order) == s.metadata.items,
        word_at(s.encode(order), 6, order) == s.raw_bytes.len(),
        s.encode(order).skip(HEADER_LEN as int) == s.raw_bytes,
{
    let w0 = word_bytes(s.layout.size as u64, order);
    let w1 = word_bytes(s.layout.ctrl_align as u64, order);
    let w2 = word_bytes(s.metadata.bucket_mask as u64, order);
    let w3 = word_bytes(0, order);
    let w4 = word_bytes(s.metadata.growth_left as u64, order);
    let w5 = word_bytes(s.metadata.items as u64, order);
    let w6 = word_bytes(s.raw_bytes.len() as u64, order);
    lemma_word_round_trip(s.layout.size as u64, order);
    lemma_word_round_trip(s.layout.ctrl_align as u64, order);
    lemma_word_round_trip(s.metadata.bucket_mask as u64, order);
    lemma_word_round_trip(0, order);
    lemma_word_round_trip(s.metadata.growth_left as u64, order);
    lemma_word_round_trip(s.metadata.items as u64, order);
    lemma_word_round_trip(s.raw_bytes.len() as u64, order);
    lemma_seven_words(w0, w1, w2, w3, w4, w5, w6, s.raw_bytes);
}

/// Where seven words and a tail lie in their concatenation.
proof fn lemma_seven_words(
    w0: Seq<u8>,
    w1: Seq<u8>,
    w2: Seq<u8>,
    w3: Seq<u8>,
    w4: Seq<u8>,
    w5: Seq<u8>,
    w6: Seq<u8>,
    tail: Seq<u8>,
)
    requires
        w0.len() == 8,
        w1.len() == 8,
        w2.len() == 8,
        w3.len() == 8,
        w4.len() == 8,
        w5.len() == 8,
        w6.len() == 8,
    ensures
        ({
            let all = w0 + w1 + w2 + w3 + w4 + w5 + w6 + tail;
            &&& all.len() == 56 + tail.len()
            &&& all.subrange(0, 8) == w0
            &&& all.subrange(8, 16) == w1
            &&& all.subrange(16, 24) == w2
            &&& all.subrange(24, 32) == w3
            &&& all.subrange(32, 40) == w4
            &&& all.subrange(40, 48) == w5
            &&& all.subrange(48, 56) == w6
            &&& all.skip(56) == tail
        }),
{
    let all = w0 + w1 + w2 + w3 + w4 + w5 + w6 + tail;
    assert(all.subrange(0, 8) =~= w0);
    assert(all.subrange(8, 16) =~= w1);
    assert(all.subrange(16, 24) =~= w2);
    assert(all.subrange(24, 32) =~= w3);
    assert(all.subrange(32, 40) =~= w4);
    assert(all.subrange(40, 48) =~= w5);
    assert(all.subrange(48, 56) =~= w6);
    assert(all.skip(56) =~= tail);
}

/// Decoding the blob of a snapshot gives the snapshot back, but for the
/// control pointer.
pub proof fn lemma_decode_encode(s: Snapshot, order: ByteOrder)
    requires
        s.raw_bytes.len() <= usize::MAX,
    ensures
        Snapshot::decode(s.encode(order), order) == Ok::<Snapshot, FrozenError>(without_address(s)),
{
    lemma_blob_layout(s, order);
}

/// A blob does not depend on where the table's control bytes lay: snapshots
/// that differ in the control pointer alone have the same blob.
pub proof fn lemma_blob_ignores_address(a: Snapshot, b: Snapshot, order: ByteOrder)
    requires
        without_address(a) == without_address(b),
    ensures
        a.encode(order) == b.encode(order),
{
}

/// A blob that lost bytes at its end does not decode: with one or more
/// bytes cut off, decoding reports a truncated header or a length that
/// disagrees.
pub proof fn lemma_truncation_detected(s: Snapshot, order: ByteOrder, cut: nat)
    requires
        s.raw_bytes.len() <= usize::MAX,
        0 < cut <= s.encode(order).len(),
    ensures
        ({
            let blob = s.encode(order);
            let r = Snapshot::decode(blob.take(blob.len() - cut), order);
            r == Err::<Snapshot, FrozenError>(FrozenError::TruncatedBlob) || r == Err::<
                Snapshot,
                FrozenError,
            >(FrozenError::TrailingOrMissingBytes)
        }),
{
    let blob = s.encode(order);
    let short = blob.take(blob.len() - cut);
    lemma_blob_layout(s, order);
    if short.len() >= HEADER_LEN {
        assert(short.subrange(48, 56) =~= blob.subrange(48, 56));
    }
}

/// The address of a snapshot's control bytes has no part in what a scan
/// yields, nor has the growth left: snapshots with the same layout, bucket
/// mask, number of items and buffer yield the same offsets and entries.
pub proof fn lemma_scan_ignores_address(a: Snapshot, b: Snapshot)
    requires
        a.layout == b.layout,
        a.metadata.bucket_mask == b.metadata.bucket_mask,
        a.metadata.items == b.metadata.items,
        a.raw_bytes == b.raw_bytes,
    ensures
        a.slot_offsets() == b.slot_offsets(),
        a.entries() == b.entries(),
{
    assert(a.entries() =~= b.entries());
}

/// Two captures of one table in one state, taken wherever its allocation
/// lies, yield the same offsets in the same order.
pub proof fn lemma_order_stability(
    layout: TableLayout,
    first: RawTableInner,
    second: RawTableInner,
    bytes: Seq<u8>,
)
    requires
        first.bucket_mask == second.bucket_mask,
        first.growth_left == second.growth_left,
        first.items == second.items,
        Snapshot::capture(layout, first, bytes) is Ok,
        Snapshot::capture(layout, second, bytes) is Ok,
    ensures
        Snapshot::capture(layout, first, bytes)->Ok_0.slot_offsets() == Snapshot::capture(
            layout,
            second,
            bytes,
        )->Ok_0.slot_offsets(),
{
    lemma_scan_ignores_address(
        Snapshot::capture(layout, first, bytes)->Ok_0,
        Snapshot::capture(layout, second, bytes)->Ok_0,
    );
}

/// A capture that succeeds gives a well-formed snapshot.
pub proof fn lemma_capture_well_formed(layout: TableLayout, metadata: RawTableInner, bytes: Seq<u8>)
    requires
        layout.well_formed(),
        metadata.well_formed(),
        Snapshot::capture(layout, metadata, bytes) is Ok,
    ensures
        Snapshot::capture(layout, metadata, bytes)->Ok_0.well_formed(),
        metadata.bucket_mask != 0 ==> Snapshot::capture(layout, metadata, bytes)->Ok_0.holds_table(),
{
}

/// A table that never allocated is captured with an empty buffer, whatever
/// bytes are offered; a restore of that snapshot reports the empty
/// singleton and changes nothing; and a scan of it yields no offset.
pub proof fn lemma_empty_table(
    layout: TableLayout,
    metadata: RawTableInner,
    bytes: Seq<u8>,
    base: usize,
)
    requires
        metadata.bucket_mask == 0,
    ensures
        Snapshot::capture(layout, metadata, bytes) == Ok::<Snapshot, FrozenError>(
            Snapshot { layout, metadata, raw_bytes: Seq::empty() },
        ),
        ({
            let s = Snapshot { layout, metadata, raw_bytes: Seq::empty() };
            &&& s.restore(base) == (Ok::<Restored, FrozenError>(Restored::EmptySingleton), s)
            &&& !s.holds_table()
            &&& s.slot_offsets().len() == 0
            &&& s.entries().len() == 0
        }),
{
}

/// A restore that finds a table changes the control pointer and nothing
/// else, and makes it the address of the first control byte in the buffer.
pub proof fn lemma_restore_patches_address(s: Snapshot, base: usize)
    requires
        s.restore(base).0 == Ok::<Restored, FrozenError>(Restored::TableView),
    ensures
        s.holds_table(),
        s.restore(base).1.metadata.ctrl == base + s.ctrl_offset(),
        s.restore(base).1.metadata.ctrl != 0,
        without_address(s.restore(base).1) == without_address(s),
{
}

/// A restore finds a table exactly where the buffer holds one and the
/// address of its control bytes is a `usize` other than zero.
pub proof fn lemma_restore_succeeds(s: Snapshot, base: usize)
    ensures
        s.restore(base).0 == Ok::<Restored, FrozenError>(Restored::TableView) <==> s.holds_table()
            && 0 < base + s.ctrl_offset() <= usize::MAX,
        s.restore(base).0 is Err ==> s.restore(base).1 == s,
{
    if s.holds_table() {
        lemma_span_covers_slots(s);
    }
}

/// In a snapshot that holds a table, the slots end where the control bytes
/// start, and the control bytes end a group width before the buffer's end.
pub proof fn lemma_span_covers_slots(s: Snapshot)
    requires
        s.holds_table(),
    ensures
        s.buckets() * s.layout.size <= s.ctrl_offset(),
        s.ctrl_offset() + s.buckets() + crate::Group::WIDTH == s.raw_bytes.len(),
        s.ctrl_bytes().len() == s.buckets(),
{
    lemma_round_up_is_multiple(s.layout.size as nat * s.buckets(), s.layout.ctrl_align as nat);
    assert(s.buckets() * s.layout.size == s.layout.size as nat * s.buckets())
        by (nonlinear_arith);
}

/// What a scan yields: no more offsets than the header declares items;
/// each is the offset of the slot of an occupied bucket, and that slot lies
/// in the buffer, before the control bytes; and the buckets come in
/// ascending order, so the offsets descend.
pub proof fn lemma_scan_yields_occupied_slots(s: Snapshot)
    requires
        s.holds_table(),
    ensures
        s.slot_offsets().len() <= s.metadata.items,
        s.slot_offsets().len() <= s.buckets(),
        s.slot_offsets().len() == first_items(
            full_indices(s.ctrl_bytes(), 0),
            s.metadata.items as nat,
        ).len(),
        forall|k: int|
            0 <= k < s.slot_offsets().len() ==> {
                let i = full_indices(s.ctrl_bytes(), 0)[k];
                &&& 0 <= i < s.buckets()
                &&& is_full(s.ctrl_bytes()[i])
                &&& (#[trigger] s.slot_offsets()[k]) == s.ctrl_offset() - (i + 1) * s.layout.size
                &&& s.slot_offsets()[k] + s.layout.size <= s.ctrl_offset()
                &&& s.ctrl_offset() <= s.raw_bytes.len()
            },
        forall|k: int, l: int|
            0 <= k < l < s.slot_offsets().len() ==> full_indices(s.ctrl_bytes(), 0)[k]
                < full_indices(s.ctrl_bytes(), 0)[l],
        forall|k: int, l: int|
            0 <= k < l < s.slot_offsets().len() ==> (#[trigger] s.slot_offsets()[l])
                + s.layout.size <= #[trigger] s.slot_offsets()[k],
{
    let ctrl = s.ctrl_bytes();
    let full = full_indices(ctrl, 0);
    let size = s.layout.size as int;
    let base = s.ctrl_offset() as int;
    lemma_span_covers_slots(s);
    lemma_full_indices_sound(ctrl, 0);
    lemma_full_indices_len(ctrl, 0);
    assert forall|k: int| 0 <= k < s.slot_offsets().len() implies {
        let i = full[k];
        &&& 0 <= i < s.buckets()
        &&& is_full(ctrl[i])
        &&& (#[trigger] s.slot_offsets()[k]) == base - (i + 1) * size
        &&& s.slot_offsets()[k] + size <= base
        &&& base <= s.raw_bytes.len()
    } by {
        let i = full[k];
        assert(first_items(full, s.metadata.items as nat)[k] == i);
        assert(0 <= i < s.buckets());
        assert((i + 1) * size <= s.buckets() * size) by (nonlinear_arith)
            requires
                0 <= i + 1 <= s.buckets(),
                0 <= size,
        ;
        assert((i + 1) * size >= size) by (nonlinear_arith)
            requires
                0 <= i,
                0 <= size,
        ;
    }
    assert forall|k: int, l: int| 0 <= k < l < s.slot_offsets().len() implies (
    #[trigger] s.slot_offsets()[l]) + size <= #[trigger] s.slot_offsets()[k] by {
        let i = full[k];
        let j = full[l];
        assert((j + 1) * size >= (i + 1) * size + size) by (nonlinear_arith)
            requires
                0 <= i < j,
                0 <= size,
        ;
    }
}

/// A scan yields exactly as many offsets as the header declares items,
/// provided that many buckets are occupied.
pub proof fn lemma_scan_yields_every_item(s: Snapshot)
    requires
        s.holds_table(),
        s.metadata.items <= full_indices(s.ctrl_bytes(), 0).len(),
    ensures
        s.slot_offsets().len() == s.metadata.items,
{
}

/// The round trip: a snapshot that went through a blob and a restore holds
/// the bytes it held and yields the offsets and entries it yielded; and the
/// restore finds a table in it where the snapshot held one, so long as the
/// address of the control bytes is a `usize` other than zero.
pub proof fn lemma_round_trip(s: Snapshot, order: ByteOrder, base: usize)
    requires
        s.raw_bytes.len() <= usize::MAX,
    ensures
        Snapshot::decode(s.encode(order), order) is Ok,
        ({
            let decoded = Snapshot::decode(s.encode(order), order)->Ok_0;
            let (outcome, restored) = decoded.restore(base);
            &&& restored.layout == s.layout
            &&& restored.metadata.bucket_mask == s.metadata.bucket_mask
            &&& restored.metadata.growth_left == s.metadata.growth_left
            &&& restored.metadata.items == s.metadata.items
            &&& restored.raw_bytes == s.raw_bytes
            &&& restored.slot_offsets() == s.slot_offsets()
            &&& restored.entries() == s.entries()
            &&& s.holds_table() && 0 < base + s.ctrl_offset() <= usize::MAX ==> {
                &&& outcome == Ok::<Restored, FrozenError>(Restored::TableView)
                &&& restored.metadata.ctrl == base + s.ctrl_offset()
            }
            &&& s.raw_bytes.len() == 0 ==> {
                &&& outcome == Ok::<Restored, FrozenError>(Restored::EmptySingleton)
            }
        }),
{
    lemma_decode_encode(s, order);
    let decoded = without_address(s);
    lemma_restore_succeeds(decoded, base);
    let restored = decoded.restore(base).1;
    lemma_scan_ignores_address(restored, s);
}

} // verus!
