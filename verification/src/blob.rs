//! The blob: a snapshot as a flat sequence of bytes.
//!
//! A blob is seven words of eight bytes each, followed by the snapshot's
//! buffer. The words are, in this order: the slot size, the control
//! alignment, the bucket mask, a placeholder for the control pointer, the
//! growth left, the number of items, and the length of the buffer. The
//! placeholder is written as zero and not read back: an address means
//! nothing outside the process that took it. The hasher's keys are not part
//! of a blob.

use vstd::prelude::*;
use vstd::slice::{slice_subrange, slice_to_vec};
use crate::error::FrozenError;
use crate::frozen::{FrozenHashMap, HashMap, RandomState, RawTable, RawTableInner, Snapshot};
use crate::layout::TableLayout;

verus! {

/// The order of the bytes of a word.
#[derive(Debug, Clone, Copy, PartialEq, Eq, Structural)]
pub enum ByteOrder {
    /// Least significant byte first.
    Little,
    /// Most significant byte first.
    Big,
}

/// Number of bytes in a blob before the buffer.
pub const HEADER_LEN: usize = 56;

/// The eight bytes of `x`, least significant first.
pub open spec fn le_bytes(x: u64) -> Seq<u8> {
    seq![
        (x % 0x100) as u8,
        (x / 0x100 % 0x100) as u8,
        (x / 0x1_0000 % 0x100) as u8,
        (x / 0x100_0000 % 0x100) as u8,
        (x / 0x1_0000_0000 % 0x100) as u8,
        (x / 0x100_0000_0000 % 0x100) as u8,
        (x / 0x1_0000_0000_0000 % 0x100) as u8,
        (x / 0x100_0000_0000_0000 % 0x100) as u8,
    ]
}

/// The number whose bytes, least significant first, are the first eight
/// of `b`.
pub open spec fn le_value(b: Seq<u8>) -> nat
    recommends
        b.len() == 8,
{
    b[0] as nat
        + b[1] as nat * 0x100
        + b[2] as nat * 0x1_0000
        + b[3] as nat * 0x100_0000
        + b[4] as nat * 0x1_0000_0000
        + b[5] as nat * 0x100_0000_0000
        + b[6] as nat * 0x1_0000_0000_0000
        + b[7] as nat * 0x100_0000_0000_0000
}

/// The eight bytes of `x` in the given order.
pub open spec fn word_bytes(x: u64, order: ByteOrder) -> Seq<u8> {
    match order {
        ByteOrder::Little => le_bytes(x),
        ByteOrder::Big => le_bytes(x).reverse(),
    }
}

/// The number that eight bytes in the given order stand for.
pub open spec fn word_value(b: Seq<u8>, order: ByteOrder) -> nat
    recommends
        b.len() == 8,
{
    match order {
        ByteOrder::Little => le_value(b),
        ByteOrder::Big => le_value(b.reverse()),
    }
}

/// The `index`-th word of a blob.
pub open spec fn word_at(blob: Seq<u8>, index: int, order: ByteOrder) -> nat
    recommends
        0 <= index,
        8 * index + 8 <= blob.len(),
{
    word_value(blob.subrange(8 * index, 8 * index + 8), order)
}

/// Reading back the bytes of a word gives the word.
pub proof fn lemma_word_round_trip(x: u64, order: ByteOrder)
    ensures
        word_bytes(x, order).len() == 8,
        word_value(word_bytes(x, order), order) == x,
{
    let b = le_bytes(x);
    assert(x % 0x100
        + x / 0x100 % 0x100 * 0x100
        + x / 0x1_0000 % 0x100 * 0x1_0000
        + x / 0x100_0000 % 0x100 * 0x100_0000
        + x / 0x1_0000_0000 % 0x100 * 0x1_0000_0000
        + x / 0x100_0000_0000 % 0x100 * 0x100_0000_0000
        + x / 0x1_0000_0000_0000 % 0x100 * 0x1_0000_0000_0000
        + x / 0x100_0000_0000_0000 % 0x100 * 0x100_0000_0000_0000 == x) by (bit_vector);
    assert(le_value(b) == x);
    if order == ByteOrder::Big {
        assert(b.reverse().reverse() =~= b);
    }
}

impl Snapshot {
    /// The seven words that a blob of this snapshot starts with.
    pub open spec fn header(self, order: ByteOrder) -> Seq<u8> {
        word_bytes(self.layout.size as u64, order)
            + word_bytes(self.layout.ctrl_align as u64, order)
            + word_bytes(self.metadata.bucket_mask as u64, order)
            + word_bytes(0, order)
            + word_bytes(self.metadata.growth_left as u64, order)
            + word_bytes(self.metadata.items as u64, order)
            + word_bytes(self.raw_bytes.len() as u64, order)
    }

    /// The blob of this snapshot.
    pub open spec fn encode(self, order: ByteOrder) -> Seq<u8> {
        self.header(order) + self.raw_bytes
    }

    /// The snapshot that a blob holds. The blob must hold the whole header,
    /// and after it exactly as many bytes as the header's last word says.
    /// The control pointer of the result is zero. A word is taken as a
    /// `usize`, which it fits where a `usize` has eight bytes.
    pub open spec fn decode(blob: Seq<u8>, order: ByteOrder) -> Result<Snapshot, FrozenError> {
        if blob.len() < HEADER_LEN {
            Err(FrozenError::TruncatedBlob)
        } else if HEADER_LEN + word_at(blob, 6, order) != blob.len() {
            Err(FrozenError::TrailingOrMissingBytes)
        } else {
            Ok(
                Snapshot {
                    layout: TableLayout {
                        size: word_at(blob, 0, order) as usize,
                        ctrl_align: word_at(blob, 1, order) as usize,
                    },
                    metadata: RawTableInner {
                        bucket_mask: word_at(blob, 2, order) as usize,
                        ctrl: 0,
                        growth_left: word_at(blob, 4, order) as usize,
                        items: word_at(blob, 5, order) as usize,
                    },
                    raw_bytes: blob.skip(HEADER_LEN as int),
                },
            )
        }
    }
}

/// `u64::to_ne_bytes`: the bytes of `x` as the host keeps them in memory,
/// which is one of the two orders.
#[verifier::external_body]
fn native_bytes(x: u64) -> (r: [u8; 8])
    ensures
        r@ == word_bytes(x, ByteOrder::Little) || r@ == word_bytes(x, ByteOrder::Big),
{
    x.to_ne_bytes()
}

impl ByteOrder {
    /// The order in which the host keeps the bytes of a word.
    fn native() -> (r: ByteOrder) {
        let probe: [u8; 8] = native_bytes(1);
        ByteOrder::of_one(&probe)
    }

    /// The order that `bytes` are in, taken to stand for the number one:
    /// little where the one comes first, else big.
    pub open spec fn spec_of_one(bytes: Seq<u8>) -> ByteOrder {
        if bytes[0] == 1 {
            ByteOrder::Little
        } else {
            ByteOrder::Big
        }
    }

    /// The order that `bytes` are in, taken to stand for the number one.
    /// Where they are the bytes of one in either order, that order is the
    /// result.
    pub fn of_one(bytes: &[u8; 8]) -> (r: ByteOrder)
        ensures
            r == ByteOrder::spec_of_one(bytes@),
            forall|order: ByteOrder| bytes@ == #[trigger] word_bytes(1, order) ==> r == order,
    {
        if bytes[0] == 1 {
            ByteOrder::Little
        } else {
            ByteOrder::Big
        }
    }
}

/// Appends the bytes of `x` in the given order.
pub fn push_word(out: &mut Vec<u8>, x: u64, order: ByteOrder)
    ensures
        final(out)@ == old(out)@ + word_bytes(x, order),
{
    let b0: u8 = (x % 0x100) as u8;
    let b1: u8 = (x / 0x100 % 0x100) as u8;
    let b2: u8 = (x / 0x1_0000 % 0x100) as u8;
    let b3: u8 = (x / 0x100_0000 % 0x100) as u8;
    let b4: u8 = (x / 0x1_0000_0000 % 0x100) as u8;
    let b5: u8 = (x / 0x100_0000_0000 % 0x100) as u8;
    let b6: u8 = (x / 0x1_0000_0000_0000 % 0x100) as u8;
    let b7: u8 = (x / 0x100_0000_0000_0000 % 0x100) as u8;
    match order {
        ByteOrder::Little => {
            out.push(b0);
            out.push(b1);
            out.push(b2);
            out.push(b3);
            out.push(b4);
            out.push(b5);
            out.push(b6);
            out.push(b7);
        },
        ByteOrder::Big => {
            out.push(b7);
            out.push(b6);
            out.push(b5);
            out.push(b4);
            out.push(b3);
            out.push(b2);
            out.push(b1);
            out.push(b0);
        },
    }
    assert(out@ =~= old(out)@ + word_bytes(x, order));
}

/// The `index`-th word of a blob.
pub fn read_word(blob: &[u8], index: usize, order: ByteOrder) -> (r: u64)
    requires
        8 * index + 8 <= blob@.len(),
    ensures
        r == word_at(blob@, index as int, order),
{
    let len: usize = blob.len();
    assert(8 * index + 8 <= len);
    let at: usize = 8 * index;
    let (b0, b1, b2, b3, b4, b5, b6, b7): (u8, u8, u8, u8, u8, u8, u8, u8) = match order {
        ByteOrder::Little => (
            blob[at],
            blob[at + 1],
            blob[at + 2],
            blob[at + 3],
            blob[at + 4],
            blob[at + 5],
            blob[at + 6],
            blob[at + 7],
        ),
        ByteOrder::Big => (
            blob[at + 7],
            blob[at + 6],
            blob[at + 5],
            blob[at + 4],
            blob[at + 3],
            blob[at + 2],
            blob[at + 1],
            blob[at],
        ),
    };
    b0 as u64
        + b1 as u64 * 0x100
        + b2 as u64 * 0x1_0000
        + b3 as u64 * 0x100_0000
        + b4 as u64 * 0x1_0000_0000
        + b5 as u64 * 0x100_0000_0000
        + b6 as u64 * 0x1_0000_0000_0000
        + b7 as u64 * 0x100_0000_0000_0000
}

impl FrozenHashMap<RandomState> {
    /// The blob of this snapshot, its words in the given byte order.
    pub fn store_with(&self, order: ByteOrder) -> (bytes: Vec<u8>)
        ensures
            bytes@ == self@.encode(order),
    {
        let mut bytes: Vec<u8> = Vec::new();
        push_word(&mut bytes, self.table_layout.size as u64, order);
        push_word(&mut bytes, self.table_layout.ctrl_align as u64, order);
        push_word(&mut bytes, self.hashmap.table.table.bucket_mask as u64, order);
        push_word(&mut bytes, 0, order);
        push_word(&mut bytes, self.hashmap.table.table.growth_left as u64, order);
        push_word(&mut bytes, self.hashmap.table.table.items as u64, order);
        push_word(&mut bytes, self.memory.len() as u64, order);
        let ghost header = bytes@;
        bytes.extend_from_slice(self.memory.as_slice());
        assert(bytes@ =~= header + self.memory@);
        bytes
    }

    /// The blob of this snapshot, its words in the host's byte order.
    pub fn store(&self) -> (bytes: Vec<u8>)
        ensures
            bytes@ == self@.encode(ByteOrder::Little) || bytes@ == self@.encode(ByteOrder::Big),
    {
        self.store_with(ByteOrder::native())
    }

    /// Whether `r` is what decoding `blob` in the given byte order gives:
    /// the snapshot that the blob holds, with a hasher whose keys are zero,
    /// or the error that the blob has.
    pub open spec fn load_outcome(
        r: Result<Self, FrozenError>,
        blob: Seq<u8>,
        order: ByteOrder,
    ) -> bool {
        match r {
            Ok(frozen) => {
                &&& Snapshot::decode(blob, order) == Ok::<Snapshot, FrozenError>(frozen@)
                &&& frozen.hashmap.hash_builder == (RandomState { k0: 0, k1: 0 })
            },
            Err(e) => Snapshot::decode(blob, order) == Err::<Snapshot, FrozenError>(e),
        }
    }

    /// The snapshot that a blob with words in the given byte order holds.
    /// Only the framing is checked; whether header and layout are those of
    /// a table is for the restore to find out. The hasher's keys of the
    /// result are zero.
    pub fn load_with(bytes: &[u8], order: ByteOrder) -> (r: Result<Self, FrozenError>)
        ensures
            FrozenHashMap::load_outcome(r, bytes@, order),
    {
        if bytes.len() < HEADER_LEN {
            return Err(FrozenError::TruncatedBlob);
        }
        let size: u64 = read_word(bytes, 0, order);
        let ctrl_align: u64 = read_word(bytes, 1, order);
        let bucket_mask: u64 = read_word(bytes, 2, order);
        let growth_left: u64 = read_word(bytes, 4, order);
        let items: u64 = read_word(bytes, 5, order);
        let length: u64 = read_word(bytes, 6, order);
        if length != (bytes.len() - HEADER_LEN) as u64 {
            return Err(FrozenError::TrailingOrMissingBytes);
        }
        let memory: Vec<u8> = slice_to_vec(slice_subrange(bytes, HEADER_LEN, bytes.len()));
        assert(memory@ =~= bytes@.skip(HEADER_LEN as int));
        Ok(
            FrozenHashMap {
                table_layout: TableLayout {
                    size: #[verifier::truncate] (size as usize),
                    ctrl_align: #[verifier::truncate] (ctrl_align as usize),
                },
                hashmap: HashMap {
                    hash_builder: RandomState { k0: 0, k1: 0 },
                    table: RawTable {
                        table: RawTableInner {
                            bucket_mask: #[verifier::truncate] (bucket_mask as usize),
                            ctrl: 0,
                            growth_left: #[verifier::truncate] (growth_left as usize),
                            items: #[verifier::truncate] (items as usize),
                        },
                    },
                },
                memory,
            },
        )
    }

    /// The snapshot that a blob with words in the host's byte order holds.
    pub fn load(bytes: &[u8]) -> (r: Result<Self, FrozenError>)
        ensures
            ({
                ||| FrozenHashMap::load_outcome(r, bytes@, ByteOrder::Little)
                ||| FrozenHashMap::load_outcome(r, bytes@, ByteOrder::Big)
            }),
    {
        Self::load_with(bytes, ByteOrder::native())
    }
}

} // verus!
