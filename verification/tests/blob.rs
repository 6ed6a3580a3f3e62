use frozen_hashbrown::blob::{push_word, read_word, HEADER_LEN};
use frozen_hashbrown::{
    ByteOrder, FrozenError, FrozenHashMap, HashMap, RandomState, RawTable, RawTableInner,
    TableLayout,
};

fn frozen(memory: Vec<u8>) -> FrozenHashMap {
    FrozenHashMap {
        table_layout: TableLayout { size: 0x0102, ctrl_align: 16 },
        hashmap: HashMap {
            hash_builder: RandomState { k0: 11, k1: 22 },
            table: RawTable {
                table: RawTableInner {
                    bucket_mask: 7,
                    ctrl: 0x7f00_dead_beef,
                    growth_left: 3,
                    items: 0x0a0b_0c0d,
                },
            },
        },
        memory,
    }
}

fn native() -> ByteOrder {
    if 1u64.to_ne_bytes()[0] == 1 {
        ByteOrder::Little
    } else {
        ByteOrder::Big
    }
}

#[test]
fn header_is_seven_words() {
    assert_eq!(HEADER_LEN, 56);
}

#[test]
fn words_are_written_in_either_order() {
    let mut out = vec![0xEE];
    push_word(&mut out, 0x0102_0304_0506_0708, ByteOrder::Little);
    assert_eq!(out, vec![0xEE, 8, 7, 6, 5, 4, 3, 2, 1]);
    push_word(&mut out, 0x0102_0304_0506_0708, ByteOrder::Big);
    assert_eq!(out, vec![0xEE, 8, 7, 6, 5, 4, 3, 2, 1, 1, 2, 3, 4, 5, 6, 7, 8]);

    let mut all = Vec::new();
    push_word(&mut all, u64::MAX, ByteOrder::Little);
    push_word(&mut all, 0, ByteOrder::Big);
    push_word(&mut all, 0x80, ByteOrder::Big);
    assert_eq!(all[..8], [0xFF; 8]);
    assert_eq!(all[8..16], [0; 8]);
    assert_eq!(all[16..], [0, 0, 0, 0, 0, 0, 0, 0x80]);
}

#[test]
fn words_are_read_in_either_order() {
    let blob: Vec<u8> = (1..=24).collect();
    assert_eq!(read_word(&blob, 0, ByteOrder::Little), 0x0807_0605_0403_0201);
    assert_eq!(read_word(&blob, 0, ByteOrder::Big), 0x0102_0304_0506_0708);
    assert_eq!(read_word(&blob, 1, ByteOrder::Little), 0x100f_0e0d_0c0b_0a09);
    assert_eq!(read_word(&blob, 2, ByteOrder::Big), 0x1112_1314_1516_1718);
    assert_eq!(read_word(&[0xFF; 8], 0, ByteOrder::Big), u64::MAX);
}

#[test]
fn words_agree_with_the_integer_conversions() {
    for x in [0u64, 1, 0xFF, 0x100, 0x1234_5678_9abc_def0, u64::MAX, 1 << 63, 88] {
        let mut le = Vec::new();
        push_word(&mut le, x, ByteOrder::Little);
        assert_eq!(le, x.to_le_bytes().to_vec());
        assert_eq!(read_word(&le, 0, ByteOrder::Little), x);
        let mut be = Vec::new();
        push_word(&mut be, x, ByteOrder::Big);
        assert_eq!(be, x.to_be_bytes().to_vec());
        assert_eq!(read_word(&be, 0, ByteOrder::Big), x);
    }
}

#[test]
fn order_is_read_off_the_bytes_of_one() {
    assert_eq!(ByteOrder::of_one(&1u64.to_le_bytes()), ByteOrder::Little);
    assert_eq!(ByteOrder::of_one(&1u64.to_be_bytes()), ByteOrder::Big);
    assert_eq!(ByteOrder::of_one(&1u64.to_ne_bytes()), native());
    assert_eq!(ByteOrder::of_one(&[1, 0, 0, 0, 0, 0, 0, 0]), ByteOrder::Little);
    assert_eq!(ByteOrder::of_one(&[0, 0, 0, 0, 0, 0, 0, 1]), ByteOrder::Big);
    assert_eq!(ByteOrder::of_one(&[0; 8]), ByteOrder::Big);
    assert_eq!(ByteOrder::of_one(&[1; 8]), ByteOrder::Little);
}

#[test]
fn native_order_is_the_hosts() {
    let snapshot = frozen(vec![1, 2, 3]);
    assert_eq!(snapshot.store(), snapshot.store_with(native()));
    let blob = snapshot.store();
    assert_eq!(blob[..8], 0x0102usize.to_ne_bytes());
    assert_eq!(blob[40..48], 0x0a0b_0c0dusize.to_ne_bytes());
    assert_eq!(blob[48..56], 3usize.to_ne_bytes());
}

#[test]
fn blob_in_little_endian() {
    let blob = frozen(vec![0xAA, 0xBB, 0xCC]).store_with(ByteOrder::Little);
    let expected: Vec<u8> = vec![
        0x02, 0x01, 0, 0, 0, 0, 0, 0, // slot size
        16, 0, 0, 0, 0, 0, 0, 0, // control alignment
        7, 0, 0, 0, 0, 0, 0, 0, // bucket mask
        0, 0, 0, 0, 0, 0, 0, 0, // placeholder
        3, 0, 0, 0, 0, 0, 0, 0, // growth left
        0x0d, 0x0c, 0x0b, 0x0a, 0, 0, 0, 0, // items
        3, 0, 0, 0, 0, 0, 0, 0, // length of the buffer
        0xAA, 0xBB, 0xCC,
    ];
    assert_eq!(blob, expected);
}

#[test]
fn blob_in_big_endian() {
    let blob = frozen(vec![0xAA, 0xBB, 0xCC]).store_with(ByteOrder::Big);
    let expected: Vec<u8> = vec![
        0, 0, 0, 0, 0, 0, 0x01, 0x02, // slot size
        0, 0, 0, 0, 0, 0, 0, 16, // control alignment
        0, 0, 0, 0, 0, 0, 0, 7, // bucket mask
        0, 0, 0, 0, 0, 0, 0, 0, // placeholder
        0, 0, 0, 0, 0, 0, 0, 3, // growth left
        0, 0, 0, 0, 0x0a, 0x0b, 0x0c, 0x0d, // items
        0, 0, 0, 0, 0, 0, 0, 3, // length of the buffer
        0xAA, 0xBB, 0xCC,
    ];
    assert_eq!(blob, expected);
}

#[test]
fn blob_of_an_empty_buffer_is_the_header() {
    for order in [ByteOrder::Little, ByteOrder::Big] {
        let blob = frozen(vec![]).store_with(order);
        assert_eq!(blob.len(), HEADER_LEN);
        assert_eq!(blob[48..56], [0u8; 8]);
    }
}

#[test]
fn blob_does_not_hold_the_address() {
    let mut here = frozen(vec![9; 20]);
    let mut there = frozen(vec![9; 20]);
    here.hashmap.table.table.ctrl = 0x1000;
    there.hashmap.table.table.ctrl = 0x7fff_ffff_0000;
    there.hashmap.hash_builder = RandomState { k0: 5, k1: 6 };
    assert_eq!(here.store(), there.store());
    assert_eq!(here.store()[24..32], [0u8; 8]);
}

#[test]
fn load_gives_back_what_store_took() {
    for order in [ByteOrder::Little, ByteOrder::Big] {
        let snapshot = frozen((0..=200).collect());
        let blob = snapshot.store_with(order);
        let loaded = FrozenHashMap::load_with(&blob, order).unwrap();
        assert_eq!(loaded.table_layout, snapshot.table_layout);
        assert_eq!(loaded.hashmap.table.table.bucket_mask, 7);
        assert_eq!(loaded.hashmap.table.table.growth_left, 3);
        assert_eq!(loaded.hashmap.table.table.items, 0x0a0b_0c0d);
        assert_eq!(loaded.len(), 0x0a0b_0c0d);
        assert_eq!(loaded.memory, snapshot.memory);
        assert_eq!(loaded.hashmap.table.table.ctrl, 0);
        assert_eq!(loaded.hashmap.hash_builder, RandomState { k0: 0, k1: 0 });
        assert_eq!(loaded.store_with(order), blob);
    }
    let snapshot = frozen(vec![4, 5, 6, 7]);
    let loaded = FrozenHashMap::load(&snapshot.store()).unwrap();
    assert_eq!(loaded.memory, vec![4, 5, 6, 7]);
    assert_eq!(loaded.hashmap.table.table.bucket_mask, 7);
}

#[test]
fn load_in_the_other_order_reads_other_words() {
    let blob = frozen(vec![]).store_with(ByteOrder::Little);
    let loaded = FrozenHashMap::load_with(&blob, ByteOrder::Big).unwrap();
    assert_eq!(loaded.table_layout.size as u64, 0x0201_0000_0000_0000);
    assert_eq!(loaded.hashmap.table.table.bucket_mask as u64, 0x0700_0000_0000_0000);

    let longer = frozen(vec![1]).store_with(ByteOrder::Little);
    assert_eq!(
        FrozenHashMap::load_with(&longer, ByteOrder::Big).err(),
        Some(FrozenError::TrailingOrMissingBytes)
    );
}

#[test]
fn load_ignores_the_placeholder() {
    let mut blob = frozen(vec![1, 2]).store_with(ByteOrder::Little);
    for byte in blob[24..32].iter_mut() {
        *byte = 0x5A;
    }
    let loaded = FrozenHashMap::load_with(&blob, ByteOrder::Little).unwrap();
    assert_eq!(loaded.hashmap.table.table.ctrl, 0);
    assert_eq!(loaded.memory, vec![1, 2]);
}

#[test]
fn load_does_not_judge_the_header() {
    let mut odd = frozen(vec![1, 2, 3, 4, 5]);
    odd.hashmap.table.table.bucket_mask = 5;
    odd.table_layout.ctrl_align = 3;
    let loaded = FrozenHashMap::load(&odd.store()).unwrap();
    assert_eq!(loaded.hashmap.table.table.bucket_mask, 5);
    assert_eq!(loaded.table_layout.ctrl_align, 3);
    assert_eq!(loaded.memory.len(), 5);
}

#[test]
fn load_of_a_short_header_is_truncated() {
    let blob = frozen(vec![7; 9]).store();
    for len in 0..HEADER_LEN {
        assert_eq!(FrozenHashMap::load(&blob[..len]).err(), Some(FrozenError::TruncatedBlob));
    }
    assert_eq!(FrozenHashMap::load(&[]).err(), Some(FrozenError::TruncatedBlob));
}

#[test]
fn load_of_a_wrong_length_is_rejected() {
    let blob = frozen(vec![7; 9]).store();
    let mut longer = blob.clone();
    longer.push(0);
    assert_eq!(FrozenHashMap::load(&longer).err(), Some(FrozenError::TrailingOrMissingBytes));
    assert_eq!(
        FrozenHashMap::load(&blob[..blob.len() - 1]).err(),
        Some(FrozenError::TrailingOrMissingBytes)
    );
    assert_eq!(
        FrozenHashMap::load(&blob[..HEADER_LEN]).err(),
        Some(FrozenError::TrailingOrMissingBytes)
    );

    let mut vast = blob.clone();
    for byte in vast[48..56].iter_mut() {
        *byte = 0xFF;
    }
    assert_eq!(FrozenHashMap::load(&vast).err(), Some(FrozenError::TrailingOrMissingBytes));
}

#[test]
fn every_truncation_is_detected() {
    for order in [ByteOrder::Little, ByteOrder::Big] {
        for memory in [vec![], vec![1u8], (0..100).collect::<Vec<u8>>()] {
            let blob = frozen(memory).store_with(order);
            assert!(FrozenHashMap::load_with(&blob, order).is_ok());
            for cut in 1..=blob.len() {
                let short = &blob[..blob.len() - cut];
                let expected = if short.len() < HEADER_LEN {
                    FrozenError::TruncatedBlob
                } else {
                    FrozenError::TrailingOrMissingBytes
                };
                assert_eq!(FrozenHashMap::load_with(short, order).err(), Some(expected));
            }
        }
    }
}
