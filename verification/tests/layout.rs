use frozen_hashbrown::layout::{is_power_of_two, round_up_to};
use frozen_hashbrown::{Group, Layout, RawTableInner, TableLayout};

fn header(bucket_mask: usize, ctrl: usize) -> RawTableInner {
    RawTableInner { bucket_mask, ctrl, growth_left: 0, items: 0 }
}

#[test]
fn group_width_is_sixteen() {
    assert_eq!(Group::WIDTH, 16);
}

#[test]
fn round_up_gives_least_multiple() {
    assert_eq!(round_up_to(0, 16), Some(0));
    assert_eq!(round_up_to(1, 16), Some(16));
    assert_eq!(round_up_to(16, 16), Some(16));
    assert_eq!(round_up_to(17, 16), Some(32));
    assert_eq!(round_up_to(64, 16), Some(64));
    assert_eq!(round_up_to(65, 32), Some(96));
    assert_eq!(round_up_to(7, 1), Some(7));
    assert_eq!(round_up_to(10, 3), Some(12));
}

#[test]
fn round_up_past_the_largest_word_is_none() {
    assert_eq!(round_up_to(usize::MAX, 16), None);
    assert_eq!(round_up_to(usize::MAX - 14, 16), None);
    assert_eq!(round_up_to(usize::MAX - 15, 16), Some(usize::MAX - 15));
    assert_eq!(round_up_to(usize::MAX, 1), Some(usize::MAX));
}

#[test]
fn powers_of_two_are_recognised() {
    assert!(!is_power_of_two(0));
    assert!(is_power_of_two(1));
    assert!(is_power_of_two(2));
    assert!(!is_power_of_two(3));
    assert!(is_power_of_two(16));
    assert!(!is_power_of_two(24));
    assert!(is_power_of_two(1 << 40));
    assert!(is_power_of_two(1 << (usize::BITS - 1)));
    assert!(!is_power_of_two(usize::MAX));
    for n in 0..4096usize {
        assert_eq!(is_power_of_two(n), n.is_power_of_two());
    }
}

#[test]
fn control_alignment_is_at_least_the_group_width() {
    let small = TableLayout::new(Layout { size: 8, align: 4 });
    assert_eq!(small, TableLayout { size: 8, ctrl_align: 16 });
    let equal = TableLayout::new(Layout { size: 32, align: 16 });
    assert_eq!(equal, TableLayout { size: 32, ctrl_align: 16 });
    let large = TableLayout::new(Layout { size: 64, align: 64 });
    assert_eq!(large, TableLayout { size: 64, ctrl_align: 64 });
    let byte = TableLayout::new(Layout { size: 0, align: 1 });
    assert_eq!(byte, TableLayout { size: 0, ctrl_align: 16 });
    assert!(small.is_well_formed());
    assert!(equal.is_well_formed());
    assert!(large.is_well_formed());
    assert!(byte.is_well_formed());
}

#[test]
fn table_layout_invariant_is_tested() {
    assert!(TableLayout { size: 8, ctrl_align: 16 }.is_well_formed());
    assert!(TableLayout { size: 8, ctrl_align: 4096 }.is_well_formed());
    assert!(!TableLayout { size: 8, ctrl_align: 8 }.is_well_formed());
    assert!(!TableLayout { size: 8, ctrl_align: 0 }.is_well_formed());
    assert!(!TableLayout { size: 8, ctrl_align: 24 }.is_well_formed());
    assert!(!TableLayout { size: 8, ctrl_align: 48 }.is_well_formed());
}

#[test]
fn header_invariant_is_tested() {
    assert!(header(0, 0).is_well_formed());
    assert!(header(1, 0).is_well_formed());
    assert!(header(7, 0).is_well_formed());
    assert!(header(16383, 0).is_well_formed());
    assert!(!header(2, 0).is_well_formed());
    assert!(!header(6, 0).is_well_formed());
    assert!(!header(8, 0).is_well_formed());
    assert!(!header(usize::MAX, 0).is_well_formed());
    assert!(header(usize::MAX >> 1, 0).is_well_formed());
}

#[test]
fn span_of_eight_buckets_of_eight_bytes() {
    let table_layout = TableLayout::new(Layout { size: 8, align: 4 });
    let (layout, ctrl_offset) = table_layout.calculate_layout_for(8).unwrap();
    assert_eq!(ctrl_offset, 64);
    assert_eq!(layout, Layout { size: 88, align: 16 });
}

#[test]
fn span_pads_the_slots_to_the_control_alignment() {
    let table_layout = TableLayout::new(Layout { size: 4, align: 4 });
    let (layout, ctrl_offset) = table_layout.calculate_layout_for(2).unwrap();
    assert_eq!(ctrl_offset, 16);
    assert_eq!(layout, Layout { size: 16 + 2 + 16, align: 16 });

    let wide = TableLayout::new(Layout { size: 24, align: 64 });
    let (layout, ctrl_offset) = wide.calculate_layout_for(4).unwrap();
    assert_eq!(ctrl_offset, 128);
    assert_eq!(layout, Layout { size: 128 + 4 + 16, align: 64 });
}

#[test]
fn span_of_one_bucket_and_of_empty_slots() {
    let table_layout = TableLayout::new(Layout { size: 8, align: 8 });
    let (layout, ctrl_offset) = table_layout.calculate_layout_for(1).unwrap();
    assert_eq!(ctrl_offset, 16);
    assert_eq!(layout.size, 33);

    let unit = TableLayout::new(Layout { size: 0, align: 1 });
    let (layout, ctrl_offset) = unit.calculate_layout_for(4).unwrap();
    assert_eq!(ctrl_offset, 0);
    assert_eq!(layout, Layout { size: 20, align: 16 });
}

#[test]
fn span_scales_with_the_number_of_buckets() {
    for size in [0usize, 1, 3, 4, 8, 12, 24, 32, 100] {
        for align in [1usize, 4, 16, 32, 128] {
            let table_layout = TableLayout::new(Layout { size, align });
            let ctrl_align = align.max(Group::WIDTH);
            for shift in 0..20u32 {
                let buckets = 1usize << shift;
                let slots = size * buckets;
                let padded = (slots + ctrl_align - 1) / ctrl_align * ctrl_align;
                let (layout, ctrl_offset) = table_layout.calculate_layout_for(buckets).unwrap();
                assert_eq!(ctrl_offset, padded);
                assert_eq!(layout.size, padded + buckets + Group::WIDTH);
                assert_eq!(layout.align, ctrl_align);
            }
        }
    }
}

#[test]
fn span_that_does_not_fit_is_none() {
    let table_layout = TableLayout::new(Layout { size: 8, align: 8 });
    let half = 1usize << (usize::BITS - 1);
    assert_eq!(table_layout.calculate_layout_for(half), None);
    assert_eq!(table_layout.calculate_layout_for(half >> 2), None);
    assert!(table_layout.calculate_layout_for(half >> 4).is_some());

    // the slots fit, the padding does not
    let huge = TableLayout { size: usize::MAX - 7, ctrl_align: 16 };
    assert_eq!(huge.calculate_layout_for(1), None);
    // the slots and the padding fit, the control bytes do not
    let near = TableLayout { size: usize::MAX - 15, ctrl_align: 16 };
    assert_eq!(near.calculate_layout_for(1), None);
    let fits = TableLayout { size: usize::MAX - 31, ctrl_align: 16 };
    assert_eq!(
        fits.calculate_layout_for(1),
        Some((Layout { size: usize::MAX - 14, align: 16 }, usize::MAX - 31))
    );
}

#[test]
fn buckets_is_the_mask_and_one() {
    assert_eq!(header(0, 0).buckets(), 1);
    assert_eq!(header(7, 0).buckets(), 8);
    assert_eq!(header(16383, 0).buckets(), 16384);
    assert!(header(0, 0).is_empty_singleton());
    assert!(!header(1, 0).is_empty_singleton());
    assert!(!header(7, 0).is_empty_singleton());
}

#[test]
fn allocation_starts_before_the_control_bytes() {
    let table_layout = TableLayout::new(Layout { size: 8, align: 4 });
    let live = header(7, 0x5000 + 64);
    assert_eq!(live.allocation(&table_layout), Some((0x5000, Layout { size: 88, align: 16 })));
    assert_eq!(live.reallocation(&table_layout), Some((64, Layout { size: 88, align: 16 })));

    let other = header(7, 64);
    assert_eq!(other.allocation(&table_layout), Some((0, Layout { size: 88, align: 16 })));
}

#[test]
fn allocation_of_a_table_that_never_allocated_is_none() {
    let table_layout = TableLayout::new(Layout { size: 8, align: 4 });
    let empty = header(0, 0x5000);
    assert_eq!(empty.allocation(&table_layout), None);
    assert_eq!(empty.reallocation(&table_layout), None);
}

#[test]
fn allocation_that_does_not_fit_is_none() {
    let table_layout = TableLayout::new(Layout { size: 8, align: 4 });
    let vast = header(usize::MAX >> 1, 0x5000);
    assert_eq!(vast.allocation(&table_layout), None);
    assert_eq!(vast.reallocation(&table_layout), None);

    // the control bytes lie nearer to address zero than the slots are long
    let low = header(7, 63);
    assert_eq!(low.allocation(&table_layout), None);
    assert_eq!(low.reallocation(&table_layout), Some((64, Layout { size: 88, align: 16 })));
}
