use luwen::mmio::{
    bar0_base, copy_step, merge_partial_word, needs_read_check, register_location,
    small_read_bytes, small_write_word, unaligned_read32, unaligned_write32, use_dma,
    word_from_bytes, BarLayout, CopyStep, RegisterMapping,
};

#[test]
fn straddling_reads_take_bytes_from_both_words() {
    // Memory bytes: 11 22 33 44 | 55 66 77 88
    let a = 0x4433_2211;
    let b = 0x8877_6655;
    assert_eq!(unaligned_read32(a, b, 1), 0x5544_3322);
    assert_eq!(unaligned_read32(a, b, 2), 0x6655_4433);
    assert_eq!(unaligned_read32(a, b, 3), 0x7766_5544);
}

#[test]
fn straddling_write_then_read_gives_the_word_back() {
    let a = 0x4433_2211;
    let b = 0x8877_6655;
    for k in 1..=3usize {
        let (a2, b2) = unaligned_write32(a, b, 0xdead_beef, k);
        assert_eq!(unaligned_read32(a2, b2, k), 0xdead_beef);
        // Bytes outside the written word are kept.
        let mask_a = (1u64 << (8 * k)) as u32 - 1;
        assert_eq!(a2 & mask_a, a & mask_a);
        assert_eq!(b2 >> (8 * k), b >> (8 * k));
    }
    assert_eq!(unaligned_write32(a, b, 0xdead_beef, 1), (0xadbe_ef11, 0x8877_66de));
}

#[test]
fn partial_words_are_merged() {
    assert_eq!(merge_partial_word(0x4433_2211, 0xaabb, 1, 2), 0x44aa_bb11);
    assert_eq!(merge_partial_word(0x4433_2211, 0xcc, 3, 1), 0xcc33_2211);
    assert_eq!(merge_partial_word(0x4433_2211, 0x1234_5678, 0, 4), 0x1234_5678);
}

#[test]
fn short_writes_keep_the_high_bytes() {
    assert_eq!(small_write_word(0x4433_2211, &[0xaa]), 0x4433_22aa);
    assert_eq!(small_write_word(0x4433_2211, &[0xaa, 0xbb, 0xcc]), 0x44cc_bbaa);
    assert_eq!(small_write_word(0x4433_2211, &[1, 2, 3, 4]), 0x0403_0201);
    let stored = small_write_word(0x4433_2211, &[0xaa, 0xbb]);
    assert_eq!(small_read_bytes(stored, 2), vec![0xaa, 0xbb]);
}

#[test]
fn short_reads_take_the_low_bytes() {
    assert_eq!(small_read_bytes(0x4433_2211, 3), vec![0x11, 0x22, 0x33]);
    assert_eq!(small_read_bytes(0x4433_2211, 0), Vec::<u8>::new());
    assert_eq!(word_from_bytes(&[0x11, 0x22]), 0x2211);
    assert_eq!(word_from_bytes(&[]), 0);
}

#[test]
fn registers_are_found_in_their_mapping() {
    let bar = BarLayout {
        bar0_uc_offset: 0x100_0000,
        bar0_wc_size: Some(0x100_0000),
        system_regs: Some((0x1fc0_0000, 0x1f00_0000)),
    };
    assert_eq!(register_location(&bar, 0x1fd0_0000), (RegisterMapping::SystemRegs, 0x00d0_0000));
    assert_eq!(register_location(&bar, 0x10), (RegisterMapping::Bar0WriteCombined, 0x10));
    assert_eq!(register_location(&bar, 0x180_0000), (RegisterMapping::Bar0Uncached, 0x80_0000));
}

#[test]
fn small_helpers() {
    assert_eq!(bar0_base(0xfe00_000c), 0xfe00_0000);
    assert!(use_dma(1000, 100));
    assert!(!use_dma(1000, 0));
    assert!(!use_dma(50, 100));
    assert!(needs_read_check(true, Some(0xffff_ffff)));
    assert!(needs_read_check(true, None));
    assert!(!needs_read_check(true, Some(5)));
    assert!(!needs_read_check(false, None));
}

#[test]
fn copies_move_whole_words_when_aligned() {
    assert_eq!(copy_step(10, 0, 0, 4, 4, 0), CopyStep::Block { len: 8 });
    assert_eq!(copy_step(3, 0, 0, 4, 4, 0), CopyStep::Partial { byte_offset: 0, len: 3 });
    assert_eq!(copy_step(10, 1, 0, 4, 4, 1), CopyStep::Partial { byte_offset: 1, len: 3 });
    assert_eq!(copy_step(10, 0, 0, 16, 4, 0), CopyStep::Partial { byte_offset: 0, len: 4 });
}
