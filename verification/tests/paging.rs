use rudos::paging::{
    entry_frame, is_huge, is_present, page_offset, supported, table_index, translate,
    TableMemory, Translation, Walk, WalkStep, HUGE_PAGE, PRESENT,
};

const ROOT: u64 = 0x1000;
const LEVEL_3: u64 = 0x2000;
const LEVEL_2: u64 = 0x3000;
const LEVEL_1: u64 = 0x4000;
const WRITABLE: u64 = 2;

/// Tables that map the first two MiB onto themselves, page by page, as far as
/// the leaf entries given here go.
fn identity_tables(pages: &[u64]) -> TableMemory {
    let mut memory = TableMemory::new();
    memory.set_entry(ROOT, 0, LEVEL_3 | PRESENT | WRITABLE);
    memory.set_entry(LEVEL_3, 0, LEVEL_2 | PRESENT | WRITABLE);
    memory.set_entry(LEVEL_2, 0, LEVEL_1 | PRESENT | WRITABLE);
    for &page in pages {
        memory.set_entry(LEVEL_1, (page / 4096) as usize, page | PRESENT | WRITABLE);
    }
    memory
}

#[test]
fn console_buffer_translates_under_identity_mapping() {
    let memory = identity_tables(&[0xb8000]);
    assert_eq!(translate(&memory, ROOT, 0xb8000), Translation::Mapped(0xb8000));
}

#[test]
fn address_beyond_all_mappings_is_unmapped() {
    let memory = identity_tables(&[0xb8000]);
    assert_eq!(translate(&memory, ROOT, 0x0100_0020_1a10), Translation::NotMapped);
    assert_eq!(translate(&memory, ROOT, 0xffff_ffff_ffff_f000), Translation::NotMapped);
}

#[test]
fn mapped_address_is_frame_base_plus_page_offset() {
    let mut memory = identity_tables(&[]);
    // 0x201008: level-2 index 1, level-1 index 1, offset 8.
    memory.set_entry(LEVEL_2, 1, 0x5000 | PRESENT);
    memory.set_entry(0x5000, 1, 0x7654_3000 | PRESENT);
    assert_eq!(translate(&memory, ROOT, 0x201008), Translation::Mapped(0x7654_3008));
    assert_eq!(translate(&memory, ROOT, 0x201000), Translation::Mapped(0x7654_3000));
    assert_eq!(translate(&memory, ROOT, 0x201fff), Translation::Mapped(0x7654_3fff));
}

#[test]
fn flag_bits_of_the_leaf_entry_do_not_reach_the_address() {
    let mut memory = identity_tables(&[]);
    // Every bit outside the frame address set: no-execute, the available
    // bits, and the low twelve.
    memory.set_entry(LEVEL_1, 5, 0xfff0_0000_0000_0fff | 0xabc000);
    assert_eq!(translate(&memory, ROOT, 0x5123), Translation::Mapped(0xabc123));
}

#[test]
fn empty_memory_maps_nothing() {
    let memory = TableMemory::new();
    assert_eq!(translate(&memory, ROOT, 0), Translation::NotMapped);
    assert_eq!(translate(&memory, ROOT, 0xb8000), Translation::NotMapped);
}

#[test]
fn missing_entry_at_level_4_is_unmapped() {
    let mut memory = identity_tables(&[0xb8000]);
    memory.set_entry(ROOT, 0, 0);
    assert_eq!(translate(&memory, ROOT, 0xb8000), Translation::NotMapped);
}

#[test]
fn missing_entry_at_level_3_is_unmapped() {
    let mut memory = identity_tables(&[0xb8000]);
    memory.set_entry(LEVEL_3, 0, LEVEL_2 | WRITABLE);
    assert_eq!(translate(&memory, ROOT, 0xb8000), Translation::NotMapped);
}

#[test]
fn missing_entry_at_level_2_is_unmapped() {
    let mut memory = identity_tables(&[0xb8000]);
    memory.set_entry(LEVEL_2, 0, 0);
    assert_eq!(translate(&memory, ROOT, 0xb8000), Translation::NotMapped);
}

#[test]
fn missing_entry_at_level_1_is_unmapped() {
    let memory = identity_tables(&[0xb8000]);
    assert_eq!(translate(&memory, ROOT, 0xb9000), Translation::NotMapped);
    let mut memory = memory;
    memory.set_entry(LEVEL_1, 0xb8, 0xb8000);
    assert_eq!(translate(&memory, ROOT, 0xb8000), Translation::NotMapped);
}

#[test]
fn absent_entry_wins_over_its_other_bits() {
    let mut memory = identity_tables(&[0xb8000]);
    memory.set_entry(LEVEL_2, 0, LEVEL_1 | HUGE_PAGE);
    assert!(supported(&memory, ROOT, 0xb8000));
    assert_eq!(translate(&memory, ROOT, 0xb8000), Translation::NotMapped);
}

#[test]
fn huge_page_above_the_leaf_is_not_supported() {
    let memory = identity_tables(&[0xb8000]);
    assert!(supported(&memory, ROOT, 0xb8000));
    for table in [ROOT, LEVEL_3, LEVEL_2] {
        let mut memory = identity_tables(&[0xb8000]);
        let entry = memory.entry(table, 0);
        memory.set_entry(table, 0, entry | HUGE_PAGE);
        assert!(!supported(&memory, ROOT, 0xb8000));
        assert!(!supported(&memory, ROOT, 0x1f_ffff));
        // An address whose walk leaves the path before the huge page is
        // translated as ever.
        assert!(supported(&memory, ROOT, 0x0100_0020_1a10));
        assert_eq!(translate(&memory, ROOT, 0x0100_0020_1a10), Translation::NotMapped);
    }
}

#[test]
fn huge_page_below_a_missing_entry_is_never_met() {
    let mut memory = identity_tables(&[0xb8000]);
    memory.set_entry(LEVEL_2, 0, LEVEL_1 | PRESENT | HUGE_PAGE);
    memory.set_entry(LEVEL_3, 0, 0);
    assert!(supported(&memory, ROOT, 0xb8000));
    assert_eq!(translate(&memory, ROOT, 0xb8000), Translation::NotMapped);
}

#[test]
fn walk_supports_all_but_a_present_huge_page_above_the_leaf() {
    for level in 1..=4u8 {
        let walk = Walk { addr: 0xb8000, level, table: ROOT };
        assert!(walk.supports(0));
        assert!(walk.supports(LEVEL_1 | PRESENT));
        assert!(walk.supports(LEVEL_1 | HUGE_PAGE));
        assert_eq!(walk.supports(LEVEL_1 | PRESENT | HUGE_PAGE), level == 1);
        assert_eq!(walk.supports(u64::MAX), level == 1);
    }
}

#[test]
fn bit_seven_of_a_leaf_entry_is_no_huge_page() {
    let mut memory = identity_tables(&[]);
    memory.set_entry(LEVEL_1, 0xb8, 0xb8000 | PRESENT | HUGE_PAGE);
    assert!(supported(&memory, ROOT, 0xb8010));
    assert_eq!(translate(&memory, ROOT, 0xb8010), Translation::Mapped(0xb8010));
}

#[test]
fn translation_leaves_the_tables_as_they_were() {
    let memory = identity_tables(&[0xb8000]);
    let before: Vec<u64> = (0..512).map(|i| memory.entry(LEVEL_1, i)).collect();
    let _ = translate(&memory, ROOT, 0xb8000);
    let after: Vec<u64> = (0..512).map(|i| memory.entry(LEVEL_1, i)).collect();
    assert_eq!(before, after);
    assert_eq!(memory.entry(ROOT, 0), LEVEL_3 | PRESENT | WRITABLE);
}

#[test]
fn table_memory_reads_what_was_written_and_zero_elsewhere() {
    let mut memory = TableMemory::new();
    assert_eq!(memory.entry(0x1000, 0), 0);
    memory.set_entry(0x1000, 511, 7);
    assert_eq!(memory.entry(0x1000, 511), 7);
    assert_eq!(memory.entry(0x1000, 510), 0);
    assert_eq!(memory.entry(0x2000, 511), 0);
    assert_eq!(memory.entry(0x1000, 512), 0);
    memory.set_entry(0x1000, 511, 9);
    memory.set_entry(0x1000, 0, 1);
    assert_eq!(memory.entry(0x1000, 511), 9);
    assert_eq!(memory.entry(0x1000, 0), 1);
}

#[test]
fn table_indices_of_an_address() {
    // 0x0100_0020_1a10 = level-4 index 2, level-3 index 0, level-2 index 1,
    // level-1 index 1, offset 0xa10.
    let addr = 0x0100_0020_1a10;
    assert_eq!(table_index(addr, 4), 2);
    assert_eq!(table_index(addr, 3), 0);
    assert_eq!(table_index(addr, 2), 1);
    assert_eq!(table_index(addr, 1), 1);
    assert_eq!(page_offset(addr), 0xa10);
}

#[test]
fn table_indices_use_nine_bits_each() {
    let addr = 0xffff_ffff_ffff_ffff;
    for level in 1..=4 {
        assert_eq!(table_index(addr, level), 511);
    }
    assert_eq!(page_offset(addr), 4095);
    assert_eq!(table_index(0x0000_0080_0000_0000, 4), 1);
    assert_eq!(table_index(0x0000_0000_4000_0000, 3), 1);
    assert_eq!(table_index(0x0000_0000_0020_0000, 2), 1);
    assert_eq!(table_index(0x0000_0000_0000_1000, 1), 1);
    assert_eq!(table_index(0x0000_0000_0000_0fff, 1), 0);
}

#[test]
fn page_offset_is_below_the_page_size() {
    for addr in [0u64, 1, 4095, 4096, 0xb8000, 0xb8fff, u64::MAX, 0x0100_0020_1a10] {
        assert!(page_offset(addr) < 4096);
        assert_eq!(page_offset(addr), addr % 4096);
    }
}

#[test]
fn entry_bits() {
    assert!(is_present(1));
    assert!(!is_present(0));
    assert!(!is_present(0xffff_ffff_ffff_fffe));
    assert!(is_huge(0x80));
    assert!(!is_huge(0xffff_ffff_ffff_ff7f));
    assert_eq!(entry_frame(0xffff_ffff_ffff_ffff), 0x000f_ffff_ffff_f000);
    assert_eq!(entry_frame(0x2003), 0x2000);
    assert_eq!(entry_frame(0xfff), 0);
}

#[test]
fn walk_names_each_entry_and_ends_at_the_leaf() {
    let memory = identity_tables(&[0xb8000]);
    let mut walk = Walk::start(ROOT, 0xb8abc);
    let mut read = Vec::new();
    let result = loop {
        read.push((walk.level, walk.table, walk.index()));
        assert!(walk.supports(memory.entry(walk.table, walk.index())));
        match walk.advance(memory.entry(walk.table, walk.index())) {
            WalkStep::Descend(next) => walk = next,
            WalkStep::Done(result) => break result,
        }
    };
    assert_eq!(read, vec![(4, ROOT, 0), (3, LEVEL_3, 0), (2, LEVEL_2, 0), (1, LEVEL_1, 0xb8)]);
    assert_eq!(result, Translation::Mapped(0xb8abc));
}

#[test]
fn walk_stops_at_the_first_absent_entry() {
    let mut memory = identity_tables(&[0xb8000]);
    memory.set_entry(LEVEL_3, 0, 0);
    let walk = Walk::start(ROOT, 0xb8000);
    let WalkStep::Descend(walk) = walk.advance(memory.entry(ROOT, 0)) else {
        panic!("the root entry is present");
    };
    assert_eq!(walk, Walk { addr: 0xb8000, level: 3, table: LEVEL_3 });
    assert_eq!(walk.advance(memory.entry(LEVEL_3, 0)), WalkStep::Done(Translation::NotMapped));
}
