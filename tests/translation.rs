use rpi_kernel::translation::{PageDescriptor, PageTable, TableDescriptor, TranslationTable, ENTRIES_PER_TABLE, NUM_TABLES};

#[test]
fn identity_map_entries() {
    let mut t = PageTable::new();
    assert_eq!(t.lower_level3[0][5], 0);
    t.identity_map(&[0x10_0000, 0x11_1234, 0x12_0000]);
    assert_eq!(t.lower_level3[0][0], 0x713);
    assert_eq!(t.lower_level3[0][1], 0x1_0713);
    assert_eq!(t.lower_level3[1][0x1F00], 0x3F00_0713);
    assert_eq!(t.lower_level3[1][0x1F80], 0x3F80_0703);
    assert_eq!(t.lower_level3[2][0], 0x4000_0703);
    assert_eq!(t.lower_level3[2][1], 0x4001_0713);
    assert_eq!(t.higher_level2[0], 0x10_0003);
    assert_eq!(t.higher_level2[1], 0x11_0003);
    assert_eq!(t.higher_level2[NUM_TABLES], 0);
    assert_eq!(t.lower_level2.len(), ENTRIES_PER_TABLE);
}

#[test]
fn table_descriptor_points_at_64k_frame() {
    assert_eq!(TableDescriptor::from_next_level_table_addr(0x1234_5678).value, 0x1234_0003);
    assert_eq!(TableDescriptor::from_next_level_table_addr(0xFFFF_FFFF_FFFF_0000).value, 0xFFFF_FFFF_0003);
    assert_eq!(TableDescriptor::from_next_level_table_addr(0).value, 3);
    assert_eq!(TableDescriptor::zero().value, 0);
    assert_eq!(PageDescriptor::zero().value, 0);
}

#[test]
fn populate_points_level2_at_level3() {
    let mut t = TranslationTable::<2>::new();
    assert_eq!(t.lower_level3.len(), 2);
    assert_eq!(t.lower_level3[1].len(), ENTRIES_PER_TABLE);
    t.populate_tables(&vec![0x20_0000, 0x30_0000]);
    assert_eq!(t.lower_level2[0].value, 0x20_0003);
    assert_eq!(t.lower_level2[1].value, 0x30_0003);
    assert_eq!(t.lower_level3[0][7].value, 0);
}
