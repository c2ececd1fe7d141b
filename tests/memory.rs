use rpi_kernel::memory::{
    mmio_end, mmio_start, virt_mem_layout, AccessPermissions, AttributeFields, MemoryAttributes,
    TranslationDescription, TranslationError, TranslationGranule, KernelVirtualLayout, PBASE_END, PBASE_START,
};

fn layout() -> KernelVirtualLayout<3> {
    virt_mem_layout(0x8_0000, 0x10_0000, 0x10_0000, 0x20_0000)
}

#[test]
fn code_is_read_only_and_executable() {
    let l = layout();
    assert!(l.is_well_formed());
    let (addr, attrs) = l.virt_addr_properties(0x9_0000).unwrap();
    assert_eq!(addr, 0x9_0000);
    assert_eq!(attrs, AttributeFields { execute_never: false, permissions: AccessPermissions::ReadOnly, memory_attributes: MemoryAttributes::CacheableDRAM });
}

#[test]
fn dram_and_mmio_attributes() {
    let l = layout();
    let (_, dram) = l.virt_addr_properties(0x10_0000).unwrap();
    assert_eq!(dram.permissions, AccessPermissions::ReadWrite);
    assert!(dram.execute_never);
    let (addr, mmio) = l.virt_addr_properties(0x3F20_0000).unwrap();
    assert_eq!(addr, 0x3F20_0000);
    assert_eq!(mmio.memory_attributes, MemoryAttributes::Device);
}

#[test]
fn unmapped_addresses_are_refused() {
    let l = layout();
    assert_eq!(l.virt_addr_properties(0x10), Err(TranslationError::NotMapped));
    assert_eq!(l.virt_addr_properties(0x20_0000), Err(TranslationError::NotMapped));
    assert_eq!(l.virt_addr_properties(PBASE_END), Err(TranslationError::NotMapped));
    assert!(l.virt_addr_properties(PBASE_START).is_ok());
}

#[test]
fn layout_summary_lines() {
    let info = layout().layout_info();
    assert_eq!(info.len(), 3);
    assert_eq!(info[0].name, "Kernel code (.text, .rodata)");
    assert_eq!(info[0].size_kib, 512);
    assert_eq!(info[1].size_kib, 1024);
    assert_eq!(info[2].physical_start, mmio_start());
    assert_eq!(info[2].physical_end, mmio_end());
    assert_eq!(info[2].size_kib, 16447);
}

#[test]
fn malformed_range_is_detected() {
    let bad = KernelVirtualLayout {
        translation_descriptions: [TranslationDescription {
            name: "backwards",
            virtual_start: 0,
            physical_start: 0x2000,
            physical_end: 0x1000,
            attributes: AttributeFields { execute_never: true, permissions: AccessPermissions::ReadOnly, memory_attributes: MemoryAttributes::Device },
        }],
    };
    assert!(!bad.is_well_formed());
}

#[test]
fn granule_sizes_and_shifts() {
    assert_eq!(TranslationGranule::<65536>::size_checked(), 65536);
    assert_eq!(TranslationGranule::<65536>::shift(), 16);
    assert_eq!(TranslationGranule::<536870912>::shift(), 29);
    assert_eq!(TranslationGranule::<1>::shift(), 0);
}
