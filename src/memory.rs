//! The kernel's virtual memory layout: which address ranges are mapped, and
//! with which attributes.

use vstd::prelude::*;

verus! {

/// First address of the peripherals' memory-mapped I/O window.
pub const PBASE_START: usize = 0x3F00_0000;

/// Last address of the peripherals' memory-mapped I/O window.
pub const PBASE_END: usize = 0x4000_FFFF;

/// Whether `n` is a power of two.
pub open spec fn is_power_of_two(n: nat) -> bool
    decreases n,
{
    if n == 1 {
        true
    } else if n == 0 || n % 2 == 1 {
        false
    } else {
        is_power_of_two(n / 2)
    }
}

/// The base-two logarithm of `n`, rounded down.
pub open spec fn log2(n: nat) -> nat
    decreases n,
{
    if n <= 1 {
        0
    } else {
        1 + log2(n / 2)
    }
}

/// A translation granule of `GRANULE_SIZE` bytes.
pub struct TranslationGranule<const GRANULE_SIZE: usize>;

impl<const GRANULE_SIZE: usize> TranslationGranule<GRANULE_SIZE> {
    /// The granule's size; only a power of two is a granule.
    pub fn size_checked() -> (r: usize)
        requires
            is_power_of_two(GRANULE_SIZE as nat),
        ensures
            r == GRANULE_SIZE,
    {
        GRANULE_SIZE
    }

    /// How far an address is shifted to count granules: the size's logarithm.
    pub fn shift() -> (r: usize)
        requires
            is_power_of_two(GRANULE_SIZE as nat),
        ensures
            r == log2(GRANULE_SIZE as nat),
    {
        let mut v: usize = GRANULE_SIZE;
        let mut s: usize = 0;
        while v > 1
            invariant
                is_power_of_two(v as nat),
                s + log2(v as nat) == log2(GRANULE_SIZE as nat),
                v as nat <= GRANULE_SIZE as nat,
            decreases v,
        {
            proof {
                assert(v >= 2 && v % 2 == 0);
                lemma_log2_le(GRANULE_SIZE as nat);
                assert(log2(v as nat) >= 1);
            }
            v = v / 2;
            s = s + 1;
        }
        s
    }
}

proof fn lemma_log2_le(n: nat)
    ensures
        log2(n) <= n,
    decreases n,
{
    if n > 1 {
        lemma_log2_le(n / 2);
    }
}

/// Who may access a mapped range.
#[derive(Clone, Copy, Debug, PartialEq, Eq, Structural)]
pub enum AccessPermissions {
    ReadOnly,
    ReadWrite,
}

/// How a mapped range is cached.
#[derive(Clone, Copy, Debug, PartialEq, Eq, Structural)]
pub enum MemoryAttributes {
    CacheableDRAM,
    Device,
}

/// The attributes of a mapped range.
#[derive(Clone, Copy, Debug, PartialEq, Eq, Structural)]
pub struct AttributeFields {
    pub execute_never: bool,
    pub permissions: AccessPermissions,
    pub memory_attributes: MemoryAttributes,
}

/// One mapped range: its physical extent, where it appears virtually, and
/// its attributes.
#[derive(Clone, Copy, Debug)]
pub struct TranslationDescription {
    pub name: &'static str,
    pub virtual_start: usize,
    pub physical_start: usize,
    pub physical_end: usize,
    pub attributes: AttributeFields,
}

impl TranslationDescription {
    /// The range has an extent and its virtual image fits the address space.
    pub open spec fn wf(self) -> bool {
        self.physical_start <= self.physical_end && self.virtual_start + (self.physical_end
            - self.physical_start) <= usize::MAX
    }

    /// Whether `virt_addr` lies in the range's virtual image.
    pub open spec fn covers(self, virt_addr: usize) -> bool {
        self.virtual_start <= virt_addr < self.virtual_start + (self.physical_end - self.physical_start)
    }
}

/// Why an address has no translation.
#[derive(Clone, Copy, Debug, PartialEq, Eq, Structural)]
pub enum TranslationError {
    /// No mapped range covers the address.
    NotMapped,
}

/// One line of the layout summary.
#[derive(Clone, Copy, Debug)]
pub struct RegionInfo {
    pub name: &'static str,
    pub physical_start: usize,
    pub physical_end: usize,
    pub size_kib: usize,
    pub virtual_start: usize,
    pub attributes: AttributeFields,
}

pub open spec fn region_info_of(d: TranslationDescription) -> RegionInfo {
    RegionInfo {
        name: d.name,
        physical_start: d.physical_start,
        physical_end: d.physical_end,
        size_kib: ((d.physical_end - d.physical_start) / 1024) as usize,
        virtual_start: d.virtual_start,
        attributes: d.attributes,
    }
}

/// The mapped ranges, tried in order.
pub struct KernelVirtualLayout<const NUM_SPECIAL_RANGES: usize> {
    pub translation_descriptions: [TranslationDescription; NUM_SPECIAL_RANGES],
}

impl<const NUM_SPECIAL_RANGES: usize> KernelVirtualLayout<NUM_SPECIAL_RANGES> {
    pub open spec fn wf(&self) -> bool {
        forall|i: int|
            0 <= i < NUM_SPECIAL_RANGES ==> (#[trigger] self.translation_descriptions@[i]).wf()
    }

    /// Whether every range is well formed.
    pub fn is_well_formed(&self) -> (r: bool)
        ensures
            r == self.wf(),
    {
        let mut i: usize = 0;
        while i < NUM_SPECIAL_RANGES
            invariant
                i <= NUM_SPECIAL_RANGES,
                self.translation_descriptions@.len() == NUM_SPECIAL_RANGES,
                forall|j: int| 0 <= j < i ==> (#[trigger] self.translation_descriptions@[j]).wf(),
            decreases NUM_SPECIAL_RANGES - i,
        {
            let d = &self.translation_descriptions[i];
            if d.physical_start > d.physical_end {
                return false;
            }
            if d.virtual_start > usize::MAX - (d.physical_end - d.physical_start) {
                return false;
            }
            i = i + 1;
        }
        true
    }

    /// The translation of `virt_addr`: the address itself (the mapping is the
    /// identity) and the attributes of the first range that covers it.
    pub fn virt_addr_properties(&self, virt_addr: usize) -> (r: Result<(usize, AttributeFields), TranslationError>)
        requires
            self.wf(),
        ensures
            r is Err <==> forall|i: int| 0 <= i < NUM_SPECIAL_RANGES ==> !(#[trigger] self.translation_descriptions@[i]).covers(virt_addr),
            r is Ok ==> exists|i: int|
                0 <= i < NUM_SPECIAL_RANGES
                && (#[trigger] self.translation_descriptions@[i]).covers(virt_addr)
                && (forall|j: int| 0 <= j < i ==> !(#[trigger] self.translation_descriptions@[j]).covers(virt_addr))
                && r == Ok::<(usize, AttributeFields), TranslationError>((virt_addr, self.translation_descriptions@[i].attributes)),
    {
        let mut i: usize = 0;
        while i < NUM_SPECIAL_RANGES
            invariant
                i <= NUM_SPECIAL_RANGES,
                self.wf(),
                self.translation_descriptions@.len() == NUM_SPECIAL_RANGES,
                forall|j: int| 0 <= j < i ==> !(#[trigger] self.translation_descriptions@[j]).covers(virt_addr),
            decreases NUM_SPECIAL_RANGES - i,
        {
            let desc = &self.translation_descriptions[i];
            proof {
                assert(self.translation_descriptions@[i as int].wf());
            }
            let physical_size = desc.physical_end - desc.physical_start;
            if virt_addr >= desc.virtual_start && virt_addr < desc.virtual_start + physical_size {
                return Ok((virt_addr, desc.attributes));
            }
            i = i + 1;
        }
        Err(TranslationError::NotMapped)
    }

    /// A summary of the layout, one line per range, in order.
    pub fn layout_info(&self) -> (r: Vec<RegionInfo>)
        requires
            self.wf(),
        ensures
            r@.len() == NUM_SPECIAL_RANGES,
            forall|i: int| 0 <= i < NUM_SPECIAL_RANGES ==> #[trigger] r@[i] == region_info_of(self.translation_descriptions@[i]),
    {
        let mut s: Vec<RegionInfo> = Vec::new();
        let mut i: usize = 0;
        while i < NUM_SPECIAL_RANGES
            invariant
                i <= NUM_SPECIAL_RANGES,
                self.wf(),
                self.translation_descriptions@.len() == NUM_SPECIAL_RANGES,
                s@.len() == i,
                forall|j: int| 0 <= j < i ==> #[trigger] s@[j] == region_info_of(self.translation_descriptions@[j]),
            decreases NUM_SPECIAL_RANGES - i,
        {
            let d = &self.translation_descriptions[i];
            proof {
                assert(self.translation_descriptions@[i as int].wf());
            }
            let size = d.physical_end - d.physical_start;
            s.push(RegionInfo {
                name: d.name,
                physical_start: d.physical_start,
                physical_end: d.physical_end,
                size_kib: size / 1024,
                virtual_start: d.virtual_start,
                attributes: d.attributes,
            });
            i = i + 1;
        }
        s
    }
}

/// Number of ranges in the kernel's layout.
pub const NUM_MEM_RANGES: usize = 3;

/// Start of the memory-mapped I/O range.
pub fn mmio_start() -> (r: usize)
    ensures
        r == PBASE_START,
{
    PBASE_START
}

/// End of the memory-mapped I/O range.
pub fn mmio_end() -> (r: usize)
    ensures
        r == PBASE_END,
{
    PBASE_END
}

/// The kernel's layout, given where the linker placed its code and its
/// mapped DRAM: code read-only and executable, DRAM and I/O read-write and
/// not executable, I/O as device memory. Each range maps to itself.
pub fn virt_mem_layout(text_start: usize, text_end: usize, mapped_dram_start: usize, mapped_dram_end: usize) -> (r: KernelVirtualLayout<NUM_MEM_RANGES>)
    ensures
        r.translation_descriptions@[0] == (TranslationDescription {
            name: "Kernel code (.text, .rodata)",
            virtual_start: text_start,
            physical_start: text_start,
            physical_end: text_end,
            attributes: AttributeFields {
                execute_never: false,
                permissions: AccessPermissions::ReadOnly,
                memory_attributes: MemoryAttributes::CacheableDRAM,
            },
        }),
        r.translation_descriptions@[1] == (TranslationDescription {
            name: "Mapped DRAM (.data, stack, heap)",
            virtual_start: mapped_dram_start,
            physical_start: mapped_dram_start,
            physical_end: mapped_dram_end,
            attributes: AttributeFields {
                execute_never: true,
                permissions: AccessPermissions::ReadWrite,
                memory_attributes: MemoryAttributes::CacheableDRAM,
            },
        }),
        r.translation_descriptions@[2] == (TranslationDescription {
            name: "MMIO (memory-mapped peripherals)",
            virtual_start: PBASE_START,
            physical_start: PBASE_START,
            physical_end: PBASE_END,
            attributes: AttributeFields {
                execute_never: true,
                permissions: AccessPermissions::ReadWrite,
                memory_attributes: MemoryAttributes::Device,
            },
        }),
{
    KernelVirtualLayout {
        translation_descriptions: [
            TranslationDescription {
                name: "Kernel code (.text, .rodata)",
                virtual_start: text_start,
                physical_start: text_start,
                physical_end: text_end,
                attributes: AttributeFields {
                    execute_never: false,
                    permissions: AccessPermissions::ReadOnly,
                    memory_attributes: MemoryAttributes::CacheableDRAM,
                },
            },
            TranslationDescription {
                name: "Mapped DRAM (.data, stack, heap)",
                virtual_start: mapped_dram_start,
                physical_start: mapped_dram_start,
                physical_end: mapped_dram_end,
                attributes: AttributeFields {
                    execute_never: true,
                    permissions: AccessPermissions::ReadWrite,
                    memory_attributes: MemoryAttributes::CacheableDRAM,
                },
            },
            TranslationDescription {
                name: "MMIO (memory-mapped peripherals)",
                virtual_start: mmio_start(),
                physical_start: mmio_start(),
                physical_end: mmio_end(),
                attributes: AttributeFields {
                    execute_never: true,
                    permissions: AccessPermissions::ReadWrite,
                    memory_attributes: MemoryAttributes::Device,
                },
            },
        ],
    }
}

} // verus!
