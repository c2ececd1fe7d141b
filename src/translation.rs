//! Translation tables: the identity map the kernel boots with, and
//! descriptors that point from one table level to the next.
//!
//! Where a table lives in memory is the caller's knowledge; the functions
//! here take table addresses as numbers.

use vstd::prelude::*;
use crate::memory::{is_power_of_two, log2, TranslationGranule, PBASE_END, PBASE_START};
use crate::registers::field_value_u64;

verus! {

/// Granule of a level 2 block.
pub type Granule512MiB = TranslationGranule<536870912>;

/// Granule of a level 3 page.
pub type Granule64KiB = TranslationGranule<65536>;

/// Number of level 3 tables.
pub const NUM_TABLES: usize = 3;

/// Entries in one table.
pub const ENTRIES_PER_TABLE: usize = 8192;

/// The descriptor of page `j` of level 3 table `i` in the identity map: the
/// page's own address, accessed, inner shareable, read-write, kernel only,
/// valid, with memory attribute index 0 inside the I/O window and 4 outside.
pub open spec fn identity_page_entry(i: int, j: int) -> usize {
    let virt_address = (i * 0x2000_0000 + j * 0x1_0000) as usize;
    let mair_attr: usize = if virt_address > PBASE_START && virt_address < PBASE_END {
        0
    } else {
        4
    };
    virt_address | (1usize << 10usize) | (3usize << 8usize) | (mair_attr << 2usize) | 3usize
}

/// A table entry pointing at the table at `address`, kept to 64 KiB.
pub open spec fn identity_table_entry(address: usize) -> usize {
    ((address >> 16usize) << 16usize) | 3usize
}

/// The kernel's boot-time translation tables, as flat words.
pub struct PageTable {
    pub lower_level3: Vec<Vec<usize>>,
    pub higher_level3: Vec<Vec<usize>>,
    pub lower_level2: Vec<usize>,
    pub higher_level2: Vec<usize>,
}

fn zeroed(n: usize) -> (r: Vec<usize>)
    ensures
        r@.len() == n,
        forall|j: int| 0 <= j < n ==> #[trigger] r@[j] == 0,
{
    let mut v: Vec<usize> = Vec::new();
    let mut j: usize = 0;
    while j < n
        invariant
            j <= n,
            v@.len() == j,
            forall|k: int| 0 <= k < j ==> #[trigger] v@[k] == 0,
        decreases n - j,
    {
        v.push(0);
        j = j + 1;
    }
    v
}

fn zeroed_tables(count: usize) -> (r: Vec<Vec<usize>>)
    ensures
        r@.len() == count,
        forall|i: int| 0 <= i < count ==> (#[trigger] r@[i])@.len() == ENTRIES_PER_TABLE,
        forall|i: int, j: int| 0 <= i < count && 0 <= j < ENTRIES_PER_TABLE ==> #[trigger] r@[i]@[j] == 0,
{
    let mut t: Vec<Vec<usize>> = Vec::new();
    let mut i: usize = 0;
    while i < count
        invariant
            i <= count,
            t@.len() == i,
            forall|k: int| 0 <= k < i ==> (#[trigger] t@[k])@.len() == ENTRIES_PER_TABLE,
            forall|k: int, j: int| 0 <= k < i && 0 <= j < ENTRIES_PER_TABLE ==> #[trigger] t@[k]@[j] == 0,
        decreases count - i,
    {
        t.push(zeroed(ENTRIES_PER_TABLE));
        i = i + 1;
    }
    t
}

/// Fills `row` with the identity-map descriptors of level 3 table `i`.
fn fill_identity_row(row: &mut Vec<usize>, i: usize)
    requires
        old(row)@.len() == ENTRIES_PER_TABLE,
        i < NUM_TABLES,
    ensures
        final(row)@.len() == ENTRIES_PER_TABLE,
        forall|j: int| 0 <= j < ENTRIES_PER_TABLE ==> #[trigger] final(row)@[j] == identity_page_entry(i as int, j),
{
    let mut j: usize = 0;
    while j < ENTRIES_PER_TABLE
        invariant
            j <= ENTRIES_PER_TABLE,
            i < NUM_TABLES,
            row@.len() == ENTRIES_PER_TABLE,
            forall|k: int| 0 <= k < j ==> #[trigger] row@[k] == identity_page_entry(i as int, k),
        decreases ENTRIES_PER_TABLE - j,
    {
        let virt_address = i * 0x2000_0000 + j * 0x1_0000;
        let mut mair_attr: usize = 4;
        if virt_address > PBASE_START && virt_address < PBASE_END {
            mair_attr = 0;
        }
        row.set(j, virt_address | (1usize << 10usize) | (3usize << 8usize) | (mair_attr << 2usize) | 3usize);
        j = j + 1;
    }
}

impl PageTable {
    pub open spec fn wf(&self) -> bool {
        &&& self.lower_level3@.len() == NUM_TABLES
        &&& self.higher_level3@.len() == NUM_TABLES
        &&& forall|i: int| 0 <= i < NUM_TABLES ==> (#[trigger] self.lower_level3@[i])@.len() == ENTRIES_PER_TABLE
        &&& forall|i: int| 0 <= i < NUM_TABLES ==> (#[trigger] self.higher_level3@[i])@.len() == ENTRIES_PER_TABLE
        &&& self.lower_level2@.len() == ENTRIES_PER_TABLE
        &&& self.higher_level2@.len() == ENTRIES_PER_TABLE
    }

    /// Tables of invalid (all-zero) entries.
    pub fn new() -> (r: Self)
        ensures
            r.wf(),
            forall|i: int, j: int| 0 <= i < NUM_TABLES && 0 <= j < ENTRIES_PER_TABLE ==> #[trigger] r.lower_level3@[i]@[j] == 0,
            forall|j: int| 0 <= j < ENTRIES_PER_TABLE ==> #[trigger] r.higher_level2@[j] == 0,
    {
        PageTable {
            lower_level3: zeroed_tables(NUM_TABLES),
            higher_level3: zeroed_tables(NUM_TABLES),
            lower_level2: zeroed(ENTRIES_PER_TABLE),
            higher_level2: zeroed(ENTRIES_PER_TABLE),
        }
    }

    /// Maps the first `NUM_TABLES` level 2 blocks to themselves in 64 KiB
    /// pages. `level3_addresses[i]` is where level 3 table `i` lies in memory.
    pub fn identity_map(&mut self, level3_addresses: &[usize; 3])
        requires
            old(self).wf(),
        ensures
            final(self).wf(),
            forall|i: int, j: int|
                0 <= i < NUM_TABLES && 0 <= j < ENTRIES_PER_TABLE ==> #[trigger] final(self).lower_level3@[i]@[j]
                    == identity_page_entry(i, j),
            forall|i: int| 0 <= i < NUM_TABLES ==> #[trigger] final(self).higher_level2@[i] == identity_table_entry(level3_addresses@[i]),
            forall|i: int| NUM_TABLES <= i < ENTRIES_PER_TABLE ==> #[trigger] final(self).higher_level2@[i] == old(self).higher_level2@[i],
            final(self).higher_level3@ == old(self).higher_level3@,
            final(self).lower_level2@ == old(self).lower_level2@,
    {
        let mut i: usize = 0;
        while i < NUM_TABLES
            invariant
                i <= NUM_TABLES,
                self.wf(),
                forall|k: int, j: int|
                    0 <= k < i && 0 <= j < ENTRIES_PER_TABLE ==> #[trigger] self.lower_level3@[k]@[j] == identity_page_entry(k, j),
                forall|k: int| 0 <= k < i ==> #[trigger] self.higher_level2@[k] == identity_table_entry(level3_addresses@[k]),
                forall|k: int| i <= k < ENTRIES_PER_TABLE ==> #[trigger] self.higher_level2@[k] == old(self).higher_level2@[k],
                self.higher_level3@ == old(self).higher_level3@,
                self.lower_level2@ == old(self).lower_level2@,
            decreases NUM_TABLES - i,
        {
            let lvl2_address = level3_addresses[i];
            let lvl2_address_offset = lvl2_address >> 16usize;
            self.higher_level2.set(i, (lvl2_address_offset << 16usize) | 3usize);
            let mut row: Vec<usize> = Vec::new();
            std::mem::swap(&mut self.lower_level3[i], &mut row);
            fill_identity_row(&mut row, i);
            std::mem::swap(&mut self.lower_level3[i], &mut row);
            i = i + 1;
        }
    }
}

/// A level 3 descriptor.
#[derive(Clone, Copy, Debug, PartialEq, Eq, Structural)]
pub struct PageDescriptor {
    pub value: u64,
}

impl PageDescriptor {
    pub fn zero() -> (r: Self)
        ensures
            r.value == 0,
    {
        PageDescriptor { value: 0 }
    }
}

/// The descriptor of a table at `addr`: its 64 KiB frame number in bits
/// 16 to 47, marked as a table and valid.
pub open spec fn table_descriptor_value(addr: usize) -> u64 {
    ((((addr >> 16usize) as u64) & 0xFFFF_FFFFu64) << 16usize) | 2u64 | 1u64
}

/// A level 2 descriptor.
#[derive(Clone, Copy, Debug, PartialEq, Eq, Structural)]
pub struct TableDescriptor {
    pub value: u64,
}

impl TableDescriptor {
    pub fn zero() -> (r: Self)
        ensures
            r.value == 0,
    {
        TableDescriptor { value: 0 }
    }

    /// The descriptor pointing at the next-level table at physical address
    /// `phys_next_lvl_table_addr`.
    pub fn from_next_level_table_addr(phys_next_lvl_table_addr: usize) -> (r: Self)
        ensures
            r.value == table_descriptor_value(phys_next_lvl_table_addr),
    {
        proof {
            reveal_with_fuel(is_power_of_two, 18);
            reveal_with_fuel(log2, 18);
        }
        let shift = Granule64KiB::shift();
        let shifted = phys_next_lvl_table_addr >> shift;
        let address_field = field_value_u64(0xFFFF_FFFF, 16, shifted as u64);
        let type_field = field_value_u64(1, 1, 1);
        let valid_field = field_value_u64(1, 0, 1);
        proof {
            assert((1u64 & 1u64) << 1usize == 2u64) by (bit_vector);
            assert((1u64 & 1u64) << 0usize == 1u64) by (bit_vector);
        }
        TableDescriptor { value: address_field | type_field | valid_field }
    }
}

/// Translation tables for `NUM_TABLES` level 2 blocks of 64 KiB pages.
pub struct TranslationTable<const NUM_TABLES: usize> {
    pub lower_level3: Vec<Vec<PageDescriptor>>,
    pub lower_level2: Vec<TableDescriptor>,
}

impl<const NUM_TABLES: usize> TranslationTable<NUM_TABLES> {
    pub open spec fn wf(&self) -> bool {
        &&& self.lower_level3@.len() == NUM_TABLES
        &&& forall|i: int| 0 <= i < NUM_TABLES ==> (#[trigger] self.lower_level3@[i])@.len() == ENTRIES_PER_TABLE
        &&& self.lower_level2@.len() == NUM_TABLES
    }

    /// Tables of invalid (all-zero) descriptors.
    pub fn new() -> (r: Self)
        ensures
            r.wf(),
            forall|i: int, j: int| 0 <= i < NUM_TABLES && 0 <= j < ENTRIES_PER_TABLE ==> #[trigger] r.lower_level3@[i]@[j].value == 0,
            forall|i: int| 0 <= i < NUM_TABLES ==> (#[trigger] r.lower_level2@[i]).value == 0,
    {
        let mut lower_level3: Vec<Vec<PageDescriptor>> = Vec::new();
        let mut lower_level2: Vec<TableDescriptor> = Vec::new();
        let mut i: usize = 0;
        while i < NUM_TABLES
            invariant
                i <= NUM_TABLES,
                lower_level3@.len() == i,
                lower_level2@.len() == i,
                forall|k: int| 0 <= k < i ==> (#[trigger] lower_level3@[k])@.len() == ENTRIES_PER_TABLE,
                forall|k: int, j: int| 0 <= k < i && 0 <= j < ENTRIES_PER_TABLE ==> #[trigger] lower_level3@[k]@[j].value == 0,
                forall|k: int| 0 <= k < i ==> (#[trigger] lower_level2@[k]).value == 0,
            decreases NUM_TABLES - i,
        {
            let mut row: Vec<PageDescriptor> = Vec::new();
            let mut j: usize = 0;
            while j < ENTRIES_PER_TABLE
                invariant
                    j <= ENTRIES_PER_TABLE,
                    row@.len() == j,
                    forall|k: int| 0 <= k < j ==> (#[trigger] row@[k]).value == 0,
                decreases ENTRIES_PER_TABLE - j,
            {
                row.push(PageDescriptor::zero());
                j = j + 1;
            }
            lower_level3.push(row);
            lower_level2.push(TableDescriptor::zero());
            i = i + 1;
        }
        TranslationTable { lower_level3, lower_level2 }
    }

    /// Points each level 2 descriptor at its level 3 table;
    /// `level3_addresses[i]` is where level 3 table `i` lies in memory.
    pub fn populate_tables(&mut self, level3_addresses: &Vec<usize>)
        requires
            old(self).wf(),
            level3_addresses@.len() == NUM_TABLES,
        ensures
            final(self).wf(),
            forall|i: int| 0 <= i < NUM_TABLES ==> (#[trigger] final(self).lower_level2@[i]).value == table_descriptor_value(level3_addresses@[i]),
            final(self).lower_level3@ == old(self).lower_level3@,
    {
        let mut level2_num: usize = 0;
        while level2_num < NUM_TABLES
            invariant
                level2_num <= NUM_TABLES,
                self.wf(),
                level3_addresses@.len() == NUM_TABLES,
                forall|i: int| 0 <= i < level2_num ==> (#[trigger] self.lower_level2@[i]).value == table_descriptor_value(level3_addresses@[i]),
                self.lower_level3@ == old(self).lower_level3@,
            decreases NUM_TABLES - level2_num,
        {
            let d = TableDescriptor::from_next_level_table_addr(level3_addresses[level2_num]);
            self.lower_level2.set(level2_num, d);
            level2_num = level2_num + 1;
        }
    }
}

} // verus!
