//! Decoding the processor's identification registers.

use vstd::prelude::*;

verus! {

/// The number of the core whose multiprocessor affinity register reads
/// `mpidr`: its lowest two bits.
pub fn get_core(mpidr: usize) -> (r: u8)
    ensures
        r == mpidr % 4,
{
    let core = mpidr & 3;
    proof {
        assert(mpidr & 3 == mpidr % 4) by (bit_vector);
    }
    core as u8
}

/// The exception level that the current-level register's value `current_el`
/// names: bits 2 and 3.
pub fn get_el(current_el: usize) -> (r: u8)
    ensures
        r == (current_el / 4) % 4,
{
    let el = (current_el >> 2) & 3;
    proof {
        assert((current_el >> 2) & 3 == (current_el / 4) % 4) by (bit_vector);
    }
    el as u8
}

} // verus!
