//! Register field arithmetic, as the `tock_registers` crate defines it.

use vstd::prelude::*;

verus! {

/// Relies on `tock_registers::fields::FieldValue::<u64, R>::new`: the value is
/// masked with `mask`, then shifted left by `shift` into its place.
#[verifier::external_body]
pub(crate) fn field_value_u64(mask: u64, shift: usize, value: u64) -> (r: u64)
    requires
        shift < 64,
    ensures
        r == (value & mask) << shift,
{
    tock_registers::fields::FieldValue::<u64, ()>::new(mask, shift, value).value
}

/// Relies on `tock_registers::fields::FieldValue::<u32, R>::new`: the value is
/// masked with `mask`, then shifted left by `shift` into its place.
#[verifier::external_body]
pub(crate) fn field_value_u32(mask: u32, shift: usize, value: u32) -> (r: u32)
    requires
        shift < 32,
    ensures
        r == (value & mask) << shift,
{
    tock_registers::fields::FieldValue::<u32, ()>::new(mask, shift, value).value
}

/// Relies on `tock_registers::fields::Field::<u32, R>::read`: the bits of
/// `mask` shifted left by `shift` are taken from `val` and shifted down.
#[verifier::external_body]
pub(crate) fn field_read_u32(mask: u32, shift: usize, val: u32) -> (r: u32)
    requires
        shift < 32,
    ensures
        r == (val & (mask << shift)) >> shift,
{
    tock_registers::fields::Field::<u32, ()>::new(mask, shift).read(val)
}

} // verus!
