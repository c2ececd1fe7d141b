//! The console: the interface a character device offers, and the slot that
//! holds the one in use.

use vstd::prelude::*;
use crate::synchronization::{FakeLock, Mutex};

verus! {

/// Output of characters.
pub trait Write {
    fn write_char(&self, c: char);

    fn flush(&self);
}

/// Input of characters.
pub trait Read {
    fn read_char(&self) -> char;

    fn clear_rx(&self);
}

/// A device that can both read and write characters.
pub trait ReadWrite: Write + Read {
}

/// Makes `new_console` the console in use. The slot is only written during
/// bring-up, before any other core runs, so it needs no real exclusion.
pub fn register_console<C>(current: &mut FakeLock<C>, new_console: C)
    ensures
        final(current).value() == new_console,
{
    let slot = current.get_data_mut();
    *slot = new_console;
}

/// The console in use.
pub fn console<C: Copy>(current: &FakeLock<C>) -> (r: C)
    ensures
        r == current.value(),
{
    *current.get_data()
}

} // verus!
