//! The scheduling core of a multicore ARMv8-A kernel for the Raspberry Pi 3:
//! a process table shared by the cores behind a spin lock, round-robin
//! scheduling with reclamation of finished tasks, and the register-level
//! decisions of the board's drivers. Everything here computes and decides;
//! touching registers, switching stacks and masking interrupts is left to the
//! code that runs on the hardware.

pub mod console;
pub mod cpu;
pub mod drivers;
pub mod laws;
pub mod memory;
pub mod scheduler;
pub mod synchronization;
pub mod tasks;
pub mod time;
pub mod translation;
mod registers;
