//! A model of a small preemptive RISC-V (Sv39) supervisor kernel: page frames
//! and page tables, threads and their saved contexts, the per-hart scheduler
//! and the blocking primitives built on it.
//!
//! Everything here works on plain values. Addresses are numbers, hardware
//! registers are arguments and results, and every operation that the kernel
//! performs on the machine is described by the state change it causes.

pub mod allocator;
pub mod bits;
pub mod console;
pub mod error;
pub mod interrupt;
pub mod layout;
pub mod memory;
pub mod process;
pub mod sbi;
pub mod scheduler;
pub mod smp;
pub mod sync;
