use crate::bits::{bit_of, get_bit};
use vstd::prelude::*;

verus! {

/// The registers that a trap saves: the 32 general registers, `sstatus` and
/// `sepc`.
#[derive(Clone, Copy, Debug)]
pub struct Context {
    pub gregs: [u64; 32],
    pub sstatus: u64,
    pub sepc: u64,
}

/// The number of bytes that a saved context takes.
pub const CONTEXT_SIZE: usize = 272;

/// The bit of `sstatus` that holds the privilege the trap came from.
pub const SSTATUS_SPP: usize = 8;

/// The bit of `sstatus` that holds the interrupt-enable bit of before the
/// trap.
pub const SSTATUS_SPIE: usize = 5;

impl Context {
    /// A context with every register zero.
    pub fn zeroed() -> (c: Context)
        ensures
            c.sstatus == 0,
            c.sepc == 0,
            forall|i: int| 0 <= i < 32 ==> c.gregs[i] == 0,
    {
        Context { gregs: [0u64;32], sstatus: 0, sepc: 0 }
    }

    /// Whether the context was saved out of user mode: the previous-privilege
    /// bit of its `sstatus` is clear.
    pub fn was_user(&self) -> (u: bool)
        ensures
            u == !bit_of(self.sstatus, SSTATUS_SPP as nat),
    {
        match get_bit(self.sstatus, SSTATUS_SPP) {
            true => false,
            false => true,
        }
    }
}

} // verus!
