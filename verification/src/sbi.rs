//! The calls into the supervisor binary interface: which extension a call
//! names and what it passes. To make the call is the caller's part.

use vstd::prelude::*;

verus! {

pub const SBI_SET_TIMER: u64 = 0;

pub const SBI_CONSOLE_PUTCHAR: u64 = 1;

pub const SBI_CONSOLE_GETCHAR: u64 = 2;

pub const SBI_CLEAR_IPI: u64 = 3;

pub const SBI_SEND_IPI: u64 = 4;

pub const SBI_REMOTE_FENCE_I: u64 = 5;

pub const SBI_REMOTE_SFENCE_VMA: u64 = 6;

pub const SBI_REMOTE_SFENCE_VMA_ASID: u64 = 7;

pub const SBI_SHUTDOWN: u64 = 8;

/// One call: the extension goes into `x17`, the arguments into `x10` to
/// `x12`, and the result comes back in `x10`.
#[derive(Clone, Copy, Debug, PartialEq, Eq, Structural)]
pub struct SbiCall {
    pub which: u64,
    pub arg0: u64,
    pub arg1: u64,
    pub arg2: u64,
}

/// The call that sends an interrupt to the harts of the mask at `hart_mask`.
pub fn send_ipi(hart_mask: u64) -> (c: SbiCall)
    ensures
        c == (SbiCall { which: SBI_SEND_IPI, arg0: hart_mask, arg1: 0, arg2: 0 }),
{
    SbiCall { which: SBI_SEND_IPI, arg0: hart_mask, arg1: 0, arg2: 0 }
}

/// The call that writes a byte to the console.
pub fn console_putchar(c: u8) -> (call: SbiCall)
    ensures
        call == (SbiCall { which: SBI_CONSOLE_PUTCHAR, arg0: c as u64, arg1: 0, arg2: 0 }),
{
    SbiCall { which: SBI_CONSOLE_PUTCHAR, arg0: c as u64, arg1: 0, arg2: 0 }
}

/// The call that reads a byte from the console.
pub fn console_getchar() -> (c: SbiCall)
    ensures
        c == (SbiCall { which: SBI_CONSOLE_GETCHAR, arg0: 0, arg1: 0, arg2: 0 }),
{
    SbiCall { which: SBI_CONSOLE_GETCHAR, arg0: 0, arg1: 0, arg2: 0 }
}

/// The call that shuts the machine down.
pub fn shutdown() -> (c: SbiCall)
    ensures
        c == (SbiCall { which: SBI_SHUTDOWN, arg0: 0, arg1: 0, arg2: 0 }),
{
    SbiCall { which: SBI_SHUTDOWN, arg0: 0, arg1: 0, arg2: 0 }
}

/// The call that arms the timer for the cycle `time`.
pub fn set_timer(time: u64) -> (c: SbiCall)
    ensures
        c == (SbiCall { which: SBI_SET_TIMER, arg0: time, arg1: 0, arg2: 0 }),
{
    SbiCall { which: SBI_SET_TIMER, arg0: time, arg1: 0, arg2: 0 }
}

/// The calls that write `bytes` to the console, one byte each, in order.
pub fn console_write(bytes: &[u8]) -> (calls: Vec<SbiCall>)
    ensures
        calls@.len() == bytes@.len(),
        forall|i: int|
            0 <= i < bytes@.len() ==> #[trigger] calls@[i] == (SbiCall {
                which: SBI_CONSOLE_PUTCHAR,
                arg0: bytes@[i] as u64,
                arg1: 0,
                arg2: 0,
            }),
{
    let mut calls: Vec<SbiCall> = Vec::new();
    let mut i: usize = 0;
    while i < bytes.len()
        invariant
            i <= bytes@.len(),
            calls@.len() == i,
            forall|k: int|
                0 <= k < i ==> #[trigger] calls@[k] == (SbiCall {
                    which: SBI_CONSOLE_PUTCHAR,
                    arg0: bytes@[k] as u64,
                    arg1: 0,
                    arg2: 0,
                }),
        decreases bytes@.len() - i,
    {
        calls.push(console_putchar(bytes[i]));
        i += 1;
    }
    calls
}

} // verus!
