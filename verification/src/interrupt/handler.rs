//! The high-level trap handler: what a trap does before the scheduler takes
//! over.

use crate::bits::bit_of;
use crate::interrupt::context::{Context, SSTATUS_SPP};
use crate::process::thread::{lemma_with_state, RawThreadState};
use crate::scheduler::hart::{HardwareThread, KernelExit};
use crate::scheduler::reason::EntryReason;
use vstd::prelude::*;

verus! {

/// A token that indicates execution in an interrupt context, where
/// interrupts are masked and the kernel may have been interrupted itself.
#[derive(Debug)]
pub struct InterruptToken(());

impl InterruptToken {
    /// The token of the trap that is being handled. To make one is to claim
    /// that the caller handles a trap.
    pub fn new() -> InterruptToken {
        InterruptToken(())
    }
}

/// What `scause` names as the cause of a trap.
#[derive(Clone, Copy, Debug, PartialEq, Eq, Structural)]
pub enum TrapCause {
    /// The exception of a breakpoint instruction.
    Breakpoint,
    /// The interrupt of the supervisor timer.
    SupervisorTimer,
    /// Any other cause. The kernel does not survive it.
    Other,
}

/// The number of bytes by which a breakpoint is stepped over.
pub const BREAKPOINT_STEP: u64 = 2;

/// The address after a breakpoint at `sepc`.
pub open spec fn past_breakpoint(sepc: u64) -> u64 {
    if sepc + BREAKPOINT_STEP > u64::MAX {
        (sepc + BREAKPOINT_STEP - 0x1_0000_0000_0000_0000) as u64
    } else {
        (sepc + BREAKPOINT_STEP) as u64
    }
}

/// The state of the interrupted thread once the trap is taken: the context
/// is where its origin puts it. A context out of kernel mode becomes the
/// kernel context to resume.
pub open spec fn state_on_trap(s: RawThreadState, context: Context) -> RawThreadState {
    if !bit_of(context.sstatus, SSTATUS_SPP as nat) {
        RawThreadState { ucontext: context, ..s }
    } else {
        RawThreadState { kcontext: context, kcontext_valid: 1, ..s }
    }
}

/// The state of the thread after a breakpoint: the context to resume goes on
/// behind the instruction.
pub open spec fn state_past_breakpoint(s: RawThreadState) -> RawThreadState {
    if s.kcontext_valid == 0 {
        RawThreadState { ucontext: Context { sepc: past_breakpoint(s.ucontext.sepc), ..s.ucontext }, ..s }
    } else {
        RawThreadState { kcontext: Context { sepc: past_breakpoint(s.kcontext.sepc), ..s.kcontext }, ..s }
    }
}

/// The state in which the scheduler finds the thread after a trap with the
/// given cause.
pub open spec fn state_for_entry(s: RawThreadState, context: Context, cause: TrapCause) -> RawThreadState {
    let trapped = state_on_trap(s, context);
    if cause == TrapCause::Breakpoint {
        state_past_breakpoint(trapped)
    } else {
        trapped
    }
}

/// The reason with which the scheduler is entered after a trap with the given
/// cause.
pub open spec fn reason_for_entry(s: RawThreadState, context: Context, cause: TrapCause) -> EntryReason {
    if cause == TrapCause::Breakpoint {
        EntryReason::Breakpoint(state_on_trap(s, context).last().sepc)
    } else {
        EntryReason::Timer
    }
}

/// Steps over a breakpoint and names it as the reason to enter the kernel.
pub fn on_breakpoint(ts: &mut RawThreadState) -> (reason: EntryReason)
    ensures
        reason == EntryReason::Breakpoint(old(ts).last().sepc),
        *final(ts) == state_past_breakpoint(*old(ts)),
{
    let bkpt_addr: u64 = ts.last_context().sepc;
    if ts.was_user() {
        ts.ucontext.sepc = bkpt_addr.wrapping_add(BREAKPOINT_STEP);
    } else {
        ts.kcontext.sepc = bkpt_addr.wrapping_add(BREAKPOINT_STEP);
    }
    EntryReason::Breakpoint(bkpt_addr)
}

/// Names the timer as the reason to enter the kernel.
pub fn on_stimer(_ts: &RawThreadState) -> (reason: EntryReason)
    ensures
        reason == EntryReason::Timer,
{
    EntryReason::Timer
}

/// Handles a trap on hart `ht`. `context` holds the registers that the trap
/// entry saved, `cause` what `scause` names, `now` the time.
///
/// The context becomes the user context of the current thread if it was
/// saved out of user mode, else its kernel context, which is then the one to
/// resume. A breakpoint is stepped over. Then the scheduler is entered.
pub fn handle_interrupt(ht: &mut HardwareThread, context: &Context, cause: TrapCause, now: u64) -> (r:
    KernelExit)
    requires
        old(ht).wf(),
        cause != TrapCause::Other,
        !bit_of(context.sstatus, SSTATUS_SPP as nat) ==> cause == TrapCause::SupervisorTimer && old(ht).current().state().kcontext_valid == 0,
    ensures
        old(ht).with_current_state(
            state_for_entry(old(ht).current().state(), *context, cause),
        ).enter_post(
            *final(ht),
            reason_for_entry(old(ht).current().state(), *context, cause),
            now,
            r,
        ),
{
    let token = InterruptToken(());
    let mut ts: RawThreadState = *ht.current_thread().raw_thread_state();
    proof {
        ht.lemma_wf();
    }
    if context.was_user() {
        ts.ucontext = *context;
    } else {
        ts.kcontext = *context;
        ts.kcontext_valid = 1;
    }
    let reason = match cause {
        TrapCause::Breakpoint => on_breakpoint(&mut ts),
        _ => on_stimer(&ts),
    };
    proof {
        ht.lemma_with_current_state(ts);
        lemma_with_state(ht.current(), ts);
    }
    ht.set_current_state(ts);
    ht.enter_kernel(&token, reason, now)
}

} // verus!
