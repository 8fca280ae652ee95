//! The hardware thread: the state machine that multiplexes threads onto a
//! hart across traps, yields, exits and timer ticks.

use crate::bits::{bit_of, set_bit, with_bit};
use crate::interrupt::context::{Context, SSTATUS_SPIE, SSTATUS_SPP};
use crate::interrupt::handler::InterruptToken;
use crate::process::thread::{lemma_with_state, RawThreadState, Thread, ThreadToken};
use crate::scheduler::plan::{Policy, PolicyContext, SimplePolicy, SwitchReason, RUN_QUEUE_CAPACITY};
use crate::scheduler::reason::EntryReason;
use vstd::arithmetic::power2::pow2;
use vstd::prelude::*;

verus! {

/// The number of a hart.
#[derive(Copy, Clone, Debug, Eq, PartialEq, Ord, PartialOrd, Structural)]
pub struct Id(pub u32);

/// The number of timer cycles after which the scheduler wants to be entered
/// again.
pub const DEFAULT_SCHEDULER_REENTRY_TIMEOUT: u64 = 100000;

/// The register `gp`, which holds the address of the hart while the kernel
/// runs.
pub const GP: usize = 3;

/// What the hart does to leave the kernel: it restores `context`. Before a
/// return to user mode it puts `sscratch`, the address of the thread state,
/// into the register of that name.
#[derive(Clone, Copy, Debug)]
pub struct Resume {
    pub context: Context,
    pub to_user: bool,
    pub sscratch: u64,
}

/// How the kernel is left after a trap.
#[derive(Clone, Copy, Debug)]
pub struct KernelExit {
    pub resume: Resume,
    /// The time for which the timer is armed anew, if it is.
    pub timer: Option<u64>,
    /// The address of the breakpoint to report on the console, if one was
    /// hit.
    pub breakpoint: Option<u64>,
}

/// How a request to give up the hart ended.
#[derive(Clone, Copy, Debug)]
pub enum YieldOutcome {
    /// Another thread is current; the hart resumes it.
    Switched(Resume),
    /// No other thread can run; the thread that yielded goes on.
    Stayed,
    /// No other thread can run and the caller cannot go on: the hart waits
    /// for an interrupt and asks again.
    Idle,
}

/// The time for which the timer is armed at time `now`.
pub open spec fn reentry_deadline(now: u64) -> u64 {
    if now + DEFAULT_SCHEDULER_REENTRY_TIMEOUT > u64::MAX {
        (now + DEFAULT_SCHEDULER_REENTRY_TIMEOUT - 0x1_0000_0000_0000_0000) as u64
    } else {
        (now + DEFAULT_SCHEDULER_REENTRY_TIMEOUT) as u64
    }
}

/// The registers of `c` with `gp` holding `hart`.
pub open spec fn with_gp(c: Context, hart: u64) -> Context {
    Context { gregs: vstd::array::spec_array_update(c.gregs, GP as int, hart), ..c }
}

/// The value of `sstatus` that a thread which gave way is resumed with: the
/// present one, marked as coming from supervisor mode with interrupts
/// enabled.
pub open spec fn fabricated_sstatus(sstatus: u64) -> u64 {
    with_bit(with_bit(sstatus, SSTATUS_SPIE as nat, true) as u64, SSTATUS_SPP as nat, true) as u64
}

/// The state of a thread once the hart at `hart` has left the kernel for
/// it.
pub open spec fn state_after_leave(s: RawThreadState, hart: u64) -> RawThreadState {
    if s.kcontext_valid == 0 {
        s
    } else {
        RawThreadState { kcontext: with_gp(s.kcontext, hart), kcontext_valid: 0, ..s }
    }
}

/// How the hart at `hart` leaves the kernel for a thread in state `s` whose
/// state stands at `state_addr`.
pub open spec fn resume_of(s: RawThreadState, state_addr: u64, hart: u64) -> Resume {
    if s.kcontext_valid == 0 {
        Resume { context: s.ucontext, to_user: true, sscratch: state_addr }
    } else {
        Resume { context: with_gp(s.kcontext, hart), to_user: false, sscratch: 0 }
    }
}

/// The state of the thread that gives way: its kernel context holds the
/// registers `saved` and the fabricated `sstatus`, and is the context to
/// resume.
pub open spec fn state_saved(s: RawThreadState, saved: Context, sstatus: u64) -> RawThreadState {
    RawThreadState {
        kcontext: Context {
            gregs: saved.gregs,
            sepc: saved.sepc,
            sstatus: fabricated_sstatus(sstatus),
        },
        kcontext_valid: 1,
        ..s
    }
}

/// The state in which the thread that takes over is entered: it belongs to
/// the hart at `hart`, and its kernel context holds the fabricated `sstatus`.
pub open spec fn state_taken_over(s: RawThreadState, sstatus: u64, hart: u64) -> RawThreadState {
    RawThreadState {
        kcontext: Context { sstatus: fabricated_sstatus(sstatus), ..s.kcontext },
        hart,
        kcontext_valid: 1,
        ..s
    }
}

/// What becomes of the thread that gives way in a switch.
#[derive(Clone, Copy, Debug, PartialEq, Eq, Structural)]
pub enum Disposal {
    /// It goes to the back of the run queue.
    Requeue,
    /// It has exited: it joins the threads that wait to be dropped.
    DeferDrop,
    /// It is handed to the caller, who keeps it until it is woken.
    HandOut,
}

/// The value of `sstatus` with the two bits set is marked as coming from
/// supervisor mode with interrupts enabled before.
pub proof fn lemma_fabricated_sstatus(sstatus: u64)
    ensures
        bit_of(fabricated_sstatus(sstatus), SSTATUS_SPIE as nat),
        bit_of(fabricated_sstatus(sstatus), SSTATUS_SPP as nat),
{
    vstd::arithmetic::power2::lemma2_to64();
    let x = sstatus as int;
    let y = with_bit(sstatus, 5, true);
    assert(pow2(5) == 32 && pow2(8) == 256 && pow2(1) == 2 && pow2(6) == 64 && pow2(9) == 512);
    assert(bit_of(sstatus, 5) == ((x / 32) % 2 == 1));
    assert(y == if (x / 32) % 2 == 1 { x } else { x + 32 });
    assert((y / 32) % 2 == 1);
    assert(0 <= y <= u64::MAX) by {
        if (x / 32) % 2 != 1 {
            assert(x % 64 < 32);
            assert(x + 32 <= u64::MAX);
        }
    }
    let yy = y as u64;
    assert(bit_of(yy, 8) == ((y / 256) % 2 == 1));
    let z = with_bit(yy, 8, true);
    assert(z == if (y / 256) % 2 == 1 { y } else { y + 256 });
    assert((z / 256) % 2 == 1);
    assert((z / 32) % 2 == 1);
    assert(0 <= z <= u64::MAX) by {
        if (y / 256) % 2 != 1 {
            assert(y % 512 < 256);
            assert(y + 256 <= u64::MAX);
        }
    }
    let zz = z as u64;
    assert(bit_of(zz, 5) == ((z / 32) % 2 == 1));
    assert(bit_of(zz, 8) == ((z / 256) % 2 == 1));
}

/// A hart and what it runs.
pub struct HardwareThread {
    id: Id,
    /// The address of this record, which `gp` holds while the kernel runs.
    address: u64,
    plan: SimplePolicy,
    /// The number of interrupt guards that are active on this hart.
    num_intr_guards: usize,
    /// The interrupt-enable bit of before the outermost guard.
    sie_before_intr_guard: bool,
    /// The interrupt-enable bit of the hart.
    sie: bool,
    /// The thread that the hart runs. It must not be dropped: the hart
    /// executes on its stack.
    current: Box<Thread>,
    /// The threads that have exited and wait to be dropped.
    will_drop: Vec<Box<Thread>>,
}

impl HardwareThread {
    pub closed spec fn spec_id(&self) -> Id {
        self.id
    }

    /// The address of the hart's record.
    pub closed spec fn address(&self) -> u64 {
        self.address
    }

    /// The policy of the hart.
    pub closed spec fn plan(&self) -> SimplePolicy {
        self.plan
    }

    /// The number of interrupt guards that are active.
    pub closed spec fn guards(&self) -> nat {
        self.num_intr_guards as nat
    }

    /// The interrupt-enable bit of before the outermost guard.
    pub closed spec fn sie_before(&self) -> bool {
        self.sie_before_intr_guard
    }

    /// The interrupt-enable bit of the hart.
    pub closed spec fn sie(&self) -> bool {
        self.sie
    }

    /// The thread that the hart runs.
    pub closed spec fn current(&self) -> Thread {
        *self.current
    }

    /// The threads that have exited and wait to be dropped, oldest first.
    pub closed spec fn will_drop(&self) -> Seq<Thread> {
        Seq::new(self.will_drop@.len(), |i: int| *self.will_drop@[i])
    }

    /// The invariant of the hart: while a guard is active interrupts are
    /// masked; the current thread knows its hart; the policy is sound.
    pub closed spec fn wf(&self) -> bool {
        &&& self.plan.wf()
        &&& self.num_intr_guards > 0 ==> !self.sie
        &&& self.current.state().hart == self.address
    }


    /// What the invariant says of the hart's public views.
    pub proof fn lemma_wf(&self)
        requires
            self.wf(),
        ensures
            self.guards() > 0 ==> !self.sie(),
            self.current().state().hart == self.address(),
            self.plan().wf(),
            self.wf_but_sie(),
    {
    }

    /// The invariant of the hart but for the tie between guards and
    /// interrupts, which a return from the kernel may leave open.
    pub closed spec fn wf_but_sie(&self) -> bool {
        &&& self.plan.wf()
        &&& self.current.state().hart == self.address
    }

    /// The hart with its current thread in state `state`.
    pub closed spec fn with_current_state(&self, state: RawThreadState) -> HardwareThread {
        HardwareThread { current: Box::new(self.current.with_state(state)), ..*self }
    }

    /// What a change of the current thread's state changes.
    pub proof fn lemma_with_current_state(&self, state: RawThreadState)
        ensures
            self.with_current_state(state).current() == self.current().with_state(state),
            self.with_current_state(state).spec_id() == self.spec_id(),
            self.with_current_state(state).address() == self.address(),
            self.with_current_state(state).plan() == self.plan(),
            self.with_current_state(state).guards() == self.guards(),
            self.with_current_state(state).sie() == self.sie(),
            self.with_current_state(state).sie_before() == self.sie_before(),
            self.with_current_state(state).will_drop() == self.will_drop(),
            self.wf() && state.hart == self.address() ==> self.with_current_state(state).wf(),
    {
        lemma_with_state(*self.current, state);
    }

    /// The hart with interrupts masked, as a trap leaves it.
    pub closed spec fn masked(&self) -> HardwareThread {
        HardwareThread { sie: false, ..*self }
    }

    /// What a return to the current thread does.
    pub open spec fn return_post(&self, post: HardwareThread, r: Resume) -> bool {
        &&& post.wf_but_sie()
        &&& r == resume_of(self.current().state(), self.current().state_addr(), self.address())
        &&& post.current() == self.current().with_state(
            state_after_leave(self.current().state(), self.address()),
        )
        &&& post.sie() == bit_of(r.context.sstatus, SSTATUS_SPIE as nat)
        &&& post.spec_id() == self.spec_id()
        &&& post.address() == self.address()
        &&& post.plan() == self.plan()
        &&& post.guards() == self.guards()
        &&& post.sie_before() == self.sie_before()
        &&& post.will_drop() == self.will_drop()
    }

    /// What the low-level yield does.
    pub open spec fn ll_yield_post(
        &self,
        post: HardwareThread,
        next: Thread,
        disposal: Disposal,
        saved: Context,
        sstatus: u64,
        r: (Option<Box<Thread>>, Resume),
    ) -> bool {
        let outgoing = self.current().with_state(state_saved(self.current().state(), saved, sstatus));
        let entered = state_taken_over(next.state(), sstatus, self.address());
        &&& post.wf()
        &&& post.guards() == 0
        &&& post.sie()
        &&& post.spec_id() == self.spec_id()
        &&& post.address() == self.address()
        &&& post.current() == next.with_state(state_after_leave(entered, self.address()))
        &&& r.1 == resume_of(entered, next.state_addr(), self.address())
        &&& !r.1.to_user
        &&& r.1.context.sstatus == fabricated_sstatus(sstatus)
        &&& r.0 == match disposal {
            Disposal::HandOut => Some(Box::new(outgoing)),
            _ => None::<Box<Thread>>,
        }
        &&& post.plan().queue() == match disposal {
            Disposal::Requeue => self.plan().queue().push(outgoing),
            _ => self.plan().queue(),
        }
        &&& post.plan().remaining_ticks() == self.plan().remaining_ticks()
        &&& post.plan().max_ticks() == self.plan().max_ticks()
        &&& post.will_drop() == match disposal {
            Disposal::DeferDrop => self.will_drop().push(outgoing),
            _ => self.will_drop(),
        }
    }

    /// What a yield, or an exit, does.
    pub open spec fn yield_post(
        &self,
        post: HardwareThread,
        exit: bool,
        saved: Context,
        sstatus: u64,
        r: YieldOutcome,
    ) -> bool {
        let outgoing = self.current().with_state(state_saved(self.current().state(), saved, sstatus));
        &&& post.wf()
        &&& post.guards() == 0
        &&& post.sie()
        &&& post.spec_id() == self.spec_id()
        &&& post.address() == self.address()
        &&& post.plan().remaining_ticks() == self.plan().remaining_ticks()
        &&& post.plan().max_ticks() == self.plan().max_ticks()
        &&& if self.plan().queue().len() == 0 {
            &&& r == if exit {
                YieldOutcome::Idle
            } else {
                YieldOutcome::Stayed
            }
            &&& post.same_but_sie_before(*self)
        } else {
            let next = self.plan().queue()[0];
            let entered = state_taken_over(next.state(), sstatus, self.address());
            &&& r == YieldOutcome::Switched(resume_of(entered, next.state_addr(), self.address()))
            &&& post.current() == next.with_state(state_after_leave(entered, self.address()))
            &&& post.plan().queue() == if exit {
                self.plan().queue().skip(1)
            } else {
                self.plan().queue().skip(1).push(outgoing)
            }
            &&& post.will_drop() == if exit {
                self.will_drop().push(outgoing)
            } else {
                self.will_drop()
            }
        }
    }

    /// What a scheduler tick at time `now` does.
    pub open spec fn tick_post(&self, post: HardwareThread, now: u64, r: (Resume, u64)) -> bool {
        let switch = self.plan().remaining_ticks() <= 1 && self.plan().queue().len() > 0;
        let hart = self.address();
        let current = if switch {
            self.plan().queue()[0].with_state(
                RawThreadState { hart, ..self.plan().queue()[0].state() },
            )
        } else {
            self.current()
        };
        &&& post.wf_but_sie()
        &&& r.1 == reentry_deadline(now)
        &&& r.0 == resume_of(current.state(), current.state_addr(), hart)
        &&& post.current() == current.with_state(state_after_leave(current.state(), hart))
        &&& post.sie() == bit_of(r.0.context.sstatus, SSTATUS_SPIE as nat)
        &&& post.plan().queue() == if switch {
            self.plan().queue().skip(1).push(self.current())
        } else {
            self.plan().queue()
        }
        &&& post.plan().max_ticks() == self.plan().max_ticks()
        &&& post.plan().remaining_ticks() == if self.plan().remaining_ticks() <= 1 {
            self.plan().max_ticks()
        } else {
            (self.plan().remaining_ticks() - 1) as u32
        }
        &&& post.spec_id() == self.spec_id()
        &&& post.address() == hart
        &&& post.guards() == self.guards()
        &&& post.sie_before() == self.sie_before()
        &&& post.will_drop() == self.will_drop()
    }

    /// Whether the kernel can be entered for `reason` in the state of the
    /// current thread: out of user mode only by the timer, out of kernel mode
    /// by the timer or by a breakpoint.
    pub open spec fn accepts(&self, reason: EntryReason) -> bool {
        if self.current().state().kcontext_valid == 0 {
            reason == EntryReason::Timer
        } else {
            reason == EntryReason::Timer || reason is Breakpoint
        }
    }

    /// What an entry into the kernel does.
    pub open spec fn enter_post(
        &self,
        post: HardwareThread,
        reason: EntryReason,
        now: u64,
        r: KernelExit,
    ) -> bool {
        let from_user = self.current().state().kcontext_valid == 0;
        if !from_user && reason == EntryReason::Timer {
            &&& self.masked().tick_post(post, now, (r.resume, reentry_deadline(now)))
            &&& r.timer == Some(reentry_deadline(now))
            &&& r.breakpoint.is_none()
        } else {
            &&& self.masked().return_post(post, r.resume)
            &&& r.timer.is_none()
            &&& r.breakpoint == match reason {
                EntryReason::Breakpoint(addr) => Some(addr),
                _ => None::<u64>,
            }
        }
    }

    /// Whether the two harts differ at most in the remembered
    /// interrupt-enable bit, which only matters while a guard is active.
    pub open spec fn same_but_sie_before(&self, other: HardwareThread) -> bool {
        &&& self.spec_id() == other.spec_id()
        &&& self.address() == other.address()
        &&& self.plan().queue() == other.plan().queue()
        &&& self.plan().remaining_ticks() == other.plan().remaining_ticks()
        &&& self.plan().max_ticks() == other.plan().max_ticks()
        &&& self.guards() == other.guards()
        &&& self.sie() == other.sie()
        &&& self.current() == other.current()
        &&& self.will_drop() == other.will_drop()
    }

    /// A hart with the given number, whose record stands at `address`, that
    /// runs `initial_thread`. Interrupts are masked until the hart starts.
    pub fn new(id: Id, address: u64, plan: SimplePolicy, initial_thread: Box<Thread>) -> (ht: Box<
        HardwareThread,
    >)
        requires
            plan.wf(),
        ensures
            ht.wf(),
            ht.spec_id() == id,
            ht.address() == address,
            ht.plan() == plan,
            ht.guards() == 0,
            ht.sie_before(),
            !ht.sie(),
            ht.will_drop() == Seq::<Thread>::empty(),
            ht.current() == initial_thread.with_state(
                RawThreadState { hart: address, ..initial_thread.state() },
            ),
    {
        let mut ht = Box::new(
            HardwareThread {
                id,
                address,
                plan,
                num_intr_guards: 0,
                sie_before_intr_guard: true,
                sie: false,
                current: initial_thread,
                will_drop: Vec::new(),
            },
        );
        ht.populate_thread_state();
        assert(ht.will_drop() =~= Seq::<Thread>::empty());
        ht
    }

    /// The number of the hart.
    pub fn id(&self) -> (id: Id)
        ensures
            id == self.spec_id(),
    {
        self.id
    }

    /// Whether an interrupt guard is active on the hart.
    pub fn has_active_intr_guards(&self) -> (b: bool)
        ensures
            b == (self.guards() != 0),
    {
        self.num_intr_guards != 0
    }

    /// Whether interrupts are enabled on the hart.
    pub fn interrupts_enabled(&self) -> (b: bool)
        ensures
            b == self.sie(),
    {
        self.sie
    }

    /// The policy of the hart.
    pub fn policy(&self) -> (p: &SimplePolicy)
        ensures
            *p == self.plan(),
    {
        &self.plan
    }

    /// The number of threads that have exited and wait to be dropped.
    pub fn will_drop_len(&self) -> (n: usize)
        ensures
            n == self.will_drop().len(),
    {
        self.will_drop.len()
    }

    /// The thread that the hart runs.
    pub fn current_thread(&self) -> (t: &Thread)
        ensures
            *t == self.current(),
    {
        &self.current
    }

    /// Tells the hart where its record stands, and the current thread with
    /// it.
    pub fn set_address(&mut self, address: u64)
        requires
            old(self).wf(),
        ensures
            final(self).wf(),
            final(self).address() == address,
            final(self).current() == old(self).current().with_state(
                RawThreadState { hart: address, ..old(self).current().state() },
            ),
            final(self).spec_id() == old(self).spec_id(),
            final(self).plan() == old(self).plan(),
            final(self).guards() == old(self).guards(),
            final(self).sie() == old(self).sie(),
            final(self).sie_before() == old(self).sie_before(),
            final(self).will_drop() == old(self).will_drop(),
    {
        self.address = address;
        self.populate_thread_state();
    }

    /// Runs `f` on the current thread.
    pub fn with_current<F: FnOnce(&Thread) -> R, R>(&self, f: F) -> (r: R)
        requires
            f.requires((&self.current(),)),
        ensures
            f.ensures((&self.current(),), r),
    {
        f(&self.current)
    }

    /// Replaces the state of the current thread, as the trap entry does when
    /// it saves the interrupted context.
    pub fn set_current_state(&mut self, state: RawThreadState)
        requires
            old(self).wf(),
            state.hart == old(self).address(),
        ensures
            *final(self) == old(self).with_current_state(state),
            final(self).wf(),
    {
        proof {
            lemma_with_state(*self.current, state);
        }
        self.current.set_state(state);
    }

    /// Masks interrupts. The outermost guard remembers whether they were
    /// enabled.
    pub fn acquire_intr_guard(&mut self)
        requires
            old(self).wf(),
            old(self).guards() < usize::MAX,
        ensures
            final(self).wf(),
            final(self).guards() == old(self).guards() + 1,
            !final(self).sie(),
            final(self).sie_before() == if old(self).guards() == 0 {
                old(self).sie()
            } else {
                old(self).sie_before()
            },
            final(self).spec_id() == old(self).spec_id(),
            final(self).address() == old(self).address(),
            final(self).plan() == old(self).plan(),
            final(self).current() == old(self).current(),
            final(self).will_drop() == old(self).will_drop(),
    {
        let prev_sie = self.sie;
        self.sie = false;
        let prev_n = self.num_intr_guards;
        self.num_intr_guards = prev_n + 1;
        if prev_n == 0 {
            self.sie_before_intr_guard = prev_sie;
        }
    }

    /// Ends an interrupt guard. The outermost guard restores the
    /// interrupt-enable bit that it found.
    pub fn release_intr_guard(&mut self)
        requires
            old(self).wf(),
            old(self).guards() > 0,
        ensures
            final(self).wf(),
            final(self).guards() == old(self).guards() - 1,
            final(self).sie() == (old(self).guards() == 1 && old(self).sie_before()),
            final(self).sie_before() == old(self).sie_before(),
            final(self).spec_id() == old(self).spec_id(),
            final(self).address() == old(self).address(),
            final(self).plan() == old(self).plan(),
            final(self).current() == old(self).current(),
            final(self).will_drop() == old(self).will_drop(),
    {
        let prev = self.num_intr_guards;
        self.num_intr_guards = prev - 1;
        if prev == 1 {
            if self.sie_before_intr_guard {
                self.sie = true;
            }
        }
    }

    /// Tells the current thread which hart runs it.
    fn populate_thread_state(&mut self)
        ensures
            final(self).current.state().hart == old(self).address,
            *final(self).current == old(self).current.with_state(
                RawThreadState { hart: old(self).address, ..old(self).current.state() },
            ),
            final(self).id == old(self).id,
            final(self).address == old(self).address,
            final(self).plan == old(self).plan,
            final(self).num_intr_guards == old(self).num_intr_guards,
            final(self).sie_before_intr_guard == old(self).sie_before_intr_guard,
            final(self).sie == old(self).sie,
            final(self).will_drop == old(self).will_drop,
    {
        let mut state: RawThreadState = *self.current.raw_thread_state();
        state.hart = self.address;
        proof {
            lemma_with_state(*self.current, state);
        }
        self.current.set_state(state);
    }

    /// Makes `new_current` the current thread and returns the one that was.
    fn replace_current(&mut self, new_current: Box<Thread>) -> (prev: Box<Thread>)
        ensures
            *prev == *old(self).current,
            *final(self).current == new_current.with_state(
                RawThreadState { hart: old(self).address, ..new_current.state() },
            ),
            final(self).id == old(self).id,
            final(self).address == old(self).address,
            final(self).plan == old(self).plan,
            final(self).num_intr_guards == old(self).num_intr_guards,
            final(self).sie_before_intr_guard == old(self).sie_before_intr_guard,
            final(self).sie == old(self).sie,
            final(self).will_drop == old(self).will_drop,
    {
        let mut prev = new_current;
        std::mem::swap(&mut self.current, &mut prev);
        self.populate_thread_state();
        prev
    }

    /// Leaves the kernel for the current thread, whichever mode it was in.
    /// The interrupt-enable bit becomes what the restored `sstatus` holds as
    /// the previous one.
    fn force_return_to_current(&mut self) -> (r: Resume)
        requires
            old(self).current.state().hart == old(self).address,
        ensures
            r == resume_of(
                old(self).current.state(),
                old(self).current.state_addr(),
                old(self).address,
            ),
            *final(self).current == old(self).current.with_state(
                state_after_leave(old(self).current.state(), old(self).address),
            ),
            final(self).sie == bit_of(r.context.sstatus, SSTATUS_SPIE as nat),
            final(self).id == old(self).id,
            final(self).address == old(self).address,
            final(self).plan == old(self).plan,
            final(self).num_intr_guards == old(self).num_intr_guards,
            final(self).sie_before_intr_guard == old(self).sie_before_intr_guard,
            final(self).will_drop == old(self).will_drop,
    {
        let mut state: RawThreadState = *self.current.raw_thread_state();
        let to_user = state.was_user();
        let sscratch: u64 = if to_user {
            self.current.raw_thread_state_mut_ptr()
        } else {
            0
        };
        if !to_user {
            state.kcontext.gregs[GP] = self.address;
        }
        let context = state.leave();
        proof {
            lemma_with_state(*self.current, state);
            assert(state.kcontext.gregs =~= state_after_leave(
                old(self).current.state(),
                old(self).address,
            ).kcontext.gregs);
            assert(context.gregs =~= resume_of(
                old(self).current.state(),
                old(self).current.state_addr(),
                old(self).address,
            ).context.gregs);
        }
        self.current.set_state(state);
        self.sie = crate::bits::get_bit(context.sstatus, SSTATUS_SPIE);
        Resume { context, to_user, sscratch }
    }

    /// Returns to the current thread.
    pub fn return_to_current(&mut self, _token: &InterruptToken) -> (r: Resume)
        requires
            old(self).wf(),
        ensures
            final(self).wf_but_sie(),
            r == resume_of(
                old(self).current().state(),
                old(self).current().state_addr(),
                old(self).address(),
            ),
            final(self).current() == old(self).current().with_state(
                state_after_leave(old(self).current().state(), old(self).address()),
            ),
            final(self).sie() == bit_of(r.context.sstatus, SSTATUS_SPIE as nat),
            final(self).spec_id() == old(self).spec_id(),
            final(self).address() == old(self).address(),
            final(self).plan() == old(self).plan(),
            final(self).guards() == old(self).guards(),
            final(self).sie_before() == old(self).sie_before(),
            final(self).will_drop() == old(self).will_drop(),
    {
        proof {
            lemma_with_state(
                *self.current,
                state_after_leave(self.current.state(), self.address),
            );
        }
        self.force_return_to_current()
    }

    /// The time for which the timer is armed so that the scheduler is
    /// entered again.
    pub fn prepare_scheduler_reentry(now: u64) -> (deadline: u64)
        ensures
            deadline == reentry_deadline(now),
    {
        now.wrapping_add(DEFAULT_SCHEDULER_REENTRY_TIMEOUT)
    }

    /// Starts the hart: arms the timer and enters the current thread.
    pub fn start(&mut self, now: u64) -> (r: (Resume, u64))
        requires
            old(self).wf(),
        ensures
            final(self).wf_but_sie(),
            r.1 == reentry_deadline(now),
            r.0 == resume_of(
                old(self).current().state(),
                old(self).current().state_addr(),
                old(self).address(),
            ),
            final(self).current() == old(self).current().with_state(
                state_after_leave(old(self).current().state(), old(self).address()),
            ),
            final(self).sie() == bit_of(r.0.context.sstatus, SSTATUS_SPIE as nat),
            final(self).spec_id() == old(self).spec_id(),
            final(self).address() == old(self).address(),
            final(self).plan() == old(self).plan(),
            final(self).guards() == old(self).guards(),
            final(self).will_drop() == old(self).will_drop(),
    {
        let deadline = Self::prepare_scheduler_reentry(now);
        proof {
            lemma_with_state(
                *self.current,
                state_after_leave(self.current.state(), self.address),
            );
        }
        let resume = self.force_return_to_current();
        (resume, deadline)
    }

    /// Hands `thread` to the policy from a thread, with interrupts masked
    /// around the queue.
    pub fn add_thread(&mut self, thread: Box<Thread>, token: &ThreadToken)
        requires
            old(self).wf(),
            old(self).guards() < usize::MAX,
            old(self).plan().queue().len() < RUN_QUEUE_CAPACITY,
        ensures
            final(self).wf(),
            final(self).plan().queue() == old(self).plan().queue().push(*thread),
            final(self).plan().remaining_ticks() == old(self).plan().remaining_ticks(),
            final(self).plan().max_ticks() == old(self).plan().max_ticks(),
            final(self).sie() == old(self).sie(),
            final(self).guards() == old(self).guards(),
            final(self).spec_id() == old(self).spec_id(),
            final(self).address() == old(self).address(),
            final(self).current() == old(self).current(),
            final(self).will_drop() == old(self).will_drop(),
    {
        self.acquire_intr_guard();
        self.plan.add_thread(PolicyContext::NonCritical(token), thread);
        self.release_intr_guard();
    }

    /// The low-level yield: `next` becomes the current thread, and the thread
    /// that was current is disposed of as `disposal` says, after it has
    /// ceased to be current and with interrupts masked. `saved` holds the
    /// registers with which the thread that gives way goes on when it is
    /// resumed, and `sstatus` is the present value of that register.
    ///
    /// Both threads get the fabricated `sstatus` in their kernel context,
    /// which is marked as the context to resume: the thread that gives way
    /// can then be resumed by a tick as well as by a yield. Returns the
    /// thread that gave way, if it is handed out, and how the hart enters
    /// `next`.
    pub fn ll_yield(
        &mut self,
        next: Box<Thread>,
        disposal: Disposal,
        saved: &Context,
        sstatus: u64,
        _token: &ThreadToken,
    ) -> (r: (Option<Box<Thread>>, Resume))
        requires
            old(self).wf(),
            old(self).guards() == 0,
            old(self).sie(),
            disposal == Disposal::Requeue ==> old(self).plan().queue().len() < RUN_QUEUE_CAPACITY,
        ensures
            old(self).ll_yield_post(*final(self), *next, disposal, *saved, sstatus, r),
    {
        self.acquire_intr_guard();
        let fixed: u64 = set_bit(set_bit(sstatus, SSTATUS_SPIE, true), SSTATUS_SPP, true);
        // the thread that gives way keeps the registers it goes on with
        let mut out_state: RawThreadState = *self.current.raw_thread_state();
        out_state.kcontext.gregs = saved.gregs;
        out_state.kcontext.sepc = saved.sepc;
        out_state.kcontext.sstatus = fixed;
        out_state.kcontext_valid = 1;
        self.current.set_state(out_state);
        // switch
        let prev = self.replace_current(next);
        // dispose of the thread that gave way; interrupts are masked
        let handed = match disposal {
            Disposal::Requeue => {
                self.plan.add_thread(PolicyContext::Critical, prev);
                None
            },
            Disposal::DeferDrop => {
                self.will_drop.push(prev);
                None
            },
            Disposal::HandOut => Some(prev),
        };
        // end the guard without unmasking
        self.num_intr_guards = 0;
        // the new thread is entered as if it returned from a trap
        let mut state: RawThreadState = *self.current.raw_thread_state();
        state.kcontext.sstatus = fixed;
        state.kcontext_valid = 1;
        proof {
            lemma_with_state(*next, RawThreadState { hart: old(self).address, ..next.state() });
            lemma_with_state(*self.current, state);
        }
        self.current.set_state(state);
        let resume = self.force_return_to_current();
        proof {
            lemma_fabricated_sstatus(sstatus);
            let entered = state_taken_over(next.state(), sstatus, old(self).address);
            lemma_with_state(*next, RawThreadState { hart: old(self).address, ..next.state() });
            lemma_with_state(*next, entered);
            lemma_with_state(*next, state_after_leave(entered, old(self).address));
            lemma_with_state(*old(self).current, out_state);
            assert(with_gp(entered.kcontext, old(self).address).sstatus == fabricated_sstatus(
                sstatus,
            ));
            assert(self.will_drop() =~= match disposal {
                Disposal::DeferDrop => old(self).will_drop().push(*prev),
                _ => old(self).will_drop(),
            });
        }
        (handed, resume)
    }

    /// Gives up the hart, or ends the current thread.
    ///
    /// The policy is asked for the next thread. If it has one, the hart
    /// switches to it, and the thread that gives way goes to the back of the
    /// run queue, or, if it exits, to the threads that wait to be dropped. If
    /// it has none, a thread that yields goes on, and for a thread that exits
    /// the hart waits for an interrupt and asks again.
    pub fn yield_or_exit(&mut self, token: &ThreadToken, exit: bool, saved: &Context, sstatus: u64) -> (r:
        YieldOutcome)
        requires
            old(self).wf(),
            old(self).guards() == 0,
            old(self).sie(),
        ensures
            old(self).yield_post(*final(self), exit, *saved, sstatus, r),
    {
        self.acquire_intr_guard();
        let next = self.plan.next(PolicyContext::NonCritical(token), SwitchReason::Yield);
        self.release_intr_guard();
        match next {
            Some(next) => {
                let disposal = if exit {
                    Disposal::DeferDrop
                } else {
                    Disposal::Requeue
                };
                let (_, resume) = self.ll_yield(next, disposal, saved, sstatus, token);
                YieldOutcome::Switched(resume)
            },
            None => {
                if exit {
                    YieldOutcome::Idle
                } else {
                    YieldOutcome::Stayed
                }
            },
        }
    }

    /// Ends the current thread.
    pub fn exit_thread(&mut self, token: &ThreadToken, saved: &Context, sstatus: u64) -> (r: YieldOutcome)
        requires
            old(self).wf(),
            old(self).guards() == 0,
            old(self).sie(),
        ensures
            old(self).yield_post(*final(self), true, *saved, sstatus, r),
            !(r is Stayed),
    {
        self.yield_or_exit(token, true, saved, sstatus)
    }

    /// Gives up the hart to the thread that waited longest, if one waits.
    pub fn do_yield(&mut self, token: &ThreadToken, saved: &Context, sstatus: u64) -> (r: YieldOutcome)
        requires
            old(self).wf(),
            old(self).guards() == 0,
            old(self).sie(),
        ensures
            old(self).yield_post(*final(self), false, *saved, sstatus, r),
            !(r is Idle),
    {
        self.yield_or_exit(token, false, saved, sstatus)
    }

    /// Takes the current thread off the hart and hands it to the caller; the
    /// thread that waited longest becomes current. With no thread waiting
    /// nothing changes and nothing is returned: the hart waits for an
    /// interrupt and asks again.
    pub fn release_current(&mut self, token: &ThreadToken, saved: &Context, sstatus: u64) -> (r: Option<
        (Box<Thread>, Resume),
    >)
        requires
            old(self).wf(),
            old(self).guards() == 0,
            old(self).sie(),
        ensures
            final(self).wf(),
            final(self).guards() == 0,
            final(self).sie(),
            r.is_some() == (old(self).plan().queue().len() > 0),
            r.is_none() ==> final(self).same_but_sie_before(*old(self)),
            r.is_some() ==> {
                let next = old(self).plan().queue()[0];
                let entered = state_taken_over(next.state(), sstatus, old(self).address());
                &&& *r.unwrap().0 == old(self).current().with_state(
                    state_saved(old(self).current().state(), *saved, sstatus),
                )
                &&& r.unwrap().1 == resume_of(entered, next.state_addr(), old(self).address())
                &&& final(self).current() == next.with_state(
                    state_after_leave(entered, old(self).address()),
                )
                &&& final(self).plan().queue() == old(self).plan().queue().skip(1)
                &&& final(self).plan().remaining_ticks() == old(self).plan().remaining_ticks()
                &&& final(self).plan().max_ticks() == old(self).plan().max_ticks()
                &&& final(self).will_drop() == old(self).will_drop()
                &&& final(self).spec_id() == old(self).spec_id()
                &&& final(self).address() == old(self).address()
            },
    {
        self.acquire_intr_guard();
        let next = self.plan.next(PolicyContext::NonCritical(token), SwitchReason::Yield);
        self.release_intr_guard();
        match next {
            Some(next) => {
                let (out, resume) = self.ll_yield(next, Disposal::HandOut, saved, sstatus, token);
                match out {
                    Some(t) => Some((t, resume)),
                    None => {
                        proof {
                            assert(false);
                        }
                        None
                    },
                }
            },
            None => None,
        }
    }

    /// The scheduler tick: the policy counts the tick; if it names a thread,
    /// that thread becomes current and the preempted one goes to the back of
    /// the run queue. The timer is armed anew and the hart returns to the
    /// current thread.
    pub fn tick(&mut self, _token: &InterruptToken, now: u64) -> (r: (Resume, u64))
        requires
            old(self).wf(),
        ensures
            old(self).tick_post(*final(self), now, r),
    {
        let next = self.plan.next(PolicyContext::Critical, SwitchReason::Periodic);
        let ghost mid = *self;
        match next {
            Some(next) => {
                let prev = self.replace_current(next);
                self.plan.add_thread(PolicyContext::Critical, prev);
                proof {
                    lemma_with_state(*next, RawThreadState { hart: self.address, ..next.state() });
                }
            },
            None => {},
        }
        let ghost switched = *self;
        let deadline = Self::prepare_scheduler_reentry(now);
        let resume = self.force_return_to_current();
        proof {
            lemma_with_state(
                *switched.current,
                state_after_leave(switched.current.state(), self.address),
            );
        }
        (resume, deadline)
    }

    /// The single entry into the kernel after a trap: a timer interrupt out
    /// of user mode returns to the current thread; one out of kernel mode is
    /// a scheduler tick; a breakpoint in kernel mode is reported and the
    /// thread goes on.
    pub fn enter_kernel(&mut self, token: &InterruptToken, reason: EntryReason, now: u64) -> (r:
        KernelExit)
        requires
            old(self).wf(),
            old(self).accepts(reason),
        ensures
            old(self).enter_post(*final(self), reason, now, r),
    {
        self.sie = false;
        let was_user = self.current.raw_thread_state().was_user();
        match was_user {
            true => self.enter_from_user(token, reason),
            false => self.enter_from_kernel(token, reason, now),
        }
    }

    fn enter_from_user(&mut self, token: &InterruptToken, reason: EntryReason) -> (r: KernelExit)
        requires
            old(self).wf(),
            reason == EntryReason::Timer,
        ensures
            old(self).masked().return_post(*final(self), r.resume),
            r.timer.is_none(),
            r.breakpoint.is_none(),
    {
        KernelExit { resume: self.return_to_current(token), timer: None, breakpoint: None }
    }

    fn enter_from_kernel(&mut self, token: &InterruptToken, reason: EntryReason, now: u64) -> (r:
        KernelExit)
        requires
            old(self).wf(),
            reason == EntryReason::Timer || reason is Breakpoint,
        ensures
            reason == EntryReason::Timer ==> old(self).tick_post(
                *final(self),
                now,
                (r.resume, reentry_deadline(now)),
            ) && r.timer == Some(reentry_deadline(now)) && r.breakpoint.is_none(),
            reason is Breakpoint ==> old(self).return_post(*final(self), r.resume)
                && r.timer.is_none() && r.breakpoint == Some(reason->Breakpoint_0),
    {
        match reason {
            EntryReason::Timer => {
                let (resume, deadline) = self.tick(token, now);
                KernelExit { resume, timer: Some(deadline), breakpoint: None }
            },
            EntryReason::Breakpoint(addr) => {
                KernelExit {
                    resume: self.return_to_current(token),
                    timer: None,
                    breakpoint: Some(addr),
                }
            },
            _ => {
                proof {
                    assert(false);
                }
                KernelExit { resume: self.return_to_current(token), timer: None, breakpoint: None }
            },
        }
    }

    /// Drops the threads that have exited. None of them is the current
    /// thread: the hart executes on no stack of theirs.
    pub fn drain_will_drop(&mut self) -> (n: usize)
        requires
            old(self).wf(),
        ensures
            final(self).wf(),
            n == old(self).will_drop().len(),
            final(self).will_drop().len() == 0,
            final(self).spec_id() == old(self).spec_id(),
            final(self).address() == old(self).address(),
            final(self).plan() == old(self).plan(),
            final(self).guards() == old(self).guards(),
            final(self).sie() == old(self).sie(),
            final(self).sie_before() == old(self).sie_before(),
            final(self).current() == old(self).current(),
    {
        let mut n: usize = 0;
        let total: usize = self.will_drop.len();
        while self.will_drop.len() > 0
            invariant
                self.wf(),
                total == old(self).will_drop@.len(),
                n + self.will_drop@.len() == old(self).will_drop@.len(),
                n <= old(self).will_drop@.len(),
                self.id == old(self).id,
                self.address == old(self).address,
                self.plan == old(self).plan,
                self.num_intr_guards == old(self).num_intr_guards,
                self.sie == old(self).sie,
                self.sie_before_intr_guard == old(self).sie_before_intr_guard,
                self.current == old(self).current,
            decreases self.will_drop@.len(),
        {
            match self.will_drop.pop() {
                Some(th) => {
                    th.drop_assuming_not_current();
                },
                None => {},
            }
            n += 1;
        }
        n
    }
}

} // verus!
