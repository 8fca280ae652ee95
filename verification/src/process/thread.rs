//! Threads and the state that a thread keeps at the top of its kernel stack.

use crate::error::KernelResult;
use crate::interrupt::context::Context;
use vstd::prelude::*;

verus! {

/// A token that indicates execution in a kernel thread context, where
/// interrupts are enabled and the caller may be suspended.
#[derive(Debug)]
pub struct ThreadToken(());

impl ThreadToken {
    /// The token of the thread that is running. To make one is to claim that
    /// the caller runs in a thread and not in an interrupt handler.
    pub fn new() -> ThreadToken {
        ThreadToken(())
    }
}

/// The number of a thread.
#[derive(Copy, Clone, Debug, Eq, PartialEq, Ord, PartialOrd, Structural)]
pub struct Id(pub u64);

/// The number that a source hands out `k` numbers after `next`: the numbers
/// ascend by one, and start over at 0 after the last number of 64 bits.
pub open spec fn id_after(next: u64, k: nat) -> u64 {
    ((next + k) % 0x1_0000_0000_0000_0000) as u64
}

/// The source of thread numbers: it hands out 0, 1, 2, ... in turn.
#[derive(Debug)]
pub struct IdSource {
    next: u64,
}

impl IdSource {
    /// The number that comes next.
    pub closed spec fn next(&self) -> u64 {
        self.next
    }

    /// A source that starts at 0.
    pub fn new() -> (s: IdSource)
        ensures
            s.next() == 0,
    {
        IdSource { next: 0 }
    }

    /// Hands out the next number. After the last number of 64 bits the source
    /// starts over at 0.
    pub fn take(&mut self) -> (id: u64)
        ensures
            id == old(self).next(),
            final(self).next() == id_after(old(self).next(), 1),
    {
        let id: u64 = self.next;
        self.next = if id == u64::MAX {
            0
        } else {
            id + 1
        };
        id
    }
}

/// The value of `sstatus` with which a new thread starts: supervisor mode,
/// and interrupts enabled once the thread is entered.
pub const INITIAL_SSTATUS: u64 = 0x120;

/// The number of bytes of a kernel stack.
pub const KERNEL_STACK_SIZE: usize = 65536;

/// The number of bytes that the state of a thread takes at the top of its
/// kernel stack: two contexts, the hart and the flag.
pub const RAW_THREAD_STATE_SIZE: usize = 560;

/// What a thread keeps at the top of its kernel stack.
#[derive(Clone, Copy, Debug)]
pub struct RawThreadState {
    /// The registers saved when the thread was interrupted in user mode.
    pub ucontext: Context,
    /// The registers saved when the thread was interrupted or gave way in
    /// kernel mode.
    pub kcontext: Context,
    /// The hart that runs the thread, by the address of its record; 0 while
    /// the thread has never been current.
    pub hart: u64,
    /// Whether `kcontext` holds the context to resume; 0 if it does not.
    pub kcontext_valid: u64,
}

impl RawThreadState {
    /// Whether the thread was last in user mode.
    pub fn was_user(&self) -> (u: bool)
        ensures
            u == (self.kcontext_valid == 0),
    {
        self.kcontext_valid == 0
    }

    /// The context that the thread resumes from.
    pub open spec fn last(&self) -> Context {
        if self.kcontext_valid == 0 {
            self.ucontext
        } else {
            self.kcontext
        }
    }

    /// The context that the thread resumes from.
    pub fn last_context(&self) -> (c: &Context)
        ensures
            *c == self.last(),
    {
        if self.was_user() {
            &self.ucontext
        } else {
            &self.kcontext
        }
    }

    /// The context that the thread resumes from, to change it.
    pub fn last_context_mut(&mut self) -> (c: &mut Context)
        ensures
            *c == old(self).last(),
            final(self).hart == old(self).hart,
            final(self).kcontext_valid == old(self).kcontext_valid,
            old(self).kcontext_valid == 0 ==> final(self).ucontext == *final(c) && final(self).kcontext == old(self).kcontext,
            old(self).kcontext_valid != 0 ==> final(self).kcontext == *final(c) && final(self).ucontext == old(self).ucontext,
    {
        if self.was_user() {
            &mut self.ucontext
        } else {
            &mut self.kcontext
        }
    }

    /// Leaves the kernel for the thread: returns the context to resume, and
    /// marks a kernel context as used up.
    pub fn leave(&mut self) -> (c: Context)
        ensures
            c == old(self).last(),
            final(self).kcontext_valid == 0,
            final(self).ucontext == old(self).ucontext,
            final(self).kcontext == old(self).kcontext,
            final(self).hart == old(self).hart,
    {
        if self.was_user() {
            self.ucontext
        } else {
            self.kcontext_valid = 0;
            self.kcontext
        }
    }
}

/// A kernel thread: its number, the process it belongs to if any, and the
/// state at the top of its kernel stack.
#[derive(Debug)]
pub struct Thread {
    id: Id,
    /// The number of the process that owns the thread.
    process: Option<u64>,
    state: RawThreadState,
    /// The address of `state` on the kernel stack.
    state_addr: u64,
    auto_drop_allowed: bool,
}

impl Thread {
    /// The number of the thread.
    pub closed spec fn spec_id(&self) -> Id {
        self.id
    }

    /// The number of the process that owns the thread, if one does.
    pub closed spec fn process(&self) -> Option<u64> {
        self.process
    }

    /// Whether the two are one thread, in whatever state.
    pub open spec fn same_thread(&self, other: Thread) -> bool {
        &&& self.spec_id() == other.spec_id()
        &&& self.process() == other.process()
        &&& self.state_addr() == other.state_addr()
        &&& self.droppable() == other.droppable()
    }

    /// The thread with the state `state`.
    pub closed spec fn with_state(&self, state: RawThreadState) -> Thread {
        Thread { state, ..*self }
    }

    /// The state at the top of the kernel stack.
    pub closed spec fn state(&self) -> RawThreadState {
        self.state
    }

    /// The address of the thread state on the kernel stack.
    pub closed spec fn state_addr(&self) -> u64 {
        self.state_addr
    }

    /// Whether the thread may be dropped.
    pub closed spec fn droppable(&self) -> bool {
        self.auto_drop_allowed
    }

    /// A thread that will enter `entry` with `entry_ctx1` and `entry_ctx2`
    /// through `trampoline`. `state_addr` is the address at which the thread
    /// state stands on the thread's kernel stack.
    pub fn new(
        ids: &mut IdSource,
        trampoline: u64,
        state_addr: u64,
        entry: u64,
        entry_ctx1: u64,
        entry_ctx2: u64,
    ) -> (r: KernelResult<Box<Thread>>)
        ensures
            final(ids).next() == id_after(old(ids).next(), 1),
            r.is_ok(),
            r.unwrap().spec_id() == Id(old(ids).next()),
            r.unwrap().process().is_none(),
            r.unwrap().state_addr() == state_addr,
            !r.unwrap().droppable(),
            r.unwrap().state().kcontext_valid == 1,
            r.unwrap().state().hart == 0,
            r.unwrap().state().kcontext.sepc == trampoline,
            r.unwrap().state().kcontext.sstatus == INITIAL_SSTATUS,
            forall|i: int|
                0 <= i < 32 ==> r.unwrap().state().kcontext.gregs[i] == if i == 2 || i == 10 {
                    state_addr
                } else if i == 11 {
                    entry
                } else if i == 12 {
                    entry_ctx1
                } else if i == 13 {
                    entry_ctx2
                } else {
                    0
                },
            r.unwrap().state().ucontext.sstatus == 0,
            r.unwrap().state().ucontext.sepc == 0,
            forall|i: int| 0 <= i < 32 ==> r.unwrap().state().ucontext.gregs[i] == 0,
    {
        let id = Id(ids.take());
        let mut kcontext = Context::zeroed();
        kcontext.sepc = trampoline;
        kcontext.sstatus = INITIAL_SSTATUS;
        kcontext.gregs[2] = state_addr;
        kcontext.gregs[10] = state_addr;
        kcontext.gregs[11] = entry;
        kcontext.gregs[12] = entry_ctx1;
        kcontext.gregs[13] = entry_ctx2;
        let state = RawThreadState {
            ucontext: Context::zeroed(),
            kcontext,
            hart: 0,
            kcontext_valid: 1,
        };
        Ok(Box::new(Thread { id, process: None, state, state_addr, auto_drop_allowed: false }))
    }

    /// The number of the thread.
    pub fn id(&self) -> (id: Id)
        ensures
            id == self.spec_id(),
    {
        self.id
    }

    /// The size that the thread state must have for the trap entry code.
    pub fn check_ts_size() -> (size: usize)
        ensures
            size == RAW_THREAD_STATE_SIZE,
            size % 16 == 0,
            size == (34 * 2 + 2) * 8,
    {
        RAW_THREAD_STATE_SIZE
    }

    /// Ends the life of a thread that is not running: no hart executes on its
    /// stack.
    pub fn drop_assuming_not_current(self: Box<Self>) -> (id: Id)
        ensures
            id == self.spec_id(),
    {
        let mut th = self;
        th.auto_drop_allowed = true;
        th.id
    }

    /// The address of the thread state on the kernel stack.
    pub fn raw_thread_state_mut_ptr(&self) -> (a: u64)
        ensures
            a == self.state_addr(),
    {
        self.state_addr
    }

    /// The state at the top of the kernel stack.
    pub fn raw_thread_state(&self) -> (s: &RawThreadState)
        ensures
            *s == self.state(),
    {
        &self.state
    }

    /// Replaces the state at the top of the kernel stack.
    pub fn set_state(&mut self, state: RawThreadState)
        ensures
            *final(self) == old(self).with_state(state),
    {
        self.state = state;
    }

    /// The state at the top of the kernel stack, to change it.
    pub fn raw_thread_state_mut(&mut self) -> (s: &mut RawThreadState)
        ensures
            *s == old(self).state(),
            final(self).state() == *final(s),
            final(self).spec_id() == old(self).spec_id(),
            final(self).process() == old(self).process(),
            final(self).state_addr() == old(self).state_addr(),
            final(self).droppable() == old(self).droppable(),
    {
        &mut self.state
    }
}

/// A thread with another state is the same thread, in that state. A thread
/// is what its number, its process, the address of its state and that state
/// make it.
pub proof fn lemma_with_state(t: Thread, state: RawThreadState)
    ensures
        t.with_state(state).state() == state,
        t.with_state(state).same_thread(t),
        t.with_state(t.state()) == t,
        forall|s: RawThreadState| t.with_state(state).with_state(s) == #[trigger] t.with_state(s),
{
}

/// Numbers ascend: of two numbers that a source hands out, the later is the
/// greater, as long as the numbers of 64 bits have not run out in between.
pub proof fn lemma_ids_ascend(next: u64, i: nat, j: nat)
    requires
        i < j,
        next + j <= u64::MAX,
    ensures
        id_after(next, i) < id_after(next, j),
        id_after(next, 0) == next,
{
}

/// To hand out `a` numbers and then `b` more is to hand out `a + b`.
pub proof fn lemma_id_after_adds(next: u64, a: nat, b: nat)
    ensures
        id_after(id_after(next, a), b) == id_after(next, a + b),
{
    let m = 0x1_0000_0000_0000_0000int;
    vstd::arithmetic::div_mod::lemma_add_mod_noop_right(b as int, (next + a) as int, m);
}

} // verus!
