//! Kernel tasks: work that runs to completion in a thread of its own.

use crate::error::KernelResult;
use crate::process::thread::{id_after, Id, IdSource, Thread, ThreadToken};
use crate::scheduler::hart::HardwareThread;
use crate::scheduler::plan::RUN_QUEUE_CAPACITY;
use vstd::prelude::*;

verus! {

/// Work that a kernel thread carries out. When `run` returns the thread
/// exits.
pub trait KernelTask {
    fn run(self: Box<Self>, ht: &mut HardwareThread, token: &ThreadToken);
}

/// A boxed task as the two words it is made of, which the new thread gets in
/// its registers and puts together again.
#[derive(Clone, Copy, Debug)]
pub struct RawTask {
    pub data: u64,
    pub vtable: u64,
}

/// The addresses that a new kernel thread starts from: the trampoline that
/// a thread is entered through, the function that puts the task together and
/// runs it, and the place of the thread state on the new kernel stack.
#[derive(Clone, Copy, Debug)]
pub struct ThreadStart {
    pub trampoline: u64,
    pub task_trampoline: u64,
    pub state_addr: u64,
}

/// Whether `th` is a thread that will run `task` when it is entered, made
/// with the number `id`.
pub open spec fn runs_task(th: Thread, id: u64, start: ThreadStart, task: RawTask) -> bool {
    &&& th.spec_id() == Id(id)
    &&& th.process().is_none()
    &&& th.state_addr() == start.state_addr
    &&& !th.droppable()
    &&& th.state().kcontext_valid == 1
    &&& th.state().kcontext.sepc == start.trampoline
    &&& th.state().kcontext.sstatus == crate::process::thread::INITIAL_SSTATUS
    &&& th.state().kcontext.gregs[2] == start.state_addr
    &&& th.state().kcontext.gregs[10] == start.state_addr
    &&& th.state().kcontext.gregs[11] == start.task_trampoline
    &&& th.state().kcontext.gregs[12] == task.data
    &&& th.state().kcontext.gregs[13] == task.vtable
}

/// A thread that runs `task`.
pub fn create_kernel_thread(ids: &mut IdSource, start: ThreadStart, task: RawTask) -> (r: KernelResult<
    Box<Thread>,
>)
    ensures
        final(ids).next() == id_after(old(ids).next(), 1),
        r.is_ok(),
        runs_task(*r.unwrap(), old(ids).next(), start, task),
{
    Thread::new(ids, start.trampoline, start.state_addr, start.task_trampoline, task.data, task.vtable)
}

/// Makes a thread that runs `task` and hands it to the policy of `ht`.
pub fn spawn(
    ht: &mut HardwareThread,
    ids: &mut IdSource,
    start: ThreadStart,
    task: RawTask,
    token: &ThreadToken,
) -> (r: KernelResult<()>)
    requires
        old(ht).wf(),
        old(ht).guards() < usize::MAX,
        old(ht).plan().queue().len() < RUN_QUEUE_CAPACITY,
    ensures
        r.is_ok(),
        final(ids).next() == id_after(old(ids).next(), 1),
        final(ht).wf(),
        final(ht).plan().queue().len() == old(ht).plan().queue().len() + 1,
        final(ht).plan().queue().drop_last() == old(ht).plan().queue(),
        runs_task(final(ht).plan().queue().last(), old(ids).next(), start, task),
        final(ht).plan().remaining_ticks() == old(ht).plan().remaining_ticks(),
        final(ht).sie() == old(ht).sie(),
        final(ht).guards() == old(ht).guards(),
        final(ht).current() == old(ht).current(),
        final(ht).will_drop() == old(ht).will_drop(),
{
    let th = match create_kernel_thread(ids, start, task) {
        Ok(th) => th,
        Err(e) => {
            return Err(e);
        },
    };
    ht.add_thread(th, token);
    proof {
        assert(final(ht).plan().queue().drop_last() =~= old(ht).plan().queue());
    }
    Ok(())
}

} // verus!
