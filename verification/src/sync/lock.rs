//! The sleeping mutex: a thread that finds it taken waits in the wait queue,
//! on the physical address of the lock byte.

use crate::interrupt::context::Context;
use crate::layout::KERNEL_IDMAP_START;
use crate::memory::address::{PhysicalAddress, VirtualAddress};
use crate::process::thread::ThreadToken;
use crate::scheduler::hart::HardwareThread;
use crate::scheduler::plan::RUN_QUEUE_CAPACITY;
use crate::sync::waitqueue::{after_wake, woken, WaitOutcome, WaitQueue};
use vstd::prelude::*;

verus! {

/// How an attempt to take a sleeping mutex ended.
#[derive(Clone, Copy, Debug)]
pub enum MutexLock {
    /// The caller holds the mutex.
    Acquired,
    /// Another thread holds the mutex. The caller has asked to wait on the
    /// lock byte, with the outcome given, and tries again when it runs next.
    Contended(WaitOutcome),
}

/// A mutex whose waiters sleep. It must stay where it is: the address of its
/// lock byte is the key under which its waiters sleep.
pub struct Mutex<T> {
    locked: u8,
    inner: T,
    /// The address of the lock byte.
    lock_addr: VirtualAddress,
}

impl<T> Mutex<T> {
    /// Whether a thread holds the mutex.
    pub closed spec fn locked(&self) -> bool {
        self.locked != 0
    }

    /// The value that the mutex guards.
    pub closed spec fn view(&self) -> T {
        self.inner
    }

    /// The physical address of the lock byte.
    pub closed spec fn key(&self) -> u64 {
        (self.lock_addr.0 - KERNEL_IDMAP_START) as u64
    }

    /// The invariant of the mutex: its lock byte lies in the kernel window.
    pub closed spec fn wf(&self) -> bool {
        &&& self.lock_addr.0 >= KERNEL_IDMAP_START
        &&& self.locked <= 1
    }

    /// A mutex that guards `inner`, whose lock byte stands at `lock_addr`,
    /// and that nobody holds.
    pub fn new(inner: T, lock_addr: VirtualAddress) -> (m: Mutex<T>)
        requires
            lock_addr.0 >= KERNEL_IDMAP_START,
        ensures
            m.wf(),
            !m.locked(),
            m@ == inner,
            m.key() == lock_addr.0 - KERNEL_IDMAP_START,
    {
        Mutex { locked: 0, inner, lock_addr }
    }

    /// Whether a thread holds the mutex.
    pub fn is_locked(&self) -> (b: bool)
        ensures
            b == self.locked(),
    {
        self.locked != 0
    }

    /// The guarded value.
    pub fn get(&self) -> (r: &T)
        ensures
            *r == self@,
    {
        &self.inner
    }

    /// The physical address of the lock byte.
    fn key_addr(&self) -> (a: PhysicalAddress)
        requires
            self.wf(),
        ensures
            a.0 == self.key(),
    {
        match self.lock_addr.to_phys() {
            Some(a) => a,
            None => {
                proof {
                    assert(false);
                }
                PhysicalAddress(0)
            },
        }
    }

    /// Tries to take the mutex. When another thread holds it, the caller
    /// waits on the lock byte for as long as the mutex is held.
    pub fn lock(
        &mut self,
        queue: &mut WaitQueue,
        ht: &mut HardwareThread,
        token: &ThreadToken,
        saved: &Context,
        sstatus: u64,
    ) -> (r: MutexLock)
        requires
            old(self).wf(),
            old(queue).wf(),
            old(ht).wf(),
            old(ht).guards() == 0,
            old(ht).sie(),
        ensures
            final(self).wf(),
            final(self).locked(),
            final(self)@ == old(self)@,
            final(self).key() == old(self).key(),
            final(queue).wf(),
            final(ht).wf(),
            !old(self).locked() ==> r is Acquired && *final(queue) == *old(queue) && *final(ht)
                == *old(ht),
            old(self).locked() ==> r is Contended && old(queue).wait_post(
                *final(queue),
                *old(ht),
                *final(ht),
                old(self).key(),
                true,
                *saved,
                sstatus,
                r->Contended_0,
            ),
    {
        if self.locked == 0 {
            self.locked = 1;
            MutexLock::Acquired
        } else {
            let addr = self.key_addr();
            MutexLock::Contended(queue.wait(ht, addr, self.locked == 1, token, saved, sstatus))
        }
    }

    /// Gives the mutex up and wakes the thread that waits longest for it.
    pub fn unlock(&mut self, queue: &mut WaitQueue, ht: &mut HardwareThread, token: &ThreadToken)
        requires
            old(self).wf(),
            old(self).locked(),
            old(queue).wf(),
            old(ht).wf(),
            old(ht).guards() == 0,
            old(queue).waiters().contains_key(old(self).key()) ==> old(ht).plan().queue().len()
                < RUN_QUEUE_CAPACITY,
        ensures
            final(self).wf(),
            !final(self).locked(),
            final(self)@ == old(self)@,
            final(self).key() == old(self).key(),
            final(queue).wf(),
            final(ht).wf(),
            final(queue).waiters() == after_wake(old(queue).waiters(), old(self).key()),
            final(ht).plan().queue() == match woken(old(queue).waiters(), old(self).key()) {
                Some(t) => old(ht).plan().queue().push(t),
                None => old(ht).plan().queue(),
            },
            final(ht).sie() == old(ht).sie(),
            final(ht).current() == old(ht).current(),
    {
        self.locked = 0;
        let addr = self.key_addr();
        queue.wake_one(ht, addr, token);
    }

    /// The guarded value, for the thread that holds the mutex.
    pub fn get_mut(&mut self) -> (r: &mut T)
        requires
            old(self).locked(),
        ensures
            *r == old(self)@,
            final(self)@ == *final(r),
            final(self).locked(),
            final(self).wf() == old(self).wf(),
            final(self).key() == old(self).key(),
    {
        &mut self.inner
    }
}

} // verus!
