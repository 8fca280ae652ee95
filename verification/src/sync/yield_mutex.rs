use crate::interrupt::context::Context;
use crate::process::thread::ThreadToken;
use crate::scheduler::hart::{HardwareThread, YieldOutcome};
use vstd::prelude::*;

verus! {

/// How an attempt to take a yield-mutex ended.
#[derive(Clone, Copy, Debug)]
pub enum YieldLock {
    /// The caller holds the mutex.
    Acquired,
    /// Another thread holds the mutex. The caller has yielded the hart, with
    /// the outcome given, and tries again when it runs next.
    Contended(YieldOutcome),
}

/// A mutex whose waiters yield the hart instead of sleeping: to take it never
/// allocates, so the allocator can lock itself with it.
pub struct YieldMutex<T> {
    inner: T,
    lock: u8,
}

impl<T> YieldMutex<T> {
    /// Whether a thread holds the mutex.
    pub closed spec fn locked(&self) -> bool {
        self.lock != 0
    }

    /// The value that the mutex guards.
    pub closed spec fn view(&self) -> T {
        self.inner
    }

    /// A mutex that guards `inner`, and that nobody holds.
    pub fn new(inner: T) -> (m: YieldMutex<T>)
        ensures
            !m.locked(),
            m@ == inner,
    {
        YieldMutex { inner, lock: 0 }
    }

    /// Tries to take the mutex. When another thread holds it, the caller
    /// yields the hart.
    pub fn lock(
        &mut self,
        ht: &mut HardwareThread,
        token: &ThreadToken,
        saved: &Context,
        sstatus: u64,
    ) -> (r: YieldLock)
        requires
            old(ht).wf(),
            old(ht).guards() == 0,
            old(ht).sie(),
        ensures
            final(self).locked(),
            final(self)@ == old(self)@,
            !old(self).locked() ==> r is Acquired && *final(ht) == *old(ht),
            old(self).locked() ==> r is Contended && old(ht).yield_post(
                *final(ht),
                false,
                *saved,
                sstatus,
                r->Contended_0,
            ),
    {
        if self.lock == 0 {
            self.lock = 1;
            YieldLock::Acquired
        } else {
            YieldLock::Contended(ht.do_yield(token, saved, sstatus))
        }
    }

    /// Whether a thread holds the mutex.
    pub fn is_locked(&self) -> (b: bool)
        ensures
            b == self.locked(),
    {
        self.lock != 0
    }

    /// Gives the mutex up.
    pub fn unlock(&mut self)
        ensures
            !final(self).locked(),
            final(self)@ == old(self)@,
    {
        self.lock = 0;
    }

    /// The guarded value, for the thread that holds the mutex.
    pub fn get_mut(&mut self) -> (r: &mut T)
        requires
            old(self).locked(),
        ensures
            *r == old(self)@,
            final(self)@ == *final(r),
            final(self).locked(),
    {
        &mut self.inner
    }
}

} // verus!
