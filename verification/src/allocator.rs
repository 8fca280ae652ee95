//! The kernel heap: memory handed to the allocator from the end of the
//! kernel image up to the end of RAM, and the allocator's lock.

use crate::interrupt::context::Context;
use crate::layout::RAM_END;
use crate::memory::address::VirtualAddress;
use crate::process::thread::ThreadToken;
use crate::scheduler::hart::HardwareThread;
use crate::sync::yield_mutex::{YieldLock, YieldMutex};
use vstd::prelude::*;

verus! {

/// The size of a page of the heap.
pub const PAGE_SIZE: u64 = 4096;

/// What the allocator is told when the heap cannot grow.
pub const ALLOC_FAILED: u64 = u64::MAX;

/// The kernel heap.
pub struct Heap {
    kernel_end: u64,
    heap_top: u64,
    locking: bool,
    /// The lock of the allocator. A thread that finds it taken yields: to
    /// sleep would need the allocator.
    global_mutex: YieldMutex<()>,
}

impl Heap {
    /// The address at which the heap begins.
    pub closed spec fn start(&self) -> u64 {
        self.kernel_end
    }

    /// The first address that the heap has not handed out.
    pub closed spec fn top(&self) -> u64 {
        self.heap_top
    }

    /// Whether the allocator locks itself.
    pub closed spec fn locking(&self) -> bool {
        self.locking
    }

    /// Whether the lock of the allocator is held.
    pub closed spec fn lock_held(&self) -> bool {
        self.global_mutex.locked()
    }

    /// The invariant of the heap: the top never lies below the start.
    pub closed spec fn wf(&self) -> bool {
        self.kernel_end <= self.heap_top
    }

    /// An empty heap that begins at the end of the kernel image, which lies
    /// on a page boundary.
    pub fn init(kernel_end: VirtualAddress) -> (h: Heap)
        requires
            kernel_end.0 % PAGE_SIZE == 0,
        ensures
            h.wf(),
            h.start() == kernel_end.0,
            h.top() == kernel_end.0,
            !h.locking(),
            !h.lock_held(),
    {
        Heap {
            kernel_end: kernel_end.0,
            heap_top: kernel_end.0,
            locking: false,
            global_mutex: YieldMutex::new(()),
        }
    }

    /// Whether the lock of the allocator is held.
    pub fn is_locked(&self) -> (b: bool)
        ensures
            b == self.lock_held(),
    {
        self.global_mutex.is_locked()
    }

    /// From now on the allocator locks itself. This is done once, when all
    /// harts run.
    pub fn enable_locking(&mut self)
        requires
            !old(self).locking(),
        ensures
            final(self).locking(),
            final(self).start() == old(self).start(),
            final(self).top() == old(self).top(),
            final(self).lock_held() == old(self).lock_held(),
            final(self).wf() == old(self).wf(),
    {
        self.locking = true;
    }

    /// The number of bytes that the heap has handed out.
    pub fn heap_usage(&self) -> (n: u64)
        requires
            self.wf(),
        ensures
            n == self.top() - self.start(),
    {
        self.heap_top - self.kernel_end
    }

    /// Hands `size` more bytes to the allocator: returns the address at
    /// which they begin, or `ALLOC_FAILED`, with the heap unchanged, when
    /// they would reach beyond the end of RAM.
    pub fn dlmalloc_alloc(&mut self, size: u64) -> (addr: u64)
        requires
            old(self).wf(),
        ensures
            final(self).wf(),
            final(self).start() == old(self).start(),
            final(self).locking() == old(self).locking(),
            final(self).lock_held() == old(self).lock_held(),
            old(self).top() + size <= RAM_END ==> addr == old(self).top() && final(self).top()
                == old(self).top() + size,
            old(self).top() + size > RAM_END ==> addr == ALLOC_FAILED && final(self).top() == old(self).top(),
    {
        let old_top: u64 = self.heap_top;
        match old_top.checked_add(size) {
            Some(x) => {
                if x <= RAM_END {
                    self.heap_top = x;
                    old_top
                } else {
                    ALLOC_FAILED
                }
            },
            None => ALLOC_FAILED,
        }
    }

    /// Takes the lock of the allocator, if the allocator locks itself. A
    /// thread that finds the lock taken yields the hart and asks again.
    pub fn acquire_global_lock(
        &mut self,
        ht: &mut HardwareThread,
        token: &ThreadToken,
        saved: &Context,
        sstatus: u64,
    ) -> (r: Option<YieldLock>)
        requires
            old(ht).wf(),
            old(ht).guards() == 0,
            old(ht).sie(),
        ensures
            final(self).start() == old(self).start(),
            final(self).top() == old(self).top(),
            final(self).locking() == old(self).locking(),
            final(self).wf() == old(self).wf(),
            !old(self).locking() ==> r.is_none() && final(self).lock_held() == old(self).lock_held()
                && *final(ht) == *old(ht),
            old(self).locking() ==> r.is_some() && final(self).lock_held(),
            old(self).locking() && !old(self).lock_held() ==> r.unwrap() is Acquired && *final(ht)
                == *old(ht),
            old(self).locking() && old(self).lock_held() ==> r.unwrap() is Contended && old(ht).yield_post(*final(ht), false, *saved, sstatus, r.unwrap()->Contended_0),
    {
        if self.locking {
            Some(self.global_mutex.lock(ht, token, saved, sstatus))
        } else {
            None
        }
    }

    /// Gives the lock of the allocator up, if the allocator locks itself.
    pub fn release_global_lock(&mut self)
        requires
            old(self).locking() ==> old(self).lock_held(),
        ensures
            final(self).start() == old(self).start(),
            final(self).top() == old(self).top(),
            final(self).locking() == old(self).locking(),
            final(self).wf() == old(self).wf(),
            final(self).lock_held() == (!old(self).locking() && old(self).lock_held()),
    {
        if self.locking {
            self.global_mutex.unlock();
        }
    }
}

} // verus!
