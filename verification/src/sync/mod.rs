pub mod lock;
pub mod waitqueue;
pub mod yield_mutex;

pub use waitqueue::WaitQueue;
pub use yield_mutex::YieldMutex;

use crate::interrupt::handler::InterruptToken;
use crate::scheduler::hart::HardwareThread;
use vstd::prelude::*;

verus! {

/// A value that may only be changed while interrupts are masked.
pub struct IntrCell<T> {
    inner: T,
}

impl<T> IntrCell<T> {
    /// The value in the cell.
    pub closed spec fn view(&self) -> T {
        self.inner
    }

    /// A cell that holds `inner`.
    pub fn new(inner: T) -> (cell: IntrCell<T>)
        ensures
            cell@ == inner,
    {
        IntrCell { inner }
    }

    /// Masks interrupts on `ht` by one more guard and lends the value. The
    /// borrower ends the guard with `release_intr_guard` when it is done.
    pub fn borrow_mut<'a>(&'a mut self, ht: &mut HardwareThread) -> (r: &'a mut T)
        requires
            old(ht).wf(),
            old(ht).guards() < usize::MAX,
        ensures
            *r == old(self)@,
            final(self)@ == *final(r),
            final(ht).wf(),
            final(ht).guards() == old(ht).guards() + 1,
            !final(ht).sie(),
            final(ht).sie_before() == if old(ht).guards() == 0 {
                old(ht).sie()
            } else {
                old(ht).sie_before()
            },
            final(ht).spec_id() == old(ht).spec_id(),
            final(ht).address() == old(ht).address(),
            final(ht).plan() == old(ht).plan(),
            final(ht).current() == old(ht).current(),
            final(ht).will_drop() == old(ht).will_drop(),
    {
        ht.acquire_intr_guard();
        &mut self.inner
    }

    /// Lends the value to an interrupt handler, which runs with interrupts
    /// masked.
    pub fn borrow_mut_intr<'a>(&'a mut self, _token: &'a InterruptToken) -> (r: &'a mut T)
        ensures
            *r == old(self)@,
            final(self)@ == *final(r),
    {
        &mut self.inner
    }
}

/// Runs `f` with interrupts masked on `ht`. Afterwards interrupts are enabled
/// if and only if they were before.
pub fn without_interrupts<F: FnOnce() -> R, R>(ht: &mut HardwareThread, f: F) -> (r: R)
    requires
        old(ht).wf(),
        old(ht).guards() < usize::MAX,
        f.requires(()),
    ensures
        f.ensures((), r),
        final(ht).wf(),
        final(ht).sie() == old(ht).sie(),
        final(ht).guards() == old(ht).guards(),
        final(ht).spec_id() == old(ht).spec_id(),
        final(ht).address() == old(ht).address(),
        final(ht).plan() == old(ht).plan(),
        final(ht).current() == old(ht).current(),
        final(ht).will_drop() == old(ht).will_drop(),
{
    proof {
        ht.lemma_wf();
    }
    ht.acquire_intr_guard();
    let r = f();
    ht.release_intr_guard();
    r
}

} // verus!
