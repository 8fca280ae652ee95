//! The wait queue: threads that sleep until another thread wakes them, keyed
//! by the physical address they wait on.

use crate::interrupt::context::Context;
use crate::memory::address::PhysicalAddress;
use crate::process::thread::{Thread, ThreadToken};
use crate::scheduler::hart::{
    resume_of, state_after_leave, state_saved, state_taken_over, HardwareThread, Resume,
};
use crate::scheduler::plan::RUN_QUEUE_CAPACITY;
use std::collections::BTreeMap;
use std::collections::VecDeque;
use vstd::prelude::*;

verus! {

broadcast use vstd::std_specs::btree::group_btree_axioms;

/// How a request to wait ended.
#[derive(Clone, Copy, Debug)]
pub enum WaitOutcome {
    /// The reason to wait was gone: the caller goes on.
    NotNeeded,
    /// The caller sleeps in the queue, and the hart resumes another thread.
    Suspended(Resume),
    /// No other thread can run: nothing has changed, and the hart waits for
    /// an interrupt and asks again.
    Idle,
}

/// The waiters after `thread` began to wait on `addr`: it stands behind those
/// that wait there already.
pub open spec fn after_wait(w: Map<u64, Seq<Thread>>, addr: u64, thread: Thread) -> Map<
    u64,
    Seq<Thread>,
> {
    if w.contains_key(addr) {
        w.insert(addr, w[addr].push(thread))
    } else {
        w.insert(addr, seq![thread])
    }
}

/// The thread that a wake on `addr` resumes: the one that waits there
/// longest.
pub open spec fn woken(w: Map<u64, Seq<Thread>>, addr: u64) -> Option<Thread> {
    if w.contains_key(addr) && w[addr].len() > 0 {
        Some(w[addr][0])
    } else {
        None
    }
}

/// The waiters after a wake on `addr`.
pub open spec fn after_wake(w: Map<u64, Seq<Thread>>, addr: u64) -> Map<u64, Seq<Thread>> {
    if w.contains_key(addr) && w[addr].len() > 1 {
        w.insert(addr, w[addr].skip(1))
    } else {
        w.remove(addr)
    }
}

/// The waiters after the threads of `threads` began to wait on `addr`, one
/// after the other.
pub open spec fn after_waits(w: Map<u64, Seq<Thread>>, addr: u64, threads: Seq<Thread>) -> Map<
    u64,
    Seq<Thread>,
>
    decreases threads.len(),
{
    if threads.len() == 0 {
        w
    } else {
        after_waits(after_wait(w, addr, threads[0]), addr, threads.skip(1))
    }
}

/// The threads that `n` wakes on `addr` resume, in the order of the wakes.
pub open spec fn wakes(w: Map<u64, Seq<Thread>>, addr: u64, n: nat) -> Seq<Thread>
    decreases n,
{
    if n == 0 {
        Seq::empty()
    } else {
        match woken(w, addr) {
            Some(t) => seq![t] + wakes(after_wake(w, addr), addr, (n - 1) as nat),
            None => Seq::empty(),
        }
    }
}

proof fn lemma_after_waits(w: Map<u64, Seq<Thread>>, addr: u64, threads: Seq<Thread>)
    requires
        w.contains_key(addr),
    ensures
        after_waits(w, addr, threads).contains_key(addr),
        after_waits(w, addr, threads)[addr] == w[addr] + threads,
    decreases threads.len(),
{
    if threads.len() == 0 {
        assert(w[addr] + threads =~= w[addr]);
    } else {
        let w1 = after_wait(w, addr, threads[0]);
        lemma_after_waits(w1, addr, threads.skip(1));
        assert(w[addr].push(threads[0]) + threads.skip(1) =~= w[addr] + threads);
    }
}

proof fn lemma_wakes(w: Map<u64, Seq<Thread>>, addr: u64, n: nat)
    requires
        w.contains_key(addr),
        n <= w[addr].len(),
    ensures
        wakes(w, addr, n) == w[addr].take(n as int),
    decreases n,
{
    if n == 0 {
        assert(w[addr].take(0) =~= Seq::<Thread>::empty());
    } else {
        let w1 = after_wake(w, addr);
        if n > 1 {
            lemma_wakes(w1, addr, (n - 1) as nat);
            assert(seq![w[addr][0]] + w[addr].skip(1).take(n - 1) =~= w[addr].take(n as int));
        } else {
            assert(wakes(w1, addr, 0) =~= Seq::<Thread>::empty());
            assert(seq![w[addr][0]] + Seq::<Thread>::empty() =~= w[addr].take(1));
        }
    }
}

/// Waiters are woken in the order in which they began to wait: after the
/// threads of `threads` began to wait on an address, one after the other
/// behind those that waited there before, as many wakes resume first the
/// earlier waiters and then the threads of `threads`, in their order.
pub proof fn lemma_wake_order(w: Map<u64, Seq<Thread>>, addr: u64, threads: Seq<Thread>)
    requires
        threads.len() > 0,
    ensures
        wakes(after_waits(w, addr, threads), addr, threads.len()) == (if w.contains_key(addr) {
            w[addr] + threads
        } else {
            threads
        }).take(threads.len() as int),
        !w.contains_key(addr) ==> wakes(after_waits(w, addr, threads), addr, threads.len())
            == threads,
{
    let w1 = after_wait(w, addr, threads[0]);
    lemma_after_waits(w1, addr, threads.skip(1));
    let all = after_waits(w, addr, threads);
    assert(all == after_waits(w1, addr, threads.skip(1)));
    lemma_wakes(all, addr, threads.len());
    if w.contains_key(addr) {
        assert(w[addr].push(threads[0]) + threads.skip(1) =~= w[addr] + threads);
    } else {
        assert(seq![threads[0]] + threads.skip(1) =~= threads);
        assert(threads.take(threads.len() as int) =~= threads);
    }
}

/// The threads that a list of waiter slots holds, in the order of the slots.
pub open spec fn slot_threads(slots: Seq<Option<Thread>>) -> Seq<Thread> {
    Seq::new(slots.len(), |i: int| slots[i].unwrap())
}

/// The threads that wait, by the address they wait on.
///
/// Each address has a list of waiter slots. A slot is made empty, to reserve
/// the place of a thread that is about to sleep, and is filled when that
/// thread has ceased to run. Between two operations every slot is filled.
pub struct WaitQueue {
    wakeup_sets: BTreeMap<u64, VecDeque<Option<Thread>>>,
}

impl WaitQueue {
    /// The waiters of each address that has any, the one that waits longest
    /// first.
    pub closed spec fn waiters(&self) -> Map<u64, Seq<Thread>> {
        Map::new(
            |a: u64| self.wakeup_sets@.contains_key(a),
            |a: u64| slot_threads(self.wakeup_sets@[a]@),
        )
    }

    /// The invariant of the queue: an address without waiters has no entry,
    /// and no slot is empty.
    pub closed spec fn wf(&self) -> bool {
        forall|a: u64| #[trigger]
            self.wakeup_sets@.contains_key(a) ==> self.wakeup_sets@[a]@.len() > 0 && forall|i: int|
                0 <= i < self.wakeup_sets@[a]@.len() ==> (#[trigger] self.wakeup_sets@[a]@[i]).is_some()
    }

    /// What the invariant says of the waiters.
    pub proof fn lemma_wf(&self)
        requires
            self.wf(),
        ensures
            forall|a: u64| #[trigger] self.waiters().contains_key(a) ==> self.waiters()[a].len() > 0,
    {
    }

    /// What `wait` does to the queue and to the hart.
    pub open spec fn wait_post(
        &self,
        post: WaitQueue,
        ht: HardwareThread,
        post_ht: HardwareThread,
        addr: u64,
        condition: bool,
        saved: Context,
        sstatus: u64,
        r: WaitOutcome,
    ) -> bool {
        &&& post.wf()
        &&& post_ht.wf()
        &&& post_ht.guards() == 0
        &&& post_ht.sie()
        &&& !condition ==> r is NotNeeded
        &&& condition && ht.plan().queue().len() == 0 ==> r is Idle
        &&& !(r is Suspended) ==> post.waiters() == self.waiters() && post_ht.same_but_sie_before(ht)
        &&& condition && ht.plan().queue().len() > 0 ==> {
            let outgoing = ht.current().with_state(state_saved(ht.current().state(), saved, sstatus));
            let next = ht.plan().queue()[0];
            let entered = state_taken_over(next.state(), sstatus, ht.address());
            &&& r == WaitOutcome::Suspended(resume_of(entered, next.state_addr(), ht.address()))
            &&& post.waiters() == after_wait(self.waiters(), addr, outgoing)
            &&& post_ht.current() == next.with_state(state_after_leave(entered, ht.address()))
            &&& post_ht.plan().queue() == ht.plan().queue().skip(1)
            &&& post_ht.plan().remaining_ticks() == ht.plan().remaining_ticks()
            &&& post_ht.plan().max_ticks() == ht.plan().max_ticks()
            &&& post_ht.will_drop() == ht.will_drop()
            &&& post_ht.spec_id() == ht.spec_id()
            &&& post_ht.address() == ht.address()
        }
    }

    /// A queue in which no thread waits.
    pub fn new() -> (q: WaitQueue)
        ensures
            q.wf(),
            q.waiters() == Map::<u64, Seq<Thread>>::empty(),
    {
        let q = WaitQueue { wakeup_sets: BTreeMap::new() };
        assert(q.waiters() =~= Map::<u64, Seq<Thread>>::empty());
        q
    }

    /// The number of threads that wait on `addr`.
    pub fn waiting(&self, addr: PhysicalAddress) -> (n: usize)
        ensures
            n == if self.waiters().contains_key(addr.0) {
                self.waiters()[addr.0].len()
            } else {
                0
            },
    {
        match self.wakeup_sets.get(&addr.0) {
            Some(list) => list.len(),
            None => 0,
        }
    }

    /// Wakes the thread that waits longest on `addr`, if one waits there: it
    /// leaves the queue and goes to the back of the run queue of `ht`.
    pub fn wake_one(&mut self, ht: &mut HardwareThread, addr: PhysicalAddress, token: &ThreadToken)
        requires
            old(self).wf(),
            old(ht).wf(),
            old(ht).guards() == 0,
            old(self).waiters().contains_key(addr.0) ==> old(ht).plan().queue().len()
                < RUN_QUEUE_CAPACITY,
        ensures
            final(self).wf(),
            final(ht).wf(),
            final(self).waiters() == after_wake(old(self).waiters(), addr.0),
            final(ht).plan().queue() == match woken(old(self).waiters(), addr.0) {
                Some(t) => old(ht).plan().queue().push(t),
                None => old(ht).plan().queue(),
            },
            final(ht).plan().remaining_ticks() == old(ht).plan().remaining_ticks(),
            final(ht).plan().max_ticks() == old(ht).plan().max_ticks(),
            final(ht).sie() == old(ht).sie(),
            final(ht).guards() == 0,
            final(ht).spec_id() == old(ht).spec_id(),
            final(ht).address() == old(ht).address(),
            final(ht).current() == old(ht).current(),
            final(ht).will_drop() == old(ht).will_drop(),
    {
        let ghost before = self.wakeup_sets@;
        let th = match self.wakeup_sets.remove(&addr.0) {
            Some(list) => {
                let mut s = list;
                let ghost slots = s@;
                assert(slots == before[addr.0]@);
                assert(slots[0].is_some());
                let elem = match s.pop_front() {
                    Some(slot) => slot,
                    None => None,
                };
                assert(slot_threads(s@) =~= slot_threads(slots).skip(1));
                if s.len() != 0 {
                    self.wakeup_sets.insert(addr.0, s);
                }
                elem
            },
            None => None,
        };
        proof {
            assert(self.waiters() =~= after_wake(old(self).waiters(), addr.0));
        }
        if let Some(th) = th {
            ht.add_thread(Box::new(th), token);
        }
    }

    /// Puts the current thread of `ht` to sleep on `addr`, if `condition`
    /// holds: the reason to wait, looked at again under the lock of the
    /// queue. The thread gets its place behind the waiters of `addr`, ceases
    /// to be current, and only then is put in that place; the thread that
    /// waited longest to run becomes current.
    pub fn wait(
        &mut self,
        ht: &mut HardwareThread,
        addr: PhysicalAddress,
        condition: bool,
        token: &ThreadToken,
        saved: &Context,
        sstatus: u64,
    ) -> (r: WaitOutcome)
        requires
            old(self).wf(),
            old(ht).wf(),
            old(ht).guards() == 0,
            old(ht).sie(),
        ensures
            old(self).wait_post(*final(self), *old(ht), *final(ht), addr.0, condition, *saved, sstatus, r),
    {
        if !condition {
            return WaitOutcome::NotNeeded;
        }
        // reserve the place of the caller behind the waiters of the address
        let ghost before = self.wakeup_sets@;
        let mut list = match self.wakeup_sets.remove(&addr.0) {
            Some(l) => l,
            None => VecDeque::new(),
        };
        let ghost slots = list@;
        list.push_back(None);
        // the caller ceases to run, and only then takes its place
        let released = ht.release_current(token, saved, sstatus);
        list.pop_back();
        assert(list@ =~= slots);
        match released {
            Some((current, resume)) => {
                list.push_back(Some(*current));
                proof {
                    assert(slot_threads(list@) =~= slot_threads(slots).push(*current));
                    assert(slot_threads(Seq::<Option<Thread>>::empty().push(Some(*current)))
                        =~= seq![*current]);
                }
                self.wakeup_sets.insert(addr.0, list);
                proof {
                    assert(self.waiters() =~= after_wait(old(self).waiters(), addr.0, *current));
                }
                WaitOutcome::Suspended(resume)
            },
            None => {
                if list.len() != 0 {
                    self.wakeup_sets.insert(addr.0, list);
                }
                proof {
                    if before.contains_key(addr.0) {
                        assert(slots == before[addr.0]@);
                    }
                    assert(self.waiters() =~= old(self).waiters());
                }
                WaitOutcome::Idle
            },
        }
    }
}

} // verus!
