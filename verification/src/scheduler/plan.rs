//! The scheduling policy: which thread a hart runs next.

use crate::process::thread::{Thread, ThreadToken};
use arraydeque::behavior::Saturating;
use arraydeque::ArrayDeque;
use vstd::prelude::*;

verus! {

/// Why the hart asks for another thread.
#[derive(Copy, Clone, Debug, PartialEq, Eq, Structural)]
pub enum SwitchReason {
    /// The running thread gives up the rest of its time.
    Yield,
    /// The timer fired.
    Periodic,
}

/// The context in which a method of a policy is called.
#[derive(Copy, Clone, Debug)]
pub enum PolicyContext<'a> {
    /// The scheduler tick, with interrupts masked: the policy must neither
    /// allocate nor wait.
    Critical,
    /// A thread.
    NonCritical(&'a ThreadToken),
}

/// The number of threads that the run queue of a hart has room for.
pub const RUN_QUEUE_CAPACITY: usize = 512;

/// The number of ticks between two switches by the timer.
pub const MAX_TICKS: u32 = 10;

/// The run queue of a hart: a bounded queue of `arraydeque`, which refuses a
/// thread when it is full.
#[verifier::external_body]
pub struct RunQueue {
    inner: Box<ArrayDeque<[Box<Thread>; 512], Saturating>>,
}

/// The threads in a run queue, the one that waited longest first.
pub uninterp spec fn run_queue_threads(q: RunQueue) -> Seq<Thread>;

/// Calls `ArrayDeque::new` of `arraydeque`. The contract claims that the new
/// queue holds no thread.
#[verifier::external_body]
fn run_queue_new() -> (q: RunQueue)
    ensures
        run_queue_threads(q) == Seq::<Thread>::empty(),
{
    RunQueue { inner: Box::new(ArrayDeque::new()) }
}

/// Calls `ArrayDeque::len` of `arraydeque`. The contract claims that the call
/// returns the number of threads in the queue.
#[verifier::external_body]
fn run_queue_len(q: &RunQueue) -> (n: usize)
    ensures
        n == run_queue_threads(*q).len(),
{
    q.inner.len()
}

/// Calls `ArrayDeque::push_back` of `arraydeque`, on a queue that saturates.
/// The contract claims that the thread goes to the back of a queue that has
/// room, and that a full queue stays as it is and hands the thread back.
#[verifier::external_body]
fn run_queue_push_back(
    q: &mut RunQueue,
    thread: Box<Thread>,
) -> (r: Result<(), Box<Thread>>)
    ensures
        run_queue_threads(*old(q)).len() < RUN_QUEUE_CAPACITY ==> r.is_ok(),
        run_queue_threads(*old(q)).len() >= RUN_QUEUE_CAPACITY ==> r.is_err(),
        r.is_err() ==> r.unwrap_err() == thread,
        r.is_ok() ==> run_queue_threads(*final(q)) == run_queue_threads(*old(q)).push(*thread),
        r.is_err() ==> run_queue_threads(*final(q)) == run_queue_threads(*old(q)),
{
    match q.inner.push_back(thread) {
        Ok(()) => Ok(()),
        Err(e) => Err(e.element),
    }
}

/// Calls `ArrayDeque::pop_front` of `arraydeque`. The contract claims that
/// the call takes the thread at the front out of the queue and returns it,
/// and that it returns nothing on an empty queue.
#[verifier::external_body]
fn run_queue_pop_front(q: &mut RunQueue) -> (r: Option<Box<Thread>>)
    ensures
        run_queue_threads(*old(q)).len() == 0 ==> r.is_none() && run_queue_threads(*final(q))
            == run_queue_threads(*old(q)),
        run_queue_threads(*old(q)).len() > 0 ==> r == Some(Box::new(run_queue_threads(*old(q))[0]))
            && run_queue_threads(*final(q)) == run_queue_threads(*old(q)).skip(1),
{
    q.inner.pop_front()
}

/// A scheduling policy of a hart.
pub trait Policy<T> {
    /// The invariant of the policy.
    spec fn wf(&self) -> bool;

    /// Whether the policy can take one more thread.
    spec fn has_room(&self) -> bool;

    /// Hands a thread that can run to the policy.
    fn add_thread(&mut self, context: PolicyContext, thread: Box<T>)
        requires
            old(self).wf(),
            old(self).has_room(),
        ensures
            final(self).wf(),
    ;

    /// Asks the policy for the thread to run next. With no answer the hart
    /// keeps its thread.
    fn next(&mut self, context: PolicyContext, reason: SwitchReason) -> (r: Option<Box<T>>)
        requires
            old(self).wf(),
        ensures
            final(self).wf(),
            r.is_some() ==> final(self).has_room(),
    ;
}

/// The simple policy: one queue per hart, first in, first out; the timer
/// switches threads every `MAX_TICKS` ticks.
pub struct SimplePolicy {
    critical_buffer: RunQueue,
    remaining_ticks: u32,
    max_ticks: u32,
}

impl SimplePolicy {
    /// The threads that wait to run, the one that waited longest first.
    pub closed spec fn queue(&self) -> Seq<Thread> {
        run_queue_threads(self.critical_buffer)
    }

    /// The number of ticks left before the timer switches threads.
    pub closed spec fn remaining_ticks(&self) -> u32 {
        self.remaining_ticks
    }

    /// The number of ticks between two switches by the timer.
    pub closed spec fn max_ticks(&self) -> u32 {
        self.max_ticks
    }

    /// Whether a request for the given reason looks for a thread to switch
    /// to: a yield always does, a tick only when the ticks have run out.
    pub open spec fn attempts(&self, reason: SwitchReason) -> bool {
        reason == SwitchReason::Yield || self.remaining_ticks() <= 1
    }

    /// What `next` does to the policy.
    pub open spec fn next_post(&self, post: SimplePolicy, reason: SwitchReason) -> bool {
        &&& post.max_ticks() == self.max_ticks()
        &&& post.remaining_ticks() == match reason {
            SwitchReason::Yield => self.remaining_ticks(),
            SwitchReason::Periodic => if self.remaining_ticks() <= 1 {
                self.max_ticks()
            } else {
                (self.remaining_ticks() - 1) as u32
            },
        }
        &&& post.queue() == if self.attempts(reason) && self.queue().len() > 0 {
            self.queue().skip(1)
        } else {
            self.queue()
        }
    }

    /// A policy with no thread, whose first tick switches.
    pub fn new() -> (p: SimplePolicy)
        ensures
            p.queue() == Seq::<Thread>::empty(),
            p.remaining_ticks() == 0,
            p.max_ticks() == MAX_TICKS,
    {
        SimplePolicy { critical_buffer: run_queue_new(), remaining_ticks: 0, max_ticks: MAX_TICKS }
    }

    /// The number of ticks left before the timer switches threads.
    pub fn ticks_left(&self) -> (n: u32)
        ensures
            n == self.remaining_ticks(),
    {
        self.remaining_ticks
    }

    /// The number of threads that wait to run.
    pub fn len(&self) -> (n: usize)
        ensures
            n == self.queue().len(),
    {
        run_queue_len(&self.critical_buffer)
    }
}

impl Policy<Thread> for SimplePolicy {
    open spec fn wf(&self) -> bool {
        self.queue().len() <= RUN_QUEUE_CAPACITY
    }

    open spec fn has_room(&self) -> bool {
        self.queue().len() < RUN_QUEUE_CAPACITY
    }

    /// Puts the thread at the back of the queue.
    fn add_thread(&mut self, context: PolicyContext, thread: Box<Thread>)
        ensures
            final(self).queue() == old(self).queue().push(*thread),
            final(self).remaining_ticks() == old(self).remaining_ticks(),
            final(self).max_ticks() == old(self).max_ticks(),
    {
        match run_queue_push_back(&mut self.critical_buffer, thread) {
            Ok(()) => {},
            Err(_) => {
                proof {
                    assert(false);
                }
            },
        }
    }

    /// On a yield, takes the thread at the front of the queue. On a tick,
    /// counts the tick; when the ticks have run out, starts a new count and
    /// takes the thread at the front of the queue.
    fn next(&mut self, context: PolicyContext, reason: SwitchReason) -> (r: Option<Box<Thread>>)
        ensures
            final(self).max_ticks() == old(self).max_ticks(),
            final(self).remaining_ticks() == match reason {
                SwitchReason::Yield => old(self).remaining_ticks(),
                SwitchReason::Periodic => if old(self).remaining_ticks() <= 1 {
                    old(self).max_ticks()
                } else {
                    (old(self).remaining_ticks() - 1) as u32
                },
            },
            old(self).attempts(reason) && old(self).queue().len() > 0 ==> r == Some(
                Box::new(old(self).queue()[0]),
            ) && final(self).queue() == old(self).queue().skip(1),
            !(old(self).attempts(reason) && old(self).queue().len() > 0) ==> r.is_none() && final(self).queue() == old(self).queue(),
    {
        let attempt_switch: bool = match reason {
            SwitchReason::Yield => true,
            SwitchReason::Periodic => {
                if self.remaining_ticks <= 1 {
                    self.remaining_ticks = self.max_ticks;
                    true
                } else {
                    self.remaining_ticks = self.remaining_ticks - 1;
                    false
                }
            },
        };
        if attempt_switch {
            run_queue_pop_front(&mut self.critical_buffer)
        } else {
            None
        }
    }
}

} // verus!
