//! Bringing up the application processors, one at a time.

use vstd::prelude::*;

verus! {

/// What the harts share while they boot: how many have come up, which one is
/// to start next, and whether that one is done.
pub struct Smp {
    num_harts: u32,
    current_booting: u32,
    current_boot_done: bool,
}

impl Smp {
    /// The number of harts that have come up.
    pub closed spec fn count(&self) -> u32 {
        self.num_harts
    }

    /// The hart that is to start next.
    pub closed spec fn booting(&self) -> u32 {
        self.current_booting
    }

    /// Whether the hart that was started is done.
    pub closed spec fn done(&self) -> bool {
        self.current_boot_done
    }

    /// The state at boot: only the boot hart is up.
    pub fn new() -> (s: Smp)
        ensures
            s.count() == 1,
            s.booting() == 0,
            !s.done(),
    {
        Smp { num_harts: 1, current_booting: 0, current_boot_done: false }
    }

    /// The number of harts that have come up.
    pub fn num_harts(&self) -> (n: u32)
        ensures
            n == self.count(),
    {
        self.num_harts
    }

    /// An application processor reports itself: it is counted, and is told
    /// whether it may start at once.
    pub fn ap_boot(&mut self, hart_id: u32) -> (go: bool)
        ensures
            final(self).count() == if old(self).count() == u32::MAX {
                0u32
            } else {
                (old(self).count() + 1) as u32
            },
            final(self).booting() == old(self).booting(),
            final(self).done() == old(self).done(),
            go == (old(self).booting() == hart_id),
    {
        self.num_harts = self.num_harts.wrapping_add(1);
        self.current_booting == hart_id
    }

    /// Whether hart `hart_id`, which waits for its turn, may start.
    pub fn may_start(&self, hart_id: u32) -> (go: bool)
        ensures
            go == (self.booting() == hart_id),
    {
        self.current_booting == hart_id
    }

    /// The boot hart lets hart `hart_id` start.
    pub fn boot_ap(&mut self, hart_id: u32)
        ensures
            final(self).booting() == hart_id,
            final(self).count() == old(self).count(),
            final(self).done() == old(self).done(),
    {
        self.current_booting = hart_id;
    }

    /// The hart that was started reports that it is done.
    pub fn set_ap_boot_done(&mut self)
        ensures
            final(self).done(),
            final(self).count() == old(self).count(),
            final(self).booting() == old(self).booting(),
    {
        self.current_boot_done = true;
    }

    /// The boot hart takes note that the started hart is done.
    pub fn clear_ap_boot_done(&mut self)
        ensures
            !final(self).done(),
            final(self).count() == old(self).count(),
            final(self).booting() == old(self).booting(),
    {
        self.current_boot_done = false;
    }

    /// Whether the hart that was started is done.
    pub fn ap_boot_done(&self) -> (d: bool)
        ensures
            d == self.done(),
    {
        self.current_boot_done
    }
}

} // verus!
