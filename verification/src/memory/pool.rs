//! The page pool: frames handed out from an arena that grows and shrinks in
//! sets of 64 pages.

use crate::error::{KernelError, KernelResult};
use crate::memory::address::{VirtualPageNumber, KERNEL_IDMAP_VPN, MAX_VPN};
use std::collections::BTreeMap;
use vstd::prelude::*;

verus! {

broadcast use vstd::std_specs::btree::group_btree_axioms;

/// The number of pages in a set.
pub const PAGES_PER_SET: u64 = 64;

/// The number of bytes in a page.
pub const PAGE_SIZE: usize = 4096;

/// The number of frees after which the pool tries to shrink.
pub const FREES_PER_SHRINK: usize = 64;

/// Every element is less than each one after it.
pub open spec fn ascending(s: Seq<u64>) -> bool {
    forall|i: int, j: int| 0 <= i < j < s.len() ==> s[i] < s[j]
}

/// Every byte is zero.
pub open spec fn all_zero(s: Seq<u8>) -> bool {
    forall|i: int| 0 <= i < s.len() ==> s[i] == 0
}

/// The set and the page within the set of the frame with the given index.
pub open spec fn coordinate(frame: int) -> (u32, u8) {
    ((frame / 64) as u32, (frame % 64) as u8)
}

/// Whether some allocated frame lies in set `set`.
pub open spec fn set_in_use(allocated: Map<u64, (u32, u8)>, set: int) -> bool {
    exists|vpn: u64| #[trigger] allocated.contains_key(vpn) && allocated[vpn].0 == set
}

/// The number of sets that are left of `sets` once every trailing set without
/// an allocated frame is dropped.
pub open spec fn shrunk_count(allocated: Map<u64, (u32, u8)>, sets: nat) -> nat
    decreases sets,
{
    if sets == 0 {
        0
    } else if set_in_use(allocated, sets - 1) {
        sets
    } else {
        shrunk_count(allocated, (sets - 1) as nat)
    }
}

/// The indices of the frames of set `set`, in order.
pub open spec fn frames_of_set(set: nat) -> Seq<u64> {
    Seq::new(64, |k: int| (64 * set + k) as u64)
}

/// In an ascending sequence the elements are at least as far apart as their
/// positions.
proof fn lemma_ascending_gap(s: Seq<u64>, i: int, j: int)
    requires
        ascending(s),
        0 <= i <= j < s.len(),
    ensures
        s[j] - s[i] >= j - i,
    decreases j - i,
{
    if i < j {
        lemma_ascending_gap(s, i, j - 1);
    }
}


/// The position of `x` in `s`.
spec fn position(s: Seq<u64>, x: u64) -> int {
    choose|i: int| 0 <= i < s.len() && s[i] == x
}

/// In an ascending sequence that holds `lo`, `lo + 1`, ..., `lo + 63`, each of
/// them stands at least as far behind `lo` as it is greater.
proof fn lemma_run_positions(s: Seq<u64>, lo: u64, k: int)
    requires
        ascending(s),
        lo + 63 <= u64::MAX,
        forall|x: u64| lo <= x <= lo + 63 ==> s.contains(x),
        0 <= k < 64,
    ensures
        0 <= position(s, lo) < s.len(),
        s[position(s, lo)] == lo,
        position(s, lo) + k <= position(s, (lo + k) as u64) < s.len(),
        s[position(s, (lo + k) as u64)] == lo + k,
    decreases k,
{
    assert(s.contains((lo + k) as u64));
    assert(s.contains((lo + 0) as u64));
    if k > 0 {
        lemma_run_positions(s, lo, k - 1);
        let a = position(s, (lo + k - 1) as u64);
        let b = position(s, (lo + k) as u64);
        if b <= a {
            if b < a {
                assert(s[b] < s[a]);
            }
        }
    }
}

/// A pool of 4 KiB frames.
///
/// The pool owns an arena of `max_sets` sets that begins at page `base`. The
/// sets in use are the first `set_count` of the arena; the frame with index
/// `f` is page `base + f`, and lies in set `f / 64`.
pub struct PagePool {
    base: VirtualPageNumber,
    max_sets: u32,
    set_count: u32,
    /// The bytes of each frame of the sets in use.
    frames: Vec<Vec<u8>>,
    /// The indices of the free frames, ascending.
    usable_pages: Vec<u64>,
    /// The allocated pages, each with its set and its page within the set.
    allocated_pages: BTreeMap<u64, (u32, u8)>,
    /// Used to determine when to shrink.
    free_count_before_shrink: usize,
}

impl PagePool {
    /// The first page of the arena.
    pub closed spec fn base(&self) -> u64 {
        self.base.0
    }

    /// The number of sets that the arena has room for.
    pub closed spec fn max_sets(&self) -> nat {
        self.max_sets as nat
    }

    /// The number of sets in use.
    pub closed spec fn set_count(&self) -> nat {
        self.set_count as nat
    }

    /// The indices of the free frames, ascending.
    pub closed spec fn free_frames(&self) -> Seq<u64> {
        self.usable_pages@
    }

    /// The free frames as a set.
    pub open spec fn free_set(&self) -> Set<u64> {
        self.free_frames().to_set()
    }

    /// The allocated pages, each with its set and its page within the set.
    pub closed spec fn reverse_map(&self) -> Map<u64, (u32, u8)> {
        self.allocated_pages@
    }

    /// The bytes of the frame with index `frame`.
    pub closed spec fn frame_bytes(&self, frame: int) -> Seq<u8> {
        self.frames@[frame]@
    }

    /// The number of frees since the pool last tried to shrink.
    pub closed spec fn frees_since_shrink(&self) -> nat {
        self.free_count_before_shrink as nat
    }

    /// Whether the arena lies in the kernel window, so that each of its pages
    /// has a frame number.
    pub open spec fn in_kernel_window(&self) -> bool {
        &&& self.base() >= KERNEL_IDMAP_VPN
        &&& self.base() + 64 * self.max_sets() <= MAX_VPN + 1
    }

    /// The number of pages that the pool can still hand out.
    pub open spec fn available(&self) -> nat {
        (self.free_frames().len() + 64 * (self.max_sets() - self.set_count())) as nat
    }

    /// Whether `vpn` is an allocated page of this pool.
    pub open spec fn is_allocated(&self, vpn: u64) -> bool {
        self.reverse_map().contains_key(vpn)
    }

    /// What holds of the pool but for the count of frees.
    closed spec fn frames_wf(&self) -> bool {
        &&& self.base.0 + 64 * self.max_sets <= u64::MAX
        &&& self.set_count <= self.max_sets
        &&& self.frames@.len() == 64 * self.set_count
        &&& forall|f: int| 0 <= f < self.frames@.len() ==> (#[trigger] self.frames@[f])@.len() == 4096
        &&& ascending(self.usable_pages@)
        &&& forall|i: int|
            0 <= i < self.usable_pages@.len() ==> #[trigger] self.usable_pages@[i] < 64
                * self.set_count
        &&& forall|i: int|
            0 <= i < self.usable_pages@.len() ==> all_zero(
                self.frames@[#[trigger] self.usable_pages@[i] as int]@,
            )
        &&& forall|vpn: u64| #[trigger]
            self.allocated_pages@.contains_key(vpn) ==> {
                &&& self.base.0 <= vpn < self.base.0 + 64 * self.set_count
                &&& self.allocated_pages@[vpn] == coordinate(vpn - self.base.0)
            }
        &&& forall|i: int|
            0 <= i < self.usable_pages@.len() ==> !self.allocated_pages@.contains_key(
                (self.base.0 + #[trigger] self.usable_pages@[i]) as u64,
            )
        &&& forall|f: u64|
            f < 64 * self.set_count ==> #[trigger] self.usable_pages@.contains(f)
                || self.allocated_pages@.contains_key((self.base.0 + f) as u64)
        &&& self.usable_pages@.len() + self.allocated_pages@.len() == 64 * self.set_count
    }

    /// The invariant of the pool: every frame of the sets in use is either
    /// free or allocated, never both; the free frames are zeroed; and each
    /// allocated page is recorded with the set and page it lies in.
    pub closed spec fn wf(&self) -> bool {
        &&& self.frames_wf()
        &&& self.free_count_before_shrink < FREES_PER_SHRINK
    }

    /// What the invariant says in terms of the pool's public views.
    pub proof fn lemma_wf(&self)
        requires
            self.wf(),
        ensures
            self.base() + 64 * self.max_sets() <= u64::MAX,
            self.set_count() <= self.max_sets(),
            ascending(self.free_frames()),
            self.free_frames().no_duplicates(),
            self.frees_since_shrink() < FREES_PER_SHRINK,
            forall|i: int|
                0 <= i < self.free_frames().len() ==> {
                    &&& #[trigger] self.free_frames()[i] < 64 * self.set_count()
                    &&& !self.is_allocated((self.base() + self.free_frames()[i]) as u64)
                    &&& all_zero(self.frame_bytes(self.free_frames()[i] as int))
                },
            forall|vpn: u64| #[trigger]
                self.is_allocated(vpn) ==> {
                    &&& self.base() <= vpn < self.base() + 64 * self.set_count()
                    &&& self.reverse_map()[vpn] == coordinate(vpn - self.base())
                },
            forall|f: int|
                0 <= f < 64 * self.set_count() ==> #[trigger] self.frame_bytes(f).len() == 4096,
    {
    }

    /// The frames of the sets in use are exactly the free and the allocated
    /// ones: the two counts add up to 64 for each set.
    pub proof fn lemma_frame_accounting(&self)
        requires
            self.wf(),
        ensures
            self.free_set().finite(),
            self.reverse_map().dom().finite(),
            self.free_set().len() + self.reverse_map().len() == PAGES_PER_SET * self.set_count(),
            forall|f: u64|
                self.free_set().contains(f) ==> !self.is_allocated((self.base() + f) as u64),
    {
        self.lemma_wf();
        self.free_frames().unique_seq_to_set();
        assert forall|f: u64| self.free_set().contains(f) implies !self.is_allocated(
            (self.base() + f) as u64,
        ) by {
            let i = choose|i: int| 0 <= i < self.free_frames().len() && self.free_frames()[i] == f;
            assert(self.free_frames()[i] == f);
        }
    }

    /// An empty pool over the arena of `max_sets` sets that begins at `base`.
    pub fn new(base: VirtualPageNumber, max_sets: u32) -> (pool: PagePool)
        requires
            base.0 + 64 * max_sets <= u64::MAX,
        ensures
            pool.wf(),
            pool.base() == base.0,
            pool.max_sets() == max_sets,
            pool.set_count() == 0,
            pool.free_frames() == Seq::<u64>::empty(),
            pool.reverse_map() == Map::<u64, (u32, u8)>::empty(),
            pool.frees_since_shrink() == 0,
    {
        let pool = PagePool {
            base,
            max_sets,
            set_count: 0,
            frames: Vec::new(),
            usable_pages: Vec::new(),
            allocated_pages: BTreeMap::new(),
            free_count_before_shrink: 0,
        };
        assert(pool.allocated_pages@.len() == 0);
        pool
    }


    /// What `allocate` does: `post` is the pool after the call on `self` that
    /// returned `r`.
    pub open spec fn allocate_post(&self, post: PagePool, r: KernelResult<VirtualPageNumber>) -> bool {
        &&& post.wf()
        &&& post.base() == self.base()
        &&& post.max_sets() == self.max_sets()
        &&& post.frees_since_shrink() == self.frees_since_shrink()
        &&& r.is_err() == (self.free_frames().len() == 0 && self.set_count() == self.max_sets())
        &&& r.is_err() ==> post == *self && r == Err::<VirtualPageNumber, KernelError>(
            KernelError::OutOfMemory,
        )
        &&& r.is_ok() ==> {
            let grown = self.free_frames().len() == 0;
            let before = if grown {
                frames_of_set(self.set_count())
            } else {
                self.free_frames()
            };
            let frame = before[0];
            &&& r.unwrap().0 == self.base() + frame
            &&& !self.is_allocated(r.unwrap().0)
            &&& post.set_count() == self.set_count() + if grown {
                1nat
            } else {
                0nat
            }
            &&& post.free_frames() == before.skip(1)
        &&& post.free_frames().len() + post.reverse_map().len() == 64 * post.set_count()
            &&& post.reverse_map() == self.reverse_map().insert(
                r.unwrap().0,
                coordinate(frame as int),
            )
            &&& all_zero(post.frame_bytes(frame as int))
            &&& forall|f: int|
                0 <= f < 64 * self.set_count() ==> post.frame_bytes(f) == self.frame_bytes(f)
        }
    }

    /// What `free` does: `post` is the pool after the call on `self` that
    /// freed `vpn`.
    pub open spec fn free_post(&self, post: PagePool, vpn: VirtualPageNumber) -> bool {
        let frame = vpn.0 - self.base();
        let tried = self.frees_since_shrink() + 1 == FREES_PER_SHRINK;
        &&& post.wf()
        &&& post.base() == self.base()
        &&& post.max_sets() == self.max_sets()
        &&& post.reverse_map() == self.reverse_map().remove(vpn.0)
        &&& post.frees_since_shrink() == if tried {
            0
        } else {
            self.frees_since_shrink() + 1
        }
        &&& post.set_count() == if tried {
            shrunk_count(post.reverse_map(), self.set_count())
        } else {
            self.set_count()
        }
        &&& !tried ==> post.free_frames().len() == self.free_frames().len() + 1
        &&& post.free_frames().len() + post.reverse_map().len() == 64 * post.set_count()
        &&& forall|f: u64|
            post.free_frames().contains(f) <==> (self.free_frames().contains(f) || f == frame) && f
                < 64 * post.set_count()
        &&& frame < 64 * post.set_count() ==> all_zero(post.frame_bytes(frame))
        &&& forall|f: int|
            0 <= f < 64 * post.set_count() && f != frame ==> post.frame_bytes(f)
                == self.frame_bytes(f)
    }

    /// A page of zeros.
    fn zero_page() -> (page: Vec<u8>)
        ensures
            page@.len() == 4096,
            all_zero(page@),
    {
        vec![0u8; 4096]
    }

    /// A copy of a page.
    fn copy_page(src: &Vec<u8>) -> (page: Vec<u8>)
        ensures
            page@ == src@,
    {
        let mut page: Vec<u8> = Vec::new();
        let mut i: usize = 0;
        while i < src.len()
            invariant
                i <= src@.len(),
                page@ == src@.take(i as int),
            decreases src@.len() - i,
        {
            page.push(src[i]);
            assert(src@.take(i as int).push(src@[i as int]) =~= src@.take(i + 1));
            i += 1;
        }
        assert(src@.take(src@.len() as int) =~= src@);
        page
    }

    /// Takes one more set of the arena into use, all of its frames free and
    /// zeroed.
    fn grow(&mut self) -> (r: KernelResult<()>)
        requires
            old(self).frames_wf(),
            old(self).usable_pages@.len() == 0,
        ensures
            final(self).frames_wf(),
            final(self).base == old(self).base,
            final(self).max_sets == old(self).max_sets,
            final(self).allocated_pages == old(self).allocated_pages,
            final(self).free_count_before_shrink == old(self).free_count_before_shrink,
            r.is_ok() == (old(self).set_count < old(self).max_sets),
            r.is_ok() ==> {
                &&& final(self).set_count == old(self).set_count + 1
                &&& final(self).usable_pages@ == frames_of_set(old(self).set_count as nat)
                &&& forall|f: int|
                    0 <= f < old(self).frames@.len() ==> final(self).frames@[f] == old(self).frames@[f]
            },
            r.is_err() ==> *final(self) == *old(self) && r == Err::<(), KernelError>(
                KernelError::OutOfMemory,
            ),
    {
        if self.set_count >= self.max_sets {
            return Err(KernelError::OutOfMemory);
        }
        let major: u64 = self.set_count as u64;
        let mut minor: u64 = 0;
        while minor < PAGES_PER_SET
            invariant
                minor <= 64,
                major == old(self).set_count,
                self.base == old(self).base,
                self.max_sets == old(self).max_sets,
                self.set_count == old(self).set_count,
                self.set_count < self.max_sets,
                self.base.0 + 64 * self.max_sets <= u64::MAX,
                self.allocated_pages == old(self).allocated_pages,
                self.free_count_before_shrink == old(self).free_count_before_shrink,
                self.frames@.len() == 64 * major + minor,
                old(self).frames@.len() == 64 * major,
                self.usable_pages@.len() == minor,
                forall|k: int| 0 <= k < minor ==> self.usable_pages@[k] == 64 * major + k,
                forall|f: int|
                    0 <= f < old(self).frames@.len() ==> self.frames@[f] == old(self).frames@[f],
                forall|f: int|
                    64 * major <= f < self.frames@.len() ==> (#[trigger] self.frames@[f])@.len()
                        == 4096 && all_zero(self.frames@[f]@),
            decreases 64 - minor,
        {
            self.frames.push(Self::zero_page());
            self.usable_pages.push(64 * major + minor);
            minor += 1;
        }
        self.set_count += 1;
        proof {
            assert(self.usable_pages@ =~= frames_of_set(major as nat));
            assert forall|f: u64| f < 64 * self.set_count implies #[trigger]
                self.usable_pages@.contains(f) || self.allocated_pages@.contains_key(
                (self.base.0 + f) as u64,
            ) by {
                if f >= 64 * major {
                    assert(self.usable_pages@[f - 64 * major] == f);
                } else {
                    assert(old(self).usable_pages@.contains(f)
                        || old(self).allocated_pages@.contains_key((self.base.0 + f) as u64));
                }
            }
            assert forall|i: int| 0 <= i < self.usable_pages@.len() implies all_zero(
                self.frames@[#[trigger] self.usable_pages@[i] as int]@,
            ) by {
                assert(self.usable_pages@[i] == 64 * major + i);
            }
        }
        Ok(())
    }

    /// Hands out the free frame with the least index, that is of the lowest
    /// set and within it of the lowest page. With no free frame left the pool
    /// first takes one more set into use; it fails when the arena has none.
    pub fn allocate(&mut self) -> (r: KernelResult<VirtualPageNumber>)
        requires
            old(self).wf(),
        ensures
            old(self).allocate_post(*final(self), r),
    {
        if self.usable_pages.len() == 0 {
            match self.grow() {
                Ok(()) => {},
                Err(e) => {
                    return Err(e);
                },
            }
        }
        let ghost before = self.usable_pages@;
        let ghost mid = *self;
        let frame: u64 = self.usable_pages.remove(0);
        assert(frame == before[0]);
        assert(self.usable_pages@ =~= before.skip(1));
        let vpn: u64 = self.base.0 + frame;
        let major: u32 = (frame / 64) as u32;
        let minor: u8 = (frame % 64) as u8;
        self.allocated_pages.insert(vpn, (major, minor));
        proof {
            assert(!mid.allocated_pages@.contains_key(vpn)) by {
                assert(mid.usable_pages@[0] == frame);
            }
            assert forall|i: int| 0 <= i < self.usable_pages@.len() implies {
                &&& #[trigger] self.usable_pages@[i] < 64 * self.set_count
                &&& all_zero(self.frames@[self.usable_pages@[i] as int]@)
                &&& !self.allocated_pages@.contains_key((self.base.0 + self.usable_pages@[i]) as u64)
            } by {
                assert(self.usable_pages@[i] == before[i + 1]);
                assert(before[0] < before[i + 1]);
            }
            assert forall|f: u64| f < 64 * self.set_count implies #[trigger]
                self.usable_pages@.contains(f) || self.allocated_pages@.contains_key(
                (self.base.0 + f) as u64,
            ) by {
                if f != frame && before.contains(f) {
                    let i = choose|i: int| 0 <= i < before.len() && before[i] == f;
                    assert(self.usable_pages@[i - 1] == f);
                }
            }
            assert(ascending(self.usable_pages@));
        }
        Ok(VirtualPageNumber(vpn))
    }

    /// Whether no frame of the last set in use is allocated.
    fn last_set_unused(&self) -> (r: bool)
        requires
            self.frames_wf(),
            self.set_count > 0,
        ensures
            r == !set_in_use(self.allocated_pages@, self.set_count - 1),
            r ==> self.usable_pages@.len() >= 64,
            r ==> forall|f: u64|
                self.usable_pages@.contains(f) && f < 64 * (self.set_count - 1)
                    ==> self.usable_pages@.take(self.usable_pages@.len() - 64).contains(f),
            r ==> forall|i: int|
                0 <= i < self.usable_pages@.len() - 64 ==> self.usable_pages@[i] < 64 * (
                self.set_count - 1),
    {
        let n: usize = self.usable_pages.len();
        let lo: u64 = 64 * (self.set_count as u64 - 1);
        let r = n >= 64 && self.usable_pages[n - 64] == lo;
        proof {
            let u = self.usable_pages@;
            let m = self.allocated_pages@;
            if r {
                assert forall|i: int| n - 64 <= i < n implies #[trigger] u[i] == lo + (i - (n
                    - 64)) by {
                    lemma_ascending_gap(u, n - 64, i);
                    lemma_ascending_gap(u, i, n - 1);
                }
                if set_in_use(m, self.set_count - 1) {
                    let vpn = choose|vpn: u64| #[trigger]
                        m.contains_key(vpn) && m[vpn].0 == self.set_count - 1;
                    let f = vpn - self.base.0;
                    assert(m[vpn] == coordinate(f));
                    let k = f - lo;
                    assert(0 <= k < 64);
                    assert(u[n - 64 + k] == f);
                    assert(!m.contains_key((self.base.0 + u[n - 64 + k]) as u64));
                    assert(false);
                }
                assert forall|i: int| 0 <= i < n - 64 implies u[i] < lo by {
                    assert(u[i] < u[n - 64]);
                }
                assert forall|f: u64| u.contains(f) && f < lo implies u.take(n - 64).contains(
                    f,
                ) by {
                    let i = choose|i: int| 0 <= i < u.len() && u[i] == f;
                    if i >= n - 64 {
                        assert(u[i] == lo + (i - (n - 64)));
                    }
                    assert(u.take(n - 64)[i] == f);
                }
            } else {
                if !set_in_use(m, self.set_count - 1) {
                    assert forall|f: u64| lo <= f <= lo + 63 implies u.contains(f) by {
                        if m.contains_key((self.base.0 + f) as u64) {
                            assert(m[(self.base.0 + f) as u64] == coordinate(f as int));
                            assert(false);
                        }
                    }
                    lemma_run_positions(u, lo, 63);
                    lemma_run_positions(u, lo, 0);
                    let p0 = position(u, lo);
                    lemma_ascending_gap(u, p0, n - 64);
                    lemma_ascending_gap(u, n - 64, n - 1);
                    assert(false);
                }
            }
        }
        r
    }

    /// Drops every trailing set that has no allocated frame.
    fn shrink(&mut self)
        requires
            old(self).frames_wf(),
        ensures
            final(self).frames_wf(),
            final(self).base == old(self).base,
            final(self).max_sets == old(self).max_sets,
            final(self).allocated_pages == old(self).allocated_pages,
            final(self).free_count_before_shrink == old(self).free_count_before_shrink,
            final(self).set_count == shrunk_count(
                old(self).allocated_pages@,
                old(self).set_count as nat,
            ),
            final(self).set_count <= old(self).set_count,
            forall|f: u64|
                final(self).usable_pages@.contains(f) <==> old(self).usable_pages@.contains(f) && f
                    < 64 * final(self).set_count,
            forall|f: int|
                0 <= f < 64 * final(self).set_count ==> final(self).frames@[f] == old(self).frames@[f],
    {
        while self.set_count > 0 && self.last_set_unused()
            invariant
                self.frames_wf(),
                self.base == old(self).base,
                self.max_sets == old(self).max_sets,
                self.allocated_pages == old(self).allocated_pages,
                self.free_count_before_shrink == old(self).free_count_before_shrink,
                self.set_count <= old(self).set_count,
                shrunk_count(self.allocated_pages@, self.set_count as nat) == shrunk_count(
                    old(self).allocated_pages@,
                    old(self).set_count as nat,
                ),
                forall|f: u64|
                    self.usable_pages@.contains(f) <==> old(self).usable_pages@.contains(f) && f
                        < 64 * self.set_count,
                forall|f: int|
                    0 <= f < 64 * self.set_count ==> self.frames@[f] == old(self).frames@[f],
            decreases self.set_count,
        {
            let ghost before = *self;
            let n: usize = self.usable_pages.len();
            let m: usize = self.frames.len();
            self.usable_pages.truncate(n - 64);
            self.frames.truncate(m - 64);
            self.set_count -= 1;
            proof {
                let u = before.usable_pages@;
                assert(self.usable_pages@ == u.take(n - 64));
                assert forall|f: u64|
                    f < 64 * self.set_count implies #[trigger] self.usable_pages@.contains(f)
                    || self.allocated_pages@.contains_key((self.base.0 + f) as u64) by {
                    assert(u.contains(f) || before.allocated_pages@.contains_key(
                        (self.base.0 + f) as u64,
                    ));
                }
                assert forall|vpn: u64| #[trigger]
                    self.allocated_pages@.contains_key(vpn) implies vpn < self.base.0 + 64
                    * self.set_count by {
                    if vpn >= self.base.0 + 64 * self.set_count {
                        assert(self.allocated_pages@[vpn] == coordinate(vpn - self.base.0));
                        assert(set_in_use(before.allocated_pages@, before.set_count - 1));
                    }
                }
                assert forall|f: u64| self.usable_pages@.contains(f) implies old(self).usable_pages@.contains(f) && f < 64 * self.set_count by {
                    let i = choose|i: int|
                        0 <= i < self.usable_pages@.len() && self.usable_pages@[i] == f;
                    assert(u[i] == f);
                    assert(u.contains(f));
                }
            }
        }
    }

    /// Returns the frame of `vpn` to the free frames, zeroed.
    fn release_frame(&mut self, vpn: VirtualPageNumber)
        requires
            old(self).frames_wf(),
            old(self).allocated_pages@.contains_key(vpn.0),
        ensures
            final(self).frames_wf(),
            final(self).base == old(self).base,
            final(self).max_sets == old(self).max_sets,
            final(self).set_count == old(self).set_count,
            final(self).free_count_before_shrink == old(self).free_count_before_shrink,
            final(self).allocated_pages@ == old(self).allocated_pages@.remove(vpn.0),
            final(self).usable_pages@.len() == old(self).usable_pages@.len() + 1,
            forall|f: u64|
                final(self).usable_pages@.contains(f) <==> old(self).usable_pages@.contains(f) || f
                    == vpn.0 - old(self).base.0,
            all_zero(final(self).frames@[vpn.0 - old(self).base.0]@),
            forall|f: int|
                0 <= f < 64 * old(self).set_count && f != vpn.0 - old(self).base.0 ==> final(self).frames@[f] == old(self).frames@[f],
    {
        let ghost before = *self;
        let frame: u64 = vpn.0 - self.base.0;
        let frame_count: usize = self.frames.len();
        assert(frame < frame_count);
        self.allocated_pages.remove(&vpn.0);
        assert(self.allocated_pages@ == before.allocated_pages@.remove(vpn.0));
        self.frames.set(frame as usize, Self::zero_page());
        let mut pos: usize = 0;
        while pos < self.usable_pages.len() && self.usable_pages[pos] < frame
            invariant
                pos <= self.usable_pages@.len(),
                self.usable_pages@ == before.usable_pages@,
                forall|k: int| 0 <= k < pos ==> self.usable_pages@[k] < frame,
            decreases self.usable_pages@.len() - pos,
        {
            pos += 1;
        }
        self.usable_pages.insert(pos, frame);
        proof {
            let u = before.usable_pages@;
            let w = self.usable_pages@;
            assert(w == u.insert(pos as int, frame));
            assert forall|i: int| pos <= i < u.len() implies u[i] > frame by {
                assert(u[pos as int] <= u[i]);
                assert(!before.allocated_pages@.contains_key((before.base.0 + u[pos as int]) as u64));
            }
            assert forall|i: int| 0 <= i < w.len() implies {
                &&& #[trigger] w[i] < 64 * self.set_count
                &&& all_zero(self.frames@[w[i] as int]@)
                &&& !self.allocated_pages@.contains_key((self.base.0 + w[i]) as u64)
            } by {
                if i < pos {
                    assert(w[i] == u[i]);
                    assert(!before.allocated_pages@.contains_key((before.base.0 + u[i]) as u64));
                } else if i > pos {
                    assert(w[i] == u[i - 1]);
                    assert(!before.allocated_pages@.contains_key(
                        (before.base.0 + u[i - 1]) as u64,
                    ));
                }
            }
            assert forall|i: int, j: int| 0 <= i < j < w.len() implies w[i] < w[j] by {
                if i < pos {
                    assert(w[i] == u[i]);
                } else if i > pos {
                    assert(w[i] == u[i - 1]);
                }
                if j < pos {
                    assert(w[j] == u[j]);
                } else if j > pos {
                    assert(w[j] == u[j - 1]);
                }
            }
            assert forall|f: u64| w.contains(f) <==> u.contains(f) || f == frame by {
                if w.contains(f) {
                    let i = choose|i: int| 0 <= i < w.len() && w[i] == f;
                    if i < pos {
                        assert(u[i] == f);
                    } else if i > pos {
                        assert(u[i - 1] == f);
                    }
                }
                if u.contains(f) {
                    let i = choose|i: int| 0 <= i < u.len() && u[i] == f;
                    if i < pos {
                        assert(w[i] == f);
                    } else {
                        assert(w[i + 1] == f);
                    }
                }
                if f == frame {
                    assert(w[pos as int] == f);
                }
            }
            assert forall|f: u64| f < 64 * self.set_count implies #[trigger] w.contains(f)
                || self.allocated_pages@.contains_key((self.base.0 + f) as u64) by {
                assert(u.contains(f) || before.allocated_pages@.contains_key(
                    (self.base.0 + f) as u64,
                ));
            }
        }
    }

    /// Takes back the allocated page `vpn`: its frame is zeroed and becomes
    /// free. Every 64th free drops the trailing sets that have no allocated
    /// frame left.
    pub fn free(&mut self, vpn: VirtualPageNumber)
        requires
            old(self).wf(),
            old(self).is_allocated(vpn.0),
        ensures
            old(self).free_post(*final(self), vpn),
    {
        self.release_frame(vpn);
        self.free_count_before_shrink += 1;
        if self.free_count_before_shrink == FREES_PER_SHRINK {
            self.free_count_before_shrink = 0;
            self.shrink();
        }
    }

    /// The byte at `offset` of the allocated page `vpn`.
    pub fn read(&self, vpn: VirtualPageNumber, offset: usize) -> (b: u8)
        requires
            self.wf(),
            self.is_allocated(vpn.0),
            offset < PAGE_SIZE,
        ensures
            b == self.frame_bytes(vpn.0 - self.base())[offset as int],
    {
        assert(self.allocated_pages@.contains_key(vpn.0));
        let frame: u64 = vpn.0 - self.base.0;
        let frame_count: usize = self.frames.len();
        assert(frame < frame_count);
        self.frames[frame as usize][offset]
    }

    /// Stores `byte` at `offset` of the allocated page `vpn`.
    pub fn write(&mut self, vpn: VirtualPageNumber, offset: usize, byte: u8)
        requires
            old(self).wf(),
            old(self).is_allocated(vpn.0),
            offset < PAGE_SIZE,
        ensures
            final(self).wf(),
            final(self).base() == old(self).base(),
            final(self).max_sets() == old(self).max_sets(),
            final(self).set_count() == old(self).set_count(),
            final(self).free_frames() == old(self).free_frames(),
            final(self).reverse_map() == old(self).reverse_map(),
            final(self).frees_since_shrink() == old(self).frees_since_shrink(),
            final(self).frame_bytes(vpn.0 - old(self).base()) == old(self).frame_bytes(
                vpn.0 - old(self).base(),
            ).update(offset as int, byte),
            forall|f: int|
                0 <= f < 64 * old(self).set_count() && f != vpn.0 - old(self).base() ==> final(self).frame_bytes(f) == old(self).frame_bytes(f),
    {
        assert(self.allocated_pages@.contains_key(vpn.0));
        let frame: u64 = vpn.0 - self.base.0;
        let frame_count: usize = self.frames.len();
        assert(frame < frame_count);
        let ghost before = *self;
        let mut page: Vec<u8> = Self::copy_page(&self.frames[frame as usize]);
        page.set(offset, byte);
        self.frames.set(frame as usize, page);
        proof {
            assert forall|i: int| 0 <= i < self.usable_pages@.len() implies all_zero(
                self.frames@[#[trigger] self.usable_pages@[i] as int]@,
            ) by {
                assert(!before.allocated_pages@.contains_key(
                    (before.base.0 + before.usable_pages@[i]) as u64,
                ));
            }
        }
    }

    /// The number of sets in use.
    pub fn sets(&self) -> (n: u32)
        ensures
            n == self.set_count(),
    {
        self.set_count
    }

    /// The number of free frames.
    pub fn free_len(&self) -> (n: usize)
        ensures
            n == self.free_frames().len(),
    {
        self.usable_pages.len()
    }

    /// The number of allocated pages.
    pub fn allocated_len(&self) -> (n: usize)
        ensures
            n == self.reverse_map().len(),
    {
        self.allocated_pages.len()
    }
}


/// A page pool as the kernel shares it: every operation on the pool goes
/// through this value, which stands for the pool together with its lock held.
pub struct LockedPagePool {
    pool: PagePool,
}

impl LockedPagePool {
    /// The pool behind the lock.
    pub closed spec fn view(&self) -> PagePool {
        self.pool
    }

    /// An empty pool over the arena of `max_sets` sets that begins at `base`.
    pub fn new(base: VirtualPageNumber, max_sets: u32) -> (locked: LockedPagePool)
        requires
            base.0 + 64 * max_sets <= u64::MAX,
        ensures
            locked@.wf(),
            locked@.base() == base.0,
            locked@.max_sets() == max_sets,
            locked@.set_count() == 0,
            locked@.free_frames() == Seq::<u64>::empty(),
            locked@.reverse_map() == Map::<u64, (u32, u8)>::empty(),
            locked@.frees_since_shrink() == 0,
    {
        LockedPagePool { pool: PagePool::new(base, max_sets) }
    }

    /// Allocates a page from the pool, as `PagePool::allocate` does.
    pub fn allocate(&mut self) -> (r: KernelResult<VirtualPageNumber>)
        requires
            old(self)@.wf(),
        ensures
            old(self)@.allocate_post(final(self)@, r),
    {
        self.pool.allocate()
    }

    /// Frees a page of the pool, as `PagePool::free` does.
    pub fn free(&mut self, vpn: VirtualPageNumber)
        requires
            old(self)@.wf(),
            old(self)@.is_allocated(vpn.0),
        ensures
            old(self)@.free_post(final(self)@, vpn),
    {
        self.pool.free(vpn)
    }

    /// The pool behind the lock.
    pub fn pool(&self) -> (p: &PagePool)
        ensures
            *p == self@,
    {
        &self.pool
    }

    /// The pool behind the lock, to change it.
    pub fn pool_mut(&mut self) -> (p: &mut PagePool)
        ensures
            *p == old(self)@,
            *final(p) == final(self)@,
    {
        &mut self.pool
    }
}

} // verus!
