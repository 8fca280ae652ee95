//! An address space: a root page table, the tables grown below it and the
//! data frames it owns.

use crate::bits::bits_of;
use crate::error::{KernelError, KernelResult};
use crate::memory::address::{
    level_index, PhysicalPageNumber, VirtualPageNumber, KERNEL_IDMAP_VPN, MAX_VPN,
};
use crate::memory::page_table::{
    entry_word, lemma_entry_round_trip, Entry, Flags, Table, TableHandle, MAX_PPN, VALID,
};
use crate::memory::pool::{LockedPagePool, PagePool};
use crate::process::thread::ThreadToken;
use vstd::arithmetic::power2::pow2;
use vstd::prelude::*;

verus! {

/// The index in a root table of the entry that covers the kernel window.
pub const KERNEL_WINDOW_INDEX: usize = 510;

/// The mode bits of `satp` that select Sv39.
pub const SATP_SV39: u64 = 0x8000_0000_0000_0000;

/// Whether `h` is the table of the given level in the given frame.
pub open spec fn is_table(h: TableHandle, level: int, frame: int) -> bool {
    h.level == level && h.frame() == frame
}

/// Whether `tables` holds the table of the given level in the given frame.
pub open spec fn has_table(tables: Seq<TableHandle>, level: int, frame: int) -> bool {
    exists|i: int| 0 <= i < tables.len() && is_table(#[trigger] tables[i], level, frame)
}

/// The place in `tables` of the table of the given level in the given frame.
pub open spec fn table_at(tables: Seq<TableHandle>, level: int, frame: int) -> int {
    choose|i: int| 0 <= i < tables.len() && is_table(#[trigger] tables[i], level, frame)
}

/// The table that entry `idx` of table `t` leads to, if the entry is in use
/// and its table is one of `tables`.
pub open spec fn child_of(tables: Seq<TableHandle>, t: int, idx: int) -> Option<int> {
    let word = tables[t].table.entries[idx]@;
    let frame = bits_of(word, 10, 54) as int;
    if word != 0 && has_table(tables, tables[t].level + 1, frame) {
        Some(table_at(tables, tables[t].level + 1, frame))
    } else {
        None
    }
}

/// The table of leaves that the walk for `vpn` ends in, if the tables on the
/// way exist.
pub open spec fn leaf_of(tables: Seq<TableHandle>, vpn: u64) -> Option<int> {
    match child_of(tables, 0, level_index(vpn, 0) as int) {
        Some(t1) => child_of(tables, t1, level_index(vpn, 1) as int),
        None => None,
    }
}

/// The number of tables that the walk for `vpn` finds missing.
pub open spec fn missing_tables(tables: Seq<TableHandle>, vpn: u64) -> nat {
    match child_of(tables, 0, level_index(vpn, 0) as int) {
        Some(t1) => match child_of(tables, t1, level_index(vpn, 1) as int) {
            Some(_) => 0,
            None => 1,
        },
        None => 2,
    }
}


/// Whether no two of `tables` lie in one page.
pub open spec fn distinct_pages(tables: Seq<TableHandle>) -> bool {
    forall|i: int, j: int|
        0 <= i < j < tables.len() ==> (#[trigger] tables[i]).table.vpn != (
        #[trigger] tables[j]).table.vpn
}

/// Whether entry `idx` of table `t` is one that the walk follows into the
/// tables of `tables`: an entry of a table above the leaves, and not the
/// entry of a shared kernel window.
pub open spec fn followed(tables: Seq<TableHandle>, shares: bool, t: int, idx: int) -> bool {
    &&& 0 <= t < tables.len()
    &&& 0 <= idx < 512
    &&& tables[t].level < 2
    &&& !(shares && t == 0 && idx == KERNEL_WINDOW_INDEX)
}

/// Whether every entry in use that the walk follows leads to a table of
/// `tables`.
pub open spec fn all_resolve(tables: Seq<TableHandle>, shares: bool) -> bool {
    forall|t: int, idx: int|
        followed(tables, shares, t, idx) && (#[trigger] tables[t].table.entries[idx])@ != 0
            ==> has_table(
            tables,
            tables[t].level + 1,
            bits_of(tables[t].table.entries[idx]@, 10, 54) as int,
        )
}

/// Whether no two entries that the walk follows lead to one table: the
/// tables form a tree.
pub open spec fn tree_shaped(tables: Seq<TableHandle>, shares: bool) -> bool {
    forall|t: int, a: int, u: int, b: int|
        followed(tables, shares, t, a) && followed(tables, shares, u, b) && !(t == u && a == b)
            && (#[trigger] child_of(tables, t, a)).is_some() ==> child_of(tables, t, a)
            != #[trigger] child_of(tables, u, b)
}

/// A table is found where it stands.
pub proof fn lemma_table_at(tables: Seq<TableHandle>, i: int)
    requires
        distinct_pages(tables),
        0 <= i < tables.len(),
    ensures
        has_table(tables, tables[i].level as int, tables[i].frame()),
        table_at(tables, tables[i].level as int, tables[i].frame()) == i,
{
    let level = tables[i].level as int;
    let frame = tables[i].frame();
    assert(is_table(tables[i], level, frame));
    let j = table_at(tables, level, frame);
    assert(0 <= j < tables.len() && is_table(tables[j], level, frame));
    if j < i {
        assert(tables[j].table.vpn != tables[i].table.vpn);
    } else if i < j {
        assert(tables[i].table.vpn != tables[j].table.vpn);
    }
}

/// Whether `post` holds the tables of `pre`, each in its old place with its
/// old level and page, and perhaps more behind them.
pub open spec fn extends(pre: Seq<TableHandle>, post: Seq<TableHandle>) -> bool {
    &&& pre.len() <= post.len()
    &&& forall|i: int|
        0 <= i < pre.len() ==> (#[trigger] post[i]).level == pre[i].level && post[i].table.vpn
            == pre[i].table.vpn
}

/// An entry that led to a table before still leads to it when tables were
/// added and the entry was left alone.
pub proof fn lemma_child_kept(pre: Seq<TableHandle>, post: Seq<TableHandle>, t: int, idx: int)
    requires
        distinct_pages(post),
        extends(pre, post),
        0 <= t < pre.len(),
        post[t].table.entries[idx] == pre[t].table.entries[idx],
        child_of(pre, t, idx).is_some(),
    ensures
        child_of(post, t, idx) == child_of(pre, t, idx),
        0 <= child_of(pre, t, idx).unwrap() < pre.len(),
        pre[child_of(pre, t, idx).unwrap()].level == pre[t].level + 1,
{
    let c = child_of(pre, t, idx).unwrap();
    assert(post[c].level == pre[c].level);
    lemma_table_at(post, c);
}

/// The tables stay a tree when the entries above the leaves are left alone,
/// or when one empty entry among them is made to lead to a new, empty table
/// that is added behind the others.
pub proof fn lemma_tree_kept(
    pre: Seq<TableHandle>,
    post: Seq<TableHandle>,
    shares: bool,
    created: bool,
    ct: int,
    cidx: int,
)
    requires
        distinct_pages(post),
        extends(pre, post),
        all_resolve(pre, shares),
        tree_shaped(pre, shares),
        post.len() == pre.len() + if created {
            1int
        } else {
            0int
        },
        forall|t: int, idx: int|
            0 <= t < pre.len() && 0 <= idx < 512 && pre[t].level < 2 && !(created && t == ct && idx
                == cidx) ==> #[trigger] post[t].table.entries[idx] == pre[t].table.entries[idx],
        created ==> {
            &&& followed(pre, shares, ct, cidx)
            &&& pre[ct].table.entries[cidx]@ == 0
            &&& post[ct].table.entries[cidx]@ != 0
            &&& is_table(
                post[pre.len() as int],
                pre[ct].level + 1,
                bits_of(post[ct].table.entries[cidx]@, 10, 54) as int,
            )
            &&& forall|k: int|
                0 <= k < 512 ==> (#[trigger] post[pre.len() as int].table.entries[k])@ == 0
        },
    ensures
        all_resolve(post, shares),
        tree_shaped(post, shares),
{
    let n = pre.len() as int;
    assert forall|t: int, idx: int|
        followed(post, shares, t, idx) && (#[trigger] post[t].table.entries[idx])@ != 0 implies has_table(
        post,
        post[t].level + 1,
        bits_of(post[t].table.entries[idx]@, 10, 54) as int,
    ) by {
        if created && t == ct && idx == cidx {
        } else {
            assert(t < n);
            assert(post[t].table.entries[idx] == pre[t].table.entries[idx]);
            let f = bits_of(pre[t].table.entries[idx]@, 10, 54) as int;
            assert(followed(pre, shares, t, idx));
            assert(has_table(pre, pre[t].level + 1, f));
            let w = table_at(pre, pre[t].level + 1, f);
            assert(is_table(post[w], pre[t].level + 1, f));
        }
    }
    assert forall|t: int, a: int, u: int, b: int|
        followed(post, shares, t, a) && followed(post, shares, u, b) && !(t == u && a == b) && (
        #[trigger] child_of(post, t, a)).is_some() implies child_of(post, t, a)
        != #[trigger] child_of(post, u, b) by {
        lemma_child_in_tree(pre, post, shares, created, ct, cidx, t, a);
        if child_of(post, u, b).is_some() {
            lemma_child_in_tree(pre, post, shares, created, ct, cidx, u, b);
            if !(created && t == ct && a == cidx) && !(created && u == ct && b == cidx) {
                assert(followed(pre, shares, t, a) && followed(pre, shares, u, b));
                assert(child_of(pre, t, a) != child_of(pre, u, b));
            }
        }
    }
}

/// Where an entry that the walk follows leads after the change that
/// `lemma_tree_kept` describes: the new entry to the new table, every other
/// to the table it led to before.
proof fn lemma_child_in_tree(
    pre: Seq<TableHandle>,
    post: Seq<TableHandle>,
    shares: bool,
    created: bool,
    ct: int,
    cidx: int,
    t: int,
    a: int,
)
    requires
        distinct_pages(post),
        extends(pre, post),
        all_resolve(pre, shares),
        post.len() == pre.len() + if created {
            1int
        } else {
            0int
        },
        forall|t: int, idx: int|
            0 <= t < pre.len() && 0 <= idx < 512 && pre[t].level < 2 && !(created && t == ct && idx
                == cidx) ==> #[trigger] post[t].table.entries[idx] == pre[t].table.entries[idx],
        created ==> {
            &&& followed(pre, shares, ct, cidx)
            &&& pre[ct].table.entries[cidx]@ == 0
            &&& post[ct].table.entries[cidx]@ != 0
            &&& is_table(
                post[pre.len() as int],
                pre[ct].level + 1,
                bits_of(post[ct].table.entries[cidx]@, 10, 54) as int,
            )
            &&& forall|k: int|
                0 <= k < 512 ==> (#[trigger] post[pre.len() as int].table.entries[k])@ == 0
        },
        followed(post, shares, t, a),
        child_of(post, t, a).is_some(),
    ensures
        created && t == ct && a == cidx ==> child_of(post, t, a) == Some(pre.len() as int),
        !(created && t == ct && a == cidx) ==> t < pre.len() && child_of(post, t, a) == child_of(
            pre,
            t,
            a,
        ) && child_of(pre, t, a).is_some() && child_of(pre, t, a).unwrap() < pre.len(),
{
    let n = pre.len() as int;
    if created && t == ct && a == cidx {
        lemma_table_at(post, n);
    } else {
        if t == n {
            assert(post[n].table.entries[a]@ == 0);
        }
        assert(post[t].table.entries[a] == pre[t].table.entries[a]);
        assert(followed(pre, shares, t, a));
        lemma_child_kept(pre, post, t, a);
    }
}

/// Whether two pages select the same three table indices.
pub open spec fn same_indices(v: u64, w: u64) -> bool {
    &&& level_index(v, 0) == level_index(w, 0)
    &&& level_index(v, 1) == level_index(w, 1)
    &&& level_index(v, 2) == level_index(w, 2)
}

/// Two pages of one stretch of 2^27 pages differ in a table index.
pub proof fn lemma_levels_differ(v: u64, w: u64)
    requires
        v != w,
        v / 0x800_0000 == w / 0x800_0000,
    ensures
        !same_indices(v, w),
{
    vstd::arithmetic::power2::lemma2_to64();
    assert(pow2(0) == 1 && pow2(9) == 512 && pow2(18) == 0x4_0000);
    let a = v as int;
    let b = w as int;
    assert(level_index(v, 0) == (a / 0x4_0000) % 512);
    assert(level_index(v, 1) == (a / 512) % 512);
    assert(level_index(v, 2) == (a / 1) % 512);
    assert(level_index(w, 0) == (b / 0x4_0000) % 512);
    assert(level_index(w, 1) == (b / 512) % 512);
    assert(level_index(w, 2) == (b / 1) % 512);
    if same_indices(v, w) {
        assert(a / 512 == (a / 0x4_0000) * 512 + (a / 512) % 512);
        assert(b / 512 == (b / 0x4_0000) * 512 + (b / 512) % 512);
        assert(a / 0x4_0000 == (a / 0x800_0000) * 512 + (a / 0x4_0000) % 512);
        assert(b / 0x4_0000 == (b / 0x800_0000) * 512 + (b / 0x4_0000) % 512);
        assert(a == (a / 512) * 512 + a % 512);
        assert(b == (b / 512) * 512 + b % 512);
        assert(false);
    }
}

/// What stands behind the pages of a segment.
#[derive(Clone, Copy, Debug)]
pub enum SegmentBacking {
    /// Consecutive frames, the first of them `phys_start`.
    Linear { phys_start: PhysicalPageNumber },
    /// Frames that the address space takes from its pool and owns.
    Owned,
}

/// A run of pages `start..end` that are mapped alike.
#[derive(Clone, Copy, Debug)]
pub struct Segment {
    pub start: VirtualPageNumber,
    pub end: VirtualPageNumber,
    pub backing: SegmentBacking,
    pub flags: Flags,
}

impl Segment {
    /// The word that the leaf entry of page `vpn` of the segment gets in
    /// address space `m`, which owned `base` pages before the segment was
    /// mapped: the pages of an owned segment follow them, in order.
    pub open spec fn word_for(&self, m: Mapping, base: int, vpn: u64) -> u64 {
        match self.backing {
            SegmentBacking::Linear { phys_start } => entry_word(
                (phys_start.0 + (vpn - self.start.0)) as u64,
                self.flags@,
            ) as u64,
            SegmentBacking::Owned => entry_word(
                (m.owned_pages()[base + (vpn - self.start.0)].0 - KERNEL_IDMAP_VPN) as u64,
                self.flags@,
            ) as u64,
        }
    }

    /// Whether no two pages of the segment select the same three table
    /// indices: the segment lies in one stretch of 2^27 pages.
    pub open spec fn compact(&self) -> bool {
        self.start.0 < self.end.0 ==> self.start.0 / 0x800_0000 == (self.end.0 - 1) / 0x800_0000
    }

    /// Whether the frames behind the segment all have a number that an entry
    /// can hold.
    pub open spec fn frames_fit(&self) -> bool {
        match self.backing {
            SegmentBacking::Linear { phys_start } => self.start.0 < self.end.0 ==> phys_start.0 + (
            self.end.0 - self.start.0) <= MAX_PPN + 1,
            SegmentBacking::Owned => true,
        }
    }
}

pub struct Mapping {
    /// All page tables used in this address space; the first is the root.
    tables: Vec<TableHandle>,
    /// All pages that this address space owns and that hold no table.
    owned_pages: Vec<VirtualPageNumber>,
    /// The frame of the root table.
    root_ppn: PhysicalPageNumber,
    /// Whether the root's entry for the kernel window leads to the tables of
    /// the address space that this one was forked from.
    shares_kernel_window: bool,
    ready_for_auto_drop: bool,
}

impl Mapping {
    /// The tables of the address space, the root first.
    pub closed spec fn tables(&self) -> Seq<TableHandle> {
        self.tables@
    }

    /// The data pages that the address space owns, in the order in which it
    /// took them.
    pub closed spec fn owned_pages(&self) -> Seq<VirtualPageNumber> {
        self.owned_pages@
    }

    /// The frame of the root table.
    pub closed spec fn root_ppn(&self) -> u64 {
        self.root_ppn.0
    }

    /// Whether `release` has run.
    pub closed spec fn released(&self) -> bool {
        self.ready_for_auto_drop
    }

    /// The table of leaves for `vpn`, if the walk finds one.
    pub open spec fn leaf(&self, vpn: u64) -> Option<int> {
        leaf_of(self.tables(), vpn)
    }

    /// The word of the leaf entry for `vpn`, if the walk reaches one.
    pub open spec fn translate(&self, vpn: u64) -> Option<u64> {
        match self.leaf(vpn) {
            Some(t) => Some(self.tables()[t].table.entries[level_index(vpn, 2) as int]@),
            None => None,
        }
    }

    /// Whether the root's entry for the kernel window leads to the tables of
    /// the address space that this one was forked from.
    pub closed spec fn shares_kernel_window(&self) -> bool {
        self.shares_kernel_window
    }

    /// Whether the kernel window is this address space's own, and not a
    /// shared one.
    pub open spec fn owns_kernel_window(&self) -> bool {
        !self.shares_kernel_window()
    }

    /// Whether this address space may grow tables for `vpn`: the page lies
    /// outside the kernel window, or the window is not a shared one.
    pub open spec fn can_walk(&self, vpn: u64) -> bool {
        level_index(vpn, 0) != KERNEL_WINDOW_INDEX || self.owns_kernel_window()
    }

    /// The invariant of the address space: the root comes first; every table
    /// lies in the kernel window; no page is held twice; and each entry in use
    /// of a table above the leaves leads to a table of the next level, but for
    /// the root's entry for the kernel window, which may lead to the tables
    /// of the address space it was forked from.
    pub closed spec fn wf(&self) -> bool {
        &&& self.tables@.len() >= 1
        &&& self.tables@[0].level == 0
        &&& self.root_ppn.0 == self.tables@[0].frame()
        &&& forall|i: int| 1 <= i < self.tables@.len() ==> 1 <= (#[trigger] self.tables@[i]).level <= 2
        &&& forall|i: int|
            0 <= i < self.tables@.len() ==> KERNEL_IDMAP_VPN <= (#[trigger] self.tables@[i]).table.vpn.0
                <= MAX_VPN
        &&& forall|j: int|
            0 <= j < self.owned_pages@.len() ==> KERNEL_IDMAP_VPN <= (
            #[trigger] self.owned_pages@[j]).0 <= MAX_VPN
        &&& distinct_pages(self.tables@)
        &&& forall|i: int, j: int|
            0 <= i < j < self.owned_pages@.len() ==> #[trigger] self.owned_pages@[i]
                != #[trigger] self.owned_pages@[j]
        &&& forall|i: int, j: int|
            0 <= i < self.tables@.len() && 0 <= j < self.owned_pages@.len() ==> (
            #[trigger] self.tables@[i]).table.vpn != #[trigger] self.owned_pages@[j]
        &&& all_resolve(self.tables@, self.shares_kernel_window)
        &&& tree_shaped(self.tables@, self.shares_kernel_window)
    }

    /// Whether every page of the address space is an allocated page of
    /// `pool`.
    pub closed spec fn wf_in(&self, pool: PagePool) -> bool {
        &&& forall|i: int|
            0 <= i < self.tables@.len() ==> pool.is_allocated(
                (#[trigger] self.tables@[i]).table.vpn.0,
            )
        &&& forall|j: int|
            0 <= j < self.owned_pages@.len() ==> pool.is_allocated(
                (#[trigger] self.owned_pages@[j]).0,
            )
    }

    /// An address space with an empty root table in a page of `pool`.
    pub fn new_without_kernel_region(pool: &mut LockedPagePool, _token: &ThreadToken) -> (r:
        KernelResult<Mapping>)
        requires
            old(pool)@.wf(),
            old(pool)@.in_kernel_window(),
        ensures
            old(pool)@.allocate_post(
                final(pool)@,
                match r {
                    Ok(m) => Ok(m.tables()[0].table.vpn),
                    Err(e) => Err(e),
                },
            ),
            r.is_ok() ==> {
                let m = r.unwrap();
                &&& m.wf()
                &&& m.wf_in(final(pool)@)
                &&& m.tables().len() == 1
                &&& m.owned_pages().len() == 0
                &&& !m.released()
                &&& m.owns_kernel_window()
                &&& forall|vpn: u64| m.translate(vpn).is_none()
                &&& forall|i: int| 0 <= i < 512 ==> (#[trigger] m.tables()[0].table.entries[i])@ == 0
            },
    {
        proof {
            old(pool)@.lemma_wf();
        }
        let root_table = match Table::new(pool, 0) {
            Ok(t) => t,
            Err(e) => {
                return Err(e);
            },
        };
        proof {
            final(pool)@.lemma_wf();
        }
        let root_ppn = root_table.table.ppn();
        let mut tables: Vec<TableHandle> = Vec::new();
        tables.push(root_table);
        let m = Mapping {
            tables,
            owned_pages: Vec::new(),
            root_ppn,
            shares_kernel_window: false,
            ready_for_auto_drop: false,
        };
        assert(pool@.is_allocated(m.tables@[0].table.vpn.0));
        Ok(m)
    }

    /// The place of the table of the given level in the given frame.
    fn find_table(&self, level: u8, frame: u64) -> (r: Option<usize>)
        requires
            self.wf(),
        ensures
            r.is_some() == has_table(self.tables@, level as int, frame as int),
            r.is_some() ==> r.unwrap() == table_at(self.tables@, level as int, frame as int)
                && r.unwrap() < self.tables@.len() && is_table(
                self.tables@[r.unwrap() as int],
                level as int,
                frame as int,
            ),
    {
        let mut i: usize = 0;
        while i < self.tables.len()
            invariant
                self.wf(),
                i <= self.tables@.len(),
                forall|k: int| 0 <= k < i ==> !is_table(self.tables@[k], level as int, frame as int),
            decreases self.tables@.len() - i,
        {
            let h = &self.tables[i];
            if h.level == level && h.table.vpn.0 - KERNEL_IDMAP_VPN == frame {
                proof {
                    lemma_table_at(self.tables@, i as int);
                }
                return Some(i);
            }
            i += 1;
        }
        None
    }


    /// What a walk for `vpn` that creates the missing tables does to the
    /// address space and to the pool. `done` tells whether the walk reached
    /// the leaf.
    pub open spec fn walk_post(
        &self,
        post: Mapping,
        pool: PagePool,
        post_pool: PagePool,
        vpn: u64,
        done: bool,
    ) -> bool {
        let missing = missing_tables(self.tables(), vpn);
        &&& post.wf()
        &&& post.wf_in(post_pool)
        &&& post_pool.wf()
        &&& post_pool.base() == pool.base()
        &&& post_pool.max_sets() == pool.max_sets()
        &&& post.owned_pages() == self.owned_pages()
        &&& post.root_ppn() == self.root_ppn()
        &&& post.released() == self.released()
        &&& self.extended_by(post)
        &&& post.shares_kernel_window() == self.shares_kernel_window()
        &&& done == (pool.available() >= missing)
        &&& done ==> post.tables().len() == self.tables().len() + missing
            && post_pool.available() == pool.available() - missing
        &&& !done ==> post.tables().len() == self.tables().len() + pool.available()
            && post_pool.available() == 0
        &&& done && missing > 0 ==> post.translate(vpn) == Some(0u64)
        &&& forall|v: u64| #[trigger]
            self.leaf(v).is_some() ==> post.leaf(v) == self.leaf(v) && post.translate(v)
                == self.translate(v)
    }


    /// What `map_one` does to the address space and to the pool, besides the
    /// entry it writes: the walk creates the missing tables, and of the pages
    /// mapped before only those that share the leaf entry of `vpn` change.
    pub open spec fn map_post(
        &self,
        post: Mapping,
        pool: PagePool,
        post_pool: PagePool,
        vpn: u64,
        done: bool,
    ) -> bool {
        let missing = missing_tables(self.tables(), vpn);
        &&& post.wf()
        &&& post.wf_in(post_pool)
        &&& post_pool.wf()
        &&& post_pool.base() == pool.base()
        &&& post_pool.max_sets() == pool.max_sets()
        &&& post.owned_pages() == self.owned_pages()
        &&& post.root_ppn() == self.root_ppn()
        &&& post.released() == self.released()
        &&& self.extended_by(post)
        &&& post.shares_kernel_window() == self.shares_kernel_window()
        &&& done == (pool.available() >= missing)
        &&& done ==> post.tables().len() == self.tables().len() + missing
            && post_pool.available() == pool.available() - missing
        &&& !done ==> post.tables().len() == self.tables().len() + pool.available()
            && post_pool.available() == 0
        &&& forall|v: u64| #[trigger]
            self.leaf(v).is_some() ==> post.leaf(v) == self.leaf(v) && (post.translate(v)
                == self.translate(v) || (post.leaf(v) == post.leaf(vpn) && level_index(v, 2)
                == level_index(vpn, 2)))
    }

    /// Two pages whose walks end in one table of leaves select the same
    /// entries on the way.
    pub proof fn lemma_same_leaf(&self, v: u64, w: u64)
        requires
            self.wf(),
            self.can_walk(v),
            self.can_walk(w),
            self.leaf(v).is_some(),
            self.leaf(v) == self.leaf(w),
        ensures
            level_index(v, 0) == level_index(w, 0),
            level_index(v, 1) == level_index(w, 1),
    {
        vstd::arithmetic::power2::lemma2_to64();
        let t = self.tables@;
        let sh = self.shares_kernel_window;
        let v0 = level_index(v, 0) as int;
        let v1 = level_index(v, 1) as int;
        let w0 = level_index(w, 0) as int;
        let w1 = level_index(w, 1) as int;
        let a = child_of(t, 0, v0).unwrap();
        let b = child_of(t, 0, w0).unwrap();
        assert(0 <= a < t.len() && is_table(t[a], 1, bits_of(t[0].table.entries[v0]@, 10, 54) as int));
        assert(0 <= b < t.len() && is_table(t[b], 1, bits_of(t[0].table.entries[w0]@, 10, 54) as int));
        assert(followed(t, sh, a, v1));
        assert(followed(t, sh, b, w1));
        assert(followed(t, sh, 0, v0));
        assert(followed(t, sh, 0, w0));
        if !(a == b && v1 == w1) {
            assert(child_of(t, a, v1) != child_of(t, b, w1));
        }
        if v0 != w0 {
            assert(child_of(t, 0, v0) != child_of(t, 0, w0));
        }
    }

    /// The walk ends in a table of leaves.
    proof fn lemma_leaf_level(&self, vpn: u64)
        requires
            self.wf(),
            self.leaf(vpn).is_some(),
        ensures
            0 <= self.leaf(vpn).unwrap() < self.tables@.len(),
            self.tables@[self.leaf(vpn).unwrap()].level == 2,
            self.leaf(vpn).unwrap() != 0,
    {
        let a0 = level_index(vpn, 0) as int;
        let a1 = level_index(vpn, 1) as int;
        vstd::arithmetic::power2::lemma2_to64();
        let a = child_of(self.tables@, 0, a0).unwrap();
        assert(0 <= a < self.tables@.len() && is_table(self.tables@[a], 1, bits_of(self.tables@[0].table.entries[a0]@, 10, 54) as int));
        let x = child_of(self.tables@, a, a1).unwrap();
        assert(0 <= x < self.tables@.len() && is_table(self.tables@[x], 2, bits_of(self.tables@[a].table.entries[a1]@, 10, 54) as int));
    }

    /// Whether `post` holds the tables of `self`, each in its old place with
    /// its old level and page, and perhaps more behind them.
    pub open spec fn extended_by(&self, post: Mapping) -> bool {
        extends(self.tables(), post.tables())
    }

    /// Stores `e` in entry `idx` of table `t`.
    fn set_entry(&mut self, t: usize, idx: usize, e: Entry)
        requires
            t < old(self).tables@.len(),
            idx < 512,
        ensures
            final(self).tables@.len() == old(self).tables@.len(),
            final(self).owned_pages == old(self).owned_pages,
            final(self).root_ppn == old(self).root_ppn,
            final(self).ready_for_auto_drop == old(self).ready_for_auto_drop,
            final(self).shares_kernel_window == old(self).shares_kernel_window,
            forall|i: int|
                0 <= i < old(self).tables@.len() && i != t ==> final(self).tables@[i] == old(self).tables@[i],
            final(self).tables@[t as int].level == old(self).tables@[t as int].level,
            final(self).tables@[t as int].table.vpn == old(self).tables@[t as int].table.vpn,
            final(self).tables@[t as int].table.entries@ == old(self).tables@[t as int].table.entries@.update(idx as int, e),
    {
        let mut h = self.tables.remove(t);
        h.table.entries[idx] = e;
        self.tables.insert(t, h);
    }

    /// Follows entry `idx` of table `t` to the table below, which it first
    /// creates in a page of `pool` if the entry is empty.
    fn descend(&mut self, t: usize, idx: usize, pool: &mut LockedPagePool) -> (r: KernelResult<
        usize,
    >)
        requires
            old(self).wf(),
            old(self).wf_in(old(pool)@),
            old(pool)@.wf(),
            old(pool)@.in_kernel_window(),
            t < old(self).tables@.len(),
            idx < 512,
            old(self).tables@[t as int].level < 2,
            !(t == 0 && idx == KERNEL_WINDOW_INDEX) || old(self).owns_kernel_window(),
        ensures
            final(self).wf(),
            final(self).wf_in(final(pool)@),
            final(pool)@.wf(),
            final(pool)@.base() == old(pool)@.base(),
            final(pool)@.max_sets() == old(pool)@.max_sets(),
            final(self).owned_pages == old(self).owned_pages,
            final(self).root_ppn == old(self).root_ppn,
            final(self).ready_for_auto_drop == old(self).ready_for_auto_drop,
            final(self).shares_kernel_window == old(self).shares_kernel_window,
            old(self).extended_by(*final(self)),
            ({
                let missing = child_of(old(self).tables@, t as int, idx as int).is_none();
                &&& r.is_ok() == (!missing || old(pool)@.available() > 0)
                &&& r.is_err() ==> r == Err::<usize, KernelError>(KernelError::OutOfMemory)
                    && final(self).tables@ == old(self).tables@ && final(pool)@ == old(pool)@
                &&& r.is_ok() ==> {
                    &&& child_of(final(self).tables@, t as int, idx as int) == Some(
                        r.unwrap() as int,
                    )
                    &&& r.unwrap() < final(self).tables@.len()
                    &&& final(self).tables@[r.unwrap() as int].level == old(self).tables@[t as int].level + 1
                    &&& final(self).tables@.len() == old(self).tables@.len() + if missing {
                        1int
                    } else {
                        0int
                    }
                    &&& final(pool)@.available() == old(pool)@.available() - if missing {
                        1int
                    } else {
                        0int
                    }
                    &&& !missing ==> final(self).tables@ == old(self).tables@ && final(pool)@
                        == old(pool)@
                    &&& missing ==> old(self).tables@[t as int].table.entries[idx as int]@ == 0
                        && forall|k: int|
                        0 <= k < 512 ==> (#[trigger] final(self).tables@[r.unwrap() as int].table.entries[k])@ == 0
                    &&& forall|i: int, k: int|
                        0 <= i < old(self).tables@.len() && 0 <= k < 512 && !(i == t && k == idx)
                            ==> #[trigger] final(self).tables@[i].table.entries[k] == old(self).tables@[i].table.entries[k]
                }
            }),
    {
        let e: Entry = self.tables[t].table.entries[idx];
        let level: u8 = self.tables[t].level;
        if e.is_empty() {
            proof {
                old(pool)@.lemma_wf();
            }
            let new_table = match Table::new(pool, level + 1) {
                Ok(h) => h,
                Err(err) => {
                    return Err(err);
                },
            };
            proof {
                pool@.lemma_wf();
                assert(pool@.is_allocated(new_table.table.vpn.0));
            }
            let new_ppn = new_table.table.ppn();
            let ghost frame = new_ppn.0;
            self.tables.push(new_table);
            let n: usize = self.tables.len() - 1;
            let entry = Entry::new(new_ppn, Flags::valid());
            self.set_entry(t, idx, entry);
            proof {
                lemma_entry_round_trip(frame, VALID);
                let ft = self.tables@;
                let ot = old(self).tables@;
                assert(is_table(ft[n as int], level + 1, frame as int));
                assert(ft[t as int].table.entries[idx as int] == entry);
                assert(distinct_pages(ft));
                assert forall|k: int| 0 <= k < 512 implies (#[trigger] ft[n as int].table.entries[k])@
                    == 0 by {}
                lemma_tree_kept(ot, ft, self.shares_kernel_window, true, t as int, idx as int);
                assert(self.wf());
                lemma_table_at(ft, n as int);
                assert(final(pool)@.available() == old(pool)@.available() - 1) by {
                    if old(pool)@.free_frames().len() == 0 {
                        assert(final(pool)@.free_frames().len() == 63);
                    }
                }
            }
            Ok(n)
        } else {
            let frame: u64 = e.ppn().0;
            match self.find_table(level + 1, frame) {
                Some(n) => Ok(n),
                None => {
                    proof {
                        assert(false);
                    }
                    Err(KernelError::OutOfMemory)
                },
            }
        }
    }

    /// Walks the tables for `vpn`, creating in pages of `pool` those that are
    /// missing, and returns where the leaf entry of `vpn` stands: the place of
    /// its table among the tables, and its index in that table.
    ///
    /// When the pool runs out after the first of two missing tables was
    /// created, that table stays.
    pub fn entry(
        &mut self,
        vpn: VirtualPageNumber,
        pool: &mut LockedPagePool,
        _token: &ThreadToken,
    ) -> (r: KernelResult<(usize, usize)>)
        requires
            old(self).wf(),
            old(self).wf_in(old(pool)@),
            old(pool)@.wf(),
            old(pool)@.in_kernel_window(),
            old(self).can_walk(vpn.0),
        ensures
            old(self).walk_post(*final(self), old(pool)@, final(pool)@, vpn.0, r.is_ok()),
            r.is_err() ==> r == Err::<(usize, usize), KernelError>(KernelError::OutOfMemory),
            r.is_ok() ==> {
                &&& final(self).leaf(vpn.0) == Some(r.unwrap().0 as int)
                &&& r.unwrap().0 < final(self).tables().len()
                &&& r.unwrap().1 == level_index(vpn.0, 2)
            },
    {
        let levels = vpn.levels();
        let ghost ot = self.tables@;
        let t1 = match self.descend(0, levels[0], pool) {
            Ok(t) => t,
            Err(e) => {
                return Err(e);
            },
        };
        let ghost mid = *self;
        let ghost mid_pool = pool@;
        let r2 = self.descend(t1, levels[1], pool);
        proof {
            let ft = self.tables@;
            let l0 = level_index(vpn.0, 0) as int;
            let l1 = level_index(vpn.0, 1) as int;
            // the first step still stands
            lemma_child_kept(mid.tables@, self.tables@, 0, l0);
            assert forall|v: u64| #[trigger] old(self).leaf(v).is_some() implies {
                &&& final(self).leaf(v) == old(self).leaf(v)
                &&& final(self).translate(v) == old(self).translate(v)
            } by {
                let a0 = level_index(v, 0) as int;
                let a1 = level_index(v, 1) as int;
                vstd::arithmetic::power2::lemma2_to64();
                lemma_child_kept(ot, mid.tables@, 0, a0);
                let a = child_of(ot, 0, a0).unwrap();
                lemma_child_kept(ot, mid.tables@, a, a1);
                let x = child_of(ot, a, a1).unwrap();
                lemma_child_kept(mid.tables@, self.tables@, 0, a0);
                lemma_child_kept(mid.tables@, self.tables@, a, a1);
                assert(self.tables@[x].table.entries[level_index(v, 2) as int]
                    == mid.tables@[x].table.entries[level_index(v, 2) as int]);
                assert(mid.tables@[x].table.entries[level_index(v, 2) as int]
                    == ot[x].table.entries[level_index(v, 2) as int]);
            }
        }
        match r2 {
            Ok(t2) => Ok((t2, levels[2])),
            Err(e) => Err(e),
        }
    }

    /// Maps page `vpn` to frame `ppn` with `flags`, creating the tables that
    /// are missing on the way.
    #[verifier::rlimit(60)]
    #[verifier::spinoff_prover]
    pub fn map_one(
        &mut self,
        vpn: VirtualPageNumber,
        ppn: PhysicalPageNumber,
        flags: Flags,
        pool: &mut LockedPagePool,
        token: &ThreadToken,
    ) -> (r: KernelResult<()>)
        requires
            old(self).wf(),
            old(self).wf_in(old(pool)@),
            old(pool)@.wf(),
            old(pool)@.in_kernel_window(),
            old(self).can_walk(vpn.0),
            ppn.0 <= MAX_PPN,
        ensures
            old(self).map_post(*final(self), old(pool)@, final(pool)@, vpn.0, r.is_ok()),
            r.is_err() ==> r == Err::<(), KernelError>(KernelError::OutOfMemory),
            r.is_ok() ==> final(self).translate(vpn.0) == Some(entry_word(ppn.0, flags@) as u64),
    {
        let (t, idx) = match self.entry(vpn, pool, token) {
            Ok(place) => place,
            Err(e) => {
                return Err(e);
            },
        };
        let ghost mid = *self;
        proof {
            flags.lemma_bounded();
            lemma_entry_round_trip(ppn.0, flags@);
            vstd::arithmetic::power2::lemma2_to64();
            mid.lemma_leaf_level(vpn.0);
        }
        self.set_entry(t, idx, Entry::new(ppn, flags));
        proof {
            assert(mid.extended_by(*self));
            assert forall|i: int, k: int|
                0 <= i < self.tables@.len() && 0 <= k < 512 && self.tables@[i].level
                    < 2 implies #[trigger] self.tables@[i].table.entries[k]
                == mid.tables@[i].table.entries[k] by {}
            assert(distinct_pages(self.tables@));
            lemma_tree_kept(mid.tables@, self.tables@, self.shares_kernel_window, false, 0, 0);
            assert(self.wf());
            assert forall|v: u64| #[trigger] mid.leaf(v).is_some() implies self.leaf(v) == mid.leaf(
                v,
            ) by {
                let a0 = level_index(v, 0) as int;
                let a1 = level_index(v, 1) as int;
                lemma_child_kept(mid.tables@, self.tables@, 0, a0);
                let a = child_of(mid.tables@, 0, a0).unwrap();
                lemma_child_kept(mid.tables@, self.tables@, a, a1);
            }
        }
        Ok(())
    }

    /// What mapping one page of a segment leaves as it was: `post` is the
    /// address space after page `vpn` was mapped, or after the attempt.
    pub open spec fn page_frame(&self, post: Mapping, vpn: u64) -> bool {
        &&& post.wf()
        &&& post.root_ppn() == self.root_ppn()
        &&& post.released() == self.released()
        &&& post.shares_kernel_window() == self.shares_kernel_window()
        &&& self.extended_by(post)
        &&& self.owned_pages().is_prefix_of(post.owned_pages())
        &&& forall|v: u64| #[trigger]
            self.leaf(v).is_some() ==> post.leaf(v) == self.leaf(v) && (post.translate(v)
                == self.translate(v) || (post.leaf(v) == post.leaf(vpn) && level_index(v, 2)
                == level_index(vpn, 2)))
    }

    /// What mapping page `vpn` of `seg` achieves.
    pub open spec fn page_mapped(&self, post: Mapping, seg: Segment, vpn: u64) -> bool {
        &&& post.leaf(vpn).is_some()
        &&& post.translate(vpn) == Some(
            seg.word_for(post, post.owned_pages().len() - 1 - (vpn - seg.start.0), vpn),
        )
        &&& post.owned_pages().len() == self.owned_pages().len() + match seg.backing {
            SegmentBacking::Linear { .. } => 0int,
            SegmentBacking::Owned => 1int,
        }
    }

    /// What holds of the address space `cur` while the pages of `seg` are
    /// mapped into `self`, whatever has been mapped so far.
    pub open spec fn segment_frame(&self, cur: Mapping, seg: Segment) -> bool {
        &&& cur.wf()
        &&& cur.root_ppn() == self.root_ppn()
        &&& cur.released() == self.released()
        &&& cur.shares_kernel_window() == self.shares_kernel_window()
        &&& self.extended_by(cur)
        &&& self.owned_pages().is_prefix_of(cur.owned_pages())
        &&& forall|v: u64| #[trigger] self.leaf(v).is_some() ==> cur.leaf(v) == self.leaf(v)
        &&& forall|v: u64|
            #[trigger] self.leaf(v).is_some() && self.can_walk(v) && (forall|w: u64|
                seg.start.0 <= w < seg.end.0 ==> !same_indices(v, w)) ==> cur.translate(v)
                == self.translate(v)
    }

    /// What holds of the address space `cur` when the pages of `seg` before
    /// `vpn` have been mapped into `self`.
    pub open spec fn segment_mapped(&self, cur: Mapping, seg: Segment, vpn: u64) -> bool {
        let base = self.owned_pages().len() as int;
        &&& forall|v: u64| seg.start.0 <= v < vpn ==> (#[trigger] cur.leaf(v)).is_some()
        &&& seg.start.0 < vpn ==> cur.translate((vpn - 1) as u64) == Some(
            seg.word_for(cur, base, (vpn - 1) as u64),
        )
        &&& seg.compact() ==> forall|v: u64|
            seg.start.0 <= v < vpn ==> #[trigger] cur.translate(v) == Some(
                seg.word_for(cur, base, v),
            )
        &&& cur.owned_pages().len() == base + match seg.backing {
            SegmentBacking::Linear { .. } => 0int,
            SegmentBacking::Owned => if seg.start.0 < vpn {
                vpn - seg.start.0
            } else {
                0int
            },
        }
    }

    /// One more page, mapped or only tried, leaves alone what the segment
    /// leaves alone.
    proof fn lemma_frame_step(&self, before: Mapping, after: Mapping, seg: Segment, vpn: u64)
        requires
            self.segment_frame(before, seg),
            before.page_frame(after, vpn),
            seg.start.0 <= vpn < seg.end.0,
            before.can_walk(vpn),
        ensures
            self.segment_frame(after, seg),
    {
        assert forall|v: u64| #[trigger] self.leaf(v).is_some() implies after.leaf(v) == self.leaf(
            v,
        ) by {
            assert(before.leaf(v) == self.leaf(v));
        }
        assert forall|v: u64|
            #[trigger] self.leaf(v).is_some() && self.can_walk(v) && (forall|w: u64|
                seg.start.0 <= w < seg.end.0 ==> !same_indices(v, w)) implies after.translate(v)
            == self.translate(v) by {
            assert(before.leaf(v) == self.leaf(v));
            assert(!same_indices(v, vpn));
            if after.leaf(v) == after.leaf(vpn) {
                after.lemma_same_leaf(v, vpn);
            }
        }
    }

    /// One more page mapped extends what has been mapped of the segment.
    proof fn lemma_mapped_step(&self, before: Mapping, after: Mapping, seg: Segment, vpn: u64)
        requires
            self.segment_frame(before, seg),
            self.segment_mapped(before, seg, vpn),
            before.page_frame(after, vpn),
            before.page_mapped(after, seg, vpn),
            seg.start.0 <= vpn < seg.end.0,
            after.owns_kernel_window() || forall|v: u64|
                seg.start.0 <= v < seg.end.0 ==> #[trigger] level_index(v, 0)
                    != KERNEL_WINDOW_INDEX,
        ensures
            self.segment_mapped(after, seg, (vpn + 1) as u64),
    {
        let base = self.owned_pages().len() as int;
        assert forall|v: u64| seg.start.0 <= v < vpn + 1 implies (#[trigger] after.leaf(
            v,
        )).is_some() by {
            if v < vpn {
                assert(before.leaf(v).is_some());
            }
        }
        assert forall|v: u64|
            seg.compact() && seg.start.0 <= v < vpn + 1 implies #[trigger] after.translate(v)
            == Some(seg.word_for(after, base, v)) by {
            if v < vpn {
                assert(before.leaf(v).is_some());
                assert(before.translate(v) == Some(seg.word_for(before, base, v)));
                assert(level_index(v, 0) != KERNEL_WINDOW_INDEX || after.owns_kernel_window());
                assert(level_index(vpn, 0) != KERNEL_WINDOW_INDEX || after.owns_kernel_window());
                if after.leaf(v) == after.leaf(vpn) {
                    after.lemma_same_leaf(v, vpn);
                    assert(v / 0x800_0000 == vpn / 0x800_0000);
                    lemma_levels_differ(v, vpn);
                }
            }
        }
    }

    /// Maps page `vpn` of `seg` to its frame.
    fn map_segment_page(
        &mut self,
        seg: &Segment,
        vpn: u64,
        pool: &mut LockedPagePool,
        token: &ThreadToken,
    ) -> (r: KernelResult<()>)
        requires
            old(self).wf(),
            old(self).wf_in(old(pool)@),
            old(pool)@.wf(),
            old(pool)@.in_kernel_window(),
            seg.frames_fit(),
            seg.start.0 <= vpn < seg.end.0,
            old(self).can_walk(vpn),
        ensures
            final(self).wf_in(final(pool)@),
            final(pool)@.wf(),
            final(pool)@.base() == old(pool)@.base(),
            final(pool)@.max_sets() == old(pool)@.max_sets(),
            old(self).page_frame(*final(self), vpn),
            r.is_err() ==> r == Err::<(), KernelError>(KernelError::OutOfMemory) && final(pool)@.available() == 0,
            r.is_ok() ==> old(self).page_mapped(*final(self), *seg, vpn),
    {
        let frame = match seg.backing {
            SegmentBacking::Linear { phys_start } => {
                let page_offset: u64 = vpn - seg.start.0;
                PhysicalPageNumber(phys_start.0 + page_offset)
            },
            SegmentBacking::Owned => {
                proof {
                    pool@.lemma_wf();
                }
                let kernel_vpn = match pool.allocate() {
                    Ok(v) => v,
                    Err(e) => {
                        return Err(e);
                    },
                };
                proof {
                    pool@.lemma_wf();
                    assert(pool@.is_allocated(kernel_vpn.0));
                }
                self.owned_pages.push(kernel_vpn);
                assert(old(self).owned_pages@.is_prefix_of(self.owned_pages@));
                PhysicalPageNumber(kernel_vpn.0 - KERNEL_IDMAP_VPN)
            },
        };
        let ghost mid = *self;
        assert(mid.tables@ == old(self).tables@);
        let r = self.map_one(VirtualPageNumber(vpn), frame, seg.flags, pool, token);
        proof {
            assert forall|v: u64| #[trigger] old(self).leaf(v).is_some() implies self.leaf(v)
                == old(self).leaf(v) && (self.translate(v) == old(self).translate(v) || (self.leaf(
                v,
            ) == self.leaf(vpn) && level_index(v, 2) == level_index(vpn, 2))) by {
                assert(mid.leaf(v).is_some());
                assert(mid.translate(v) == old(self).translate(v));
            }
        }
        r
    }

    /// Maps the pages of `seg`, each to its frame: for a linear segment the
    /// frame as far behind `phys_start` as the page is behind the segment's
    /// start; for an owned one a page taken from `pool`, which the address
    /// space owns from then on. An empty segment maps nothing.
    ///
    /// When the pool runs out, the pages mapped so far stay mapped.
    pub fn map_segment(&mut self, seg: &Segment, pool: &mut LockedPagePool, token: &ThreadToken) -> (r:
        KernelResult<()>)
        requires
            old(self).wf(),
            old(self).wf_in(old(pool)@),
            old(pool)@.wf(),
            old(pool)@.in_kernel_window(),
            seg.frames_fit(),
            old(self).owns_kernel_window() || forall|v: u64|
                seg.start.0 <= v < seg.end.0 ==> #[trigger] level_index(v, 0)
                    != KERNEL_WINDOW_INDEX,
        ensures
            final(self).wf_in(final(pool)@),
            final(pool)@.wf(),
            final(pool)@.base() == old(pool)@.base(),
            final(pool)@.max_sets() == old(pool)@.max_sets(),
            old(self).segment_frame(*final(self), *seg),
            r.is_err() ==> r == Err::<(), KernelError>(KernelError::OutOfMemory) && final(pool)@.available() == 0,
            seg.start.0 >= seg.end.0 ==> r.is_ok() && final(self).tables() == old(self).tables()
                && final(self).owned_pages() == old(self).owned_pages() && final(pool)@ == old(pool)@,
            r.is_ok() ==> old(self).segment_mapped(*final(self), *seg, seg.end.0),
    {
        let mut vpn: u64 = seg.start.0;
        while vpn < seg.end.0
            invariant
                seg.start.0 <= vpn,
                vpn <= seg.end.0 || seg.start.0 >= seg.end.0,
                seg.start.0 >= seg.end.0 ==> vpn == seg.start.0,
                self.wf(),
                self.wf_in(pool@),
                pool@.wf(),
                pool@.in_kernel_window(),
                pool@.base() == old(pool)@.base(),
                pool@.max_sets() == old(pool)@.max_sets(),
                seg.frames_fit(),
                self.owns_kernel_window() || forall|v: u64|
                    seg.start.0 <= v < seg.end.0 ==> #[trigger] level_index(v, 0)
                        != KERNEL_WINDOW_INDEX,
                vpn == seg.start.0 ==> self.tables() == old(self).tables() && self.owned_pages()
                    == old(self).owned_pages() && pool@ == old(pool)@,
                old(self).segment_frame(*self, *seg),
                old(self).segment_mapped(*self, *seg, vpn),
            decreases seg.end.0 - vpn,
        {
            let ghost before = *self;
            assert(level_index(vpn, 0) != KERNEL_WINDOW_INDEX || self.owns_kernel_window());
            let r = self.map_segment_page(seg, vpn, pool, token);
            proof {
                old(self).lemma_frame_step(before, *self, *seg, vpn);
            }
            match r {
                Ok(()) => {},
                Err(e) => {
                    return Err(e);
                },
            }
            proof {
                old(self).lemma_mapped_step(before, *self, *seg, vpn);
            }
            vpn += 1;
        }
        Ok(())
    }

    /// A new address space in a page of `pool` that shares the kernel window
    /// with this one: its root has this root's entry for the window, and no
    /// other.
    pub fn fork(&self, pool: &mut LockedPagePool, token: &ThreadToken) -> (r: KernelResult<Mapping>)
        requires
            self.wf(),
            old(pool)@.wf(),
            old(pool)@.in_kernel_window(),
        ensures
            old(pool)@.allocate_post(
                final(pool)@,
                match r {
                    Ok(m) => Ok(m.tables()[0].table.vpn),
                    Err(e) => Err(e),
                },
            ),
            r.is_ok() ==> {
                let m = r.unwrap();
                &&& m.wf()
                &&& m.wf_in(final(pool)@)
                &&& m.tables().len() == 1
                &&& m.owned_pages().len() == 0
                &&& !m.released()
                &&& m.shares_kernel_window()
                &&& forall|i: int|
                    0 <= i < 512 ==> (#[trigger] m.tables()[0].table.entries[i])@ == if i
                        == KERNEL_WINDOW_INDEX {
                        self.tables()[0].table.entries[i]@
                    } else {
                        0
                    }
            },
    {
        let mut new_mapping = match Mapping::new_without_kernel_region(pool, token) {
            Ok(m) => m,
            Err(e) => {
                return Err(e);
            },
        };
        let shared: Entry = self.tables[0].table.entries[KERNEL_WINDOW_INDEX];
        let ghost fresh = new_mapping;
        new_mapping.set_entry(0, KERNEL_WINDOW_INDEX, shared);
        new_mapping.shares_kernel_window = true;
        proof {
            assert forall|i: int| 0 <= i < 512 implies (
            #[trigger] new_mapping.tables@[0].table.entries[i])@ == if i == KERNEL_WINDOW_INDEX {
                self.tables@[0].table.entries[i]@
            } else {
                0
            } by {
                assert(fresh.tables@[0].table.entries[i]@ == 0);
            }
            let nt = new_mapping.tables@;
            assert forall|t: int, idx: int| followed(nt, true, t, idx) implies (
            #[trigger] nt[t].table.entries[idx])@ == 0 by {
                assert(fresh.tables@[0].table.entries[idx]@ == 0);
            }
            assert forall|t: int, idx: int| followed(nt, true, t, idx) implies (#[trigger] child_of(
                nt,
                t,
                idx,
            )).is_none() by {
                assert(nt[t].table.entries[idx]@ == 0);
            }
            assert(new_mapping.wf());
            assert(new_mapping.wf_in(pool@));
        }
        Ok(new_mapping)
    }

    /// Whether `vpn` is the page of a table of the address space or one of
    /// its owned pages.
    pub open spec fn holds(&self, vpn: u64) -> bool {
        ||| exists|i: int| 0 <= i < self.tables().len() && (#[trigger] self.tables()[i]).table.vpn.0 == vpn
        ||| exists|j: int| 0 <= j < self.owned_pages().len() && (#[trigger] self.owned_pages()[j]).0 == vpn
    }

    /// Gives the owned pages back to `pool` and marks the address space as
    /// ready to be disposed of.
    pub fn release(&mut self, pool: &mut LockedPagePool, _token: &ThreadToken)
        requires
            old(self).wf(),
            old(self).wf_in(old(pool)@),
            old(pool)@.wf(),
        ensures
            final(self).wf(),
            final(self).wf_in(final(pool)@),
            final(self).released(),
            final(self).tables() == old(self).tables(),
            final(self).root_ppn() == old(self).root_ppn(),
            final(self).owned_pages().len() == 0,
            final(pool)@.wf(),
            final(pool)@.base() == old(pool)@.base(),
            final(pool)@.max_sets() == old(pool)@.max_sets(),
            forall|v: u64|
                final(pool)@.is_allocated(v) <==> old(pool)@.is_allocated(v) && !(exists|j: int|
                    0 <= j < old(self).owned_pages().len() && (#[trigger] old(self).owned_pages()[j]).0 == v),
    {
        while self.owned_pages.len() > 0
            invariant
                self.wf(),
                self.wf_in(pool@),
                pool@.wf(),
                pool@.base() == old(pool)@.base(),
                pool@.max_sets() == old(pool)@.max_sets(),
                self.tables == old(self).tables,
                self.root_ppn == old(self).root_ppn,
                self.owned_pages@.is_prefix_of(old(self).owned_pages@),
                forall|v: u64|
                    pool@.is_allocated(v) <==> old(pool)@.is_allocated(v) && !(exists|j: int|
                        self.owned_pages@.len() <= j < old(self).owned_pages@.len() && (
                        #[trigger] old(self).owned_pages@[j]).0 == v),
            decreases self.owned_pages@.len(),
        {
            let ghost before = *self;
            let ghost pool_before = pool@;
            let vpn = match self.owned_pages.pop() {
                Some(v) => v,
                None => {
                    proof {
                        assert(false);
                    }
                    return ;
                },
            };
            let ghost n = self.owned_pages@.len() as int;
            assert(before.owned_pages@[n] == vpn);
            assert(old(self).owned_pages@[n] == vpn);
            pool.free(vpn);
            proof {
                assert forall|i: int| 0 <= i < self.tables@.len() implies pool@.is_allocated(
                    (#[trigger] self.tables@[i]).table.vpn.0,
                ) by {
                    assert(before.tables@[i].table.vpn != before.owned_pages@[n]);
                }
                assert forall|j: int| 0 <= j < self.owned_pages@.len() implies pool@.is_allocated(
                    (#[trigger] self.owned_pages@[j]).0,
                ) by {
                    assert(before.owned_pages@[j] != before.owned_pages@[n]);
                    assert(self.owned_pages@[j] == before.owned_pages@[j]);
                }
                assert forall|v: u64|
                    pool@.is_allocated(v) <==> old(pool)@.is_allocated(v) && !(exists|j: int|
                        self.owned_pages@.len() <= j < old(self).owned_pages@.len() && (
                        #[trigger] old(self).owned_pages@[j]).0 == v) by {
                    if pool_before.is_allocated(v) && v != vpn.0 {
                        if exists|j: int|
                            self.owned_pages@.len() <= j < old(self).owned_pages@.len() && (
                            #[trigger] old(self).owned_pages@[j]).0 == v {
                            let j = choose|j: int|
                                self.owned_pages@.len() <= j < old(self).owned_pages@.len() && (
                                #[trigger] old(self).owned_pages@[j]).0 == v;
                            assert(j != n);
                        }
                    }
                }
            }
        }
        self.ready_for_auto_drop = true;
        proof {
            assert forall|v: u64|
                pool@.is_allocated(v) <==> old(pool)@.is_allocated(v) && !(exists|j: int|
                    0 <= j < old(self).owned_pages().len() && (#[trigger] old(self).owned_pages()[j]).0 == v) by {
                if exists|j: int|
                    0 <= j < old(self).owned_pages().len() && (#[trigger] old(self).owned_pages()[j]).0 == v {
                    let j = choose|j: int|
                        0 <= j < old(self).owned_pages().len() && (#[trigger] old(self).owned_pages()[j]).0 == v;
                    assert(old(self).owned_pages@[j].0 == v);
                }
                if exists|j: int|
                    0 <= j < old(self).owned_pages@.len() && (#[trigger] old(self).owned_pages@[j]).0 == v {
                    let j = choose|j: int|
                        0 <= j < old(self).owned_pages@.len() && (#[trigger] old(self).owned_pages@[j]).0 == v;
                    assert(old(self).owned_pages()[j].0 == v);
                }
            }
        }
    }

    /// Ends the life of a released address space: the pages of its tables go
    /// back to `pool`. An address space must be released before.
    pub fn dispose(self, pool: &mut LockedPagePool)
        requires
            self.released(),
            self.wf(),
            self.wf_in(old(pool)@),
            self.owned_pages().len() == 0,
            old(pool)@.wf(),
        ensures
            final(pool)@.wf(),
            final(pool)@.base() == old(pool)@.base(),
            final(pool)@.max_sets() == old(pool)@.max_sets(),
            forall|v: u64|
                final(pool)@.is_allocated(v) <==> old(pool)@.is_allocated(v) && !self.holds(v),
    {
        let mut tables = self.tables;
        let ghost all = tables@;
        while tables.len() > 0
            invariant
                pool@.wf(),
                pool@.base() == old(pool)@.base(),
                pool@.max_sets() == old(pool)@.max_sets(),
                tables@.is_prefix_of(all),
                all == self.tables@,
                self.wf(),
                forall|i: int| 0 <= i < tables@.len() ==> pool@.is_allocated((#[trigger] tables@[i]).table.vpn.0),
                forall|v: u64|
                    pool@.is_allocated(v) <==> old(pool)@.is_allocated(v) && !(exists|j: int|
                        tables@.len() <= j < all.len() && (#[trigger] all[j]).table.vpn.0 == v),
            decreases tables@.len(),
        {
            let ghost before = tables@;
            let ghost pool_before = pool@;
            let h = match tables.pop() {
                Some(h) => h,
                None => {
                    proof {
                        assert(false);
                    }
                    return ;
                },
            };
            let ghost n = tables@.len() as int;
            assert(before[n] == h);
            assert(all[n] == h);
            h.release(pool);
            proof {
                assert forall|i: int| 0 <= i < tables@.len() implies pool@.is_allocated(
                    (#[trigger] tables@[i]).table.vpn.0,
                ) by {
                    assert(tables@[i] == all[i]);
                    assert(all[i].table.vpn != all[n].table.vpn);
                }
                assert forall|v: u64|
                    pool@.is_allocated(v) <==> old(pool)@.is_allocated(v) && !(exists|j: int|
                        tables@.len() <= j < all.len() && (#[trigger] all[j]).table.vpn.0 == v) by {
                    if pool_before.is_allocated(v) && v != h.table.vpn.0 {
                        if exists|j: int|
                            tables@.len() <= j < all.len() && (#[trigger] all[j]).table.vpn.0 == v {
                            let j = choose|j: int|
                                tables@.len() <= j < all.len() && (#[trigger] all[j]).table.vpn.0
                                    == v;
                            assert(j != n);
                        }
                    }
                }
            }
        }
        proof {
            assert forall|v: u64|
                pool@.is_allocated(v) <==> old(pool)@.is_allocated(v) && !self.holds(v) by {
                if self.holds(v) {
                    let i = choose|i: int|
                        0 <= i < self.tables().len() && (#[trigger] self.tables()[i]).table.vpn.0
                            == v;
                    assert(all[i].table.vpn.0 == v);
                }
                if exists|j: int| 0 <= j < all.len() && (#[trigger] all[j]).table.vpn.0 == v {
                    let j = choose|j: int| 0 <= j < all.len() && (#[trigger] all[j]).table.vpn.0 == v;
                    assert(self.tables()[j].table.vpn.0 == v);
                }
            }
        }
    }

    /// The value that `satp` must hold for the hart to run in this address
    /// space: the root's frame number under the mode bits of Sv39. To write
    /// it, with interrupts masked, and to flush the translations is the
    /// caller's part.
    pub fn activate_thread(&self, _token: &ThreadToken) -> (satp: u64)
        ensures
            satp == self.root_ppn() | SATP_SV39,
    {
        self.root_ppn.0 | SATP_SV39
    }

    /// The leaf entry of `vpn`, if the tables on the way to it exist.
    pub fn lookup(&self, vpn: VirtualPageNumber) -> (r: Option<Entry>)
        requires
            self.wf(),
        ensures
            match r {
                Some(e) => self.translate(vpn.0) == Some(e@),
                None => self.translate(vpn.0).is_none(),
            },
    {
        let levels = vpn.levels();
        let e0: Entry = self.tables[0].table.entries[levels[0]];
        if e0.is_empty() {
            return None;
        }
        let t1 = match self.find_table(1, e0.ppn().0) {
            Some(t) => t,
            None => {
                return None;
            },
        };
        let e1: Entry = self.tables[t1].table.entries[levels[1]];
        if e1.is_empty() {
            return None;
        }
        let t2 = match self.find_table(2, e1.ppn().0) {
            Some(t) => t,
            None => {
                return None;
            },
        };
        Some(self.tables[t2].table.entries[levels[2]])
    }

    /// The number of tables of the address space, the root among them.
    pub fn table_count(&self) -> (n: usize)
        ensures
            n == self.tables().len(),
    {
        self.tables.len()
    }

    /// The number of data pages that the address space owns.
    pub fn owned_count(&self) -> (n: usize)
        ensures
            n == self.owned_pages().len(),
    {
        self.owned_pages.len()
    }

    /// Entry `idx` of the root table.
    pub fn root_entry(&self, idx: usize) -> (e: Entry)
        requires
            self.wf(),
            idx < 512,
        ensures
            e == self.tables()[0].table.entries[idx as int],
    {
        self.tables[0].table.entries[idx]
    }

    /// The frame of the root table.
    pub fn root(&self) -> (p: PhysicalPageNumber)
        ensures
            p.0 == self.root_ppn(),
    {
        self.root_ppn
    }

    /// Whether `release` has run.
    pub fn is_released(&self) -> (b: bool)
        ensures
            b == self.released(),
    {
        self.ready_for_auto_drop
    }
}

} // verus!
