//! Sv39 page-table entries and tables.

use crate::bits::{bits_of, get_bits, set_bits, with_bits};
use crate::error::KernelResult;
use crate::memory::address::{PhysicalPageNumber, VirtualPageNumber, KERNEL_IDMAP_VPN};
use crate::memory::pool::LockedPagePool;
use vstd::arithmetic::power2::{lemma2_to64, lemma2_to64_rest, pow2};
use vstd::prelude::*;

verus! {

pub const VALID: u64 = 1;

pub const READABLE: u64 = 2;

pub const WRITABLE: u64 = 4;

pub const EXECUTABLE: u64 = 8;

pub const USER: u64 = 16;

pub const GLOBAL: u64 = 32;

pub const ACCESSED: u64 = 64;

pub const DIRTY: u64 = 128;

/// The largest frame number that fits the 44 bits an entry has for it.
pub const MAX_PPN: u64 = 0xfff_ffff_ffff;

/// A set of the eight permission and status bits of an entry.
#[derive(Copy, Clone, Debug, Default, PartialEq, Eq, Structural)]
pub struct Flags {
    bits: u8,
}

impl Flags {
    /// The bits of the set as a number.
    pub closed spec fn view(&self) -> u64 {
        self.bits as u64
    }

    /// Every set of flags fits eight bits.
    pub proof fn lemma_bounded(self)
        ensures
            self@ < 256,
    {
    }

    /// The set with no flag.
    pub fn empty() -> (f: Flags)
        ensures
            f@ == 0,
    {
        Flags { bits: 0 }
    }

    /// The set that holds only the flag VALID.
    pub fn valid() -> (f: Flags)
        ensures
            f@ == VALID,
    {
        Flags { bits: 1 }
    }

    /// The set with exactly the flags in `bits`, if every bit of it is a flag.
    pub fn from_bits(bits: u64) -> (f: Option<Flags>)
        ensures
            bits < 256 ==> f.is_some() && f.unwrap()@ == bits,
            bits >= 256 ==> f.is_none(),
    {
        if bits < 256 {
            Some(Flags { bits: bits as u8 })
        } else {
            None
        }
    }

    /// The flags as a number.
    pub fn bits(&self) -> (b: u64)
        ensures
            b == self@,
            b < 256,
    {
        self.bits as u64
    }

    /// The flags of either set.
    pub fn union(self, other: Flags) -> (f: Flags)
        ensures
            f@ == self@ | other@,
    {
        proof {
            let a = self.bits;
            let b = other.bits;
            assert((a | b) as u64 == (a as u64) | (b as u64)) by (bit_vector);
        }
        Flags { bits: self.bits | other.bits }
    }

    /// Whether every flag of `other` is in this set.
    pub fn contains(&self, other: Flags) -> (c: bool)
        ensures
            c == (self@ & other@ == other@),
    {
        proof {
            let a = self.bits;
            let b = other.bits;
            assert((a & b == b) == ((a as u64) & (b as u64) == (b as u64))) by (bit_vector);
        }
        self.bits & other.bits == other.bits
    }
}

/// One 64-bit entry of a page table: flags in bits 0..8, the frame number in
/// bits 10..54.
#[derive(Copy, Clone, Debug, Default, PartialEq, Eq, Structural)]
pub struct Entry(u64);

/// The word that packs `flags` and `ppn` into an entry.
pub open spec fn entry_word(ppn: u64, flags: u64) -> int {
    flags + ppn * 1024
}

impl Entry {
    /// The entry as a word.
    pub closed spec fn view(&self) -> u64 {
        self.0
    }

    /// The entry that points at frame `page_number` with `flags`.
    pub fn new(page_number: PhysicalPageNumber, flags: Flags) -> (e: Entry)
        requires
            page_number.0 <= MAX_PPN,
        ensures
            e@ == entry_word(page_number.0, flags@),
    {
        proof {
            flags.lemma_bounded();
            lemma2_to64();
            lemma2_to64_rest();
        }
        let low: u64 = set_bits(0, 0, 8, flags.bits());
        assert(low == flags@) by {
            assert(pow2(0) == 1 && pow2(8) == 256);
            assert(bits_of(0, 0, 8) == (0nat / pow2(0)) % pow2(8));
        }
        let word: u64 = set_bits(low, 10, 54, page_number.0);
        assert(word == entry_word(page_number.0, flags@)) by {
            assert(pow2(10) == 1024 && pow2(44) == 0x1000_0000_0000);
            assert(low as nat / 1024 == 0);
            assert(bits_of(low, 10, 54) == 0);
        }
        Entry(word)
    }

    /// The entry as a word.
    pub fn get(&self) -> (w: u64)
        ensures
            w == self@,
    {
        self.0
    }

    /// Whether the entry is all zero, which means that nothing is mapped.
    pub fn is_empty(&self) -> (b: bool)
        ensures
            b == (self@ == 0),
    {
        self.0 == 0
    }

    /// The frame that the entry points at.
    pub fn ppn(&self) -> (p: PhysicalPageNumber)
        ensures
            p.0 == bits_of(self@, 10, 54),
            p.0 <= MAX_PPN,
    {
        proof {
            lemma2_to64();
            lemma2_to64_rest();
        }
        PhysicalPageNumber(get_bits(self.0, 10, 54))
    }

    /// The page of the kernel window through which the table that the entry
    /// points at is reached.
    pub fn next_level(&self) -> (v: VirtualPageNumber)
        ensures
            v.0 == bits_of(self@, 10, 54) + KERNEL_IDMAP_VPN,
    {
        let p = self.ppn();
        VirtualPageNumber(p.0 + KERNEL_IDMAP_VPN)
    }

    /// The flags of the entry.
    pub fn flags(&self) -> (f: Flags)
        ensures
            f@ == bits_of(self@, 0, 8),
    {
        proof {
            lemma2_to64();
        }
        let b: u64 = get_bits(self.0, 0, 8);
        Flags { bits: b as u8 }
    }
}

/// An entry gives back the frame and the flags it was made of.
pub proof fn lemma_entry_round_trip(ppn: u64, flags: u64)
    requires
        ppn <= MAX_PPN,
        flags < 256,
    ensures
        entry_word(ppn, flags) <= u64::MAX,
        bits_of(entry_word(ppn, flags) as u64, 10, 54) == ppn,
        bits_of(entry_word(ppn, flags) as u64, 0, 8) == flags,
        (entry_word(ppn, flags) == 0) == (ppn == 0 && flags == 0),
{
    lemma2_to64();
    lemma2_to64_rest();
    let w = entry_word(ppn, flags);
    assert(pow2(0) == 1 && pow2(8) == 256 && pow2(10) == 1024);
    assert(pow2(44) == 0x1000_0000_0000);
    assert(w / 1024 == ppn);
    assert(w / 1 == w);
    assert(w % 256 == flags) by {
        assert(w == flags + 256 * (ppn * 4));
        vstd::arithmetic::div_mod::lemma_mod_multiples_vanish(ppn * 4, flags as int, 256);
    }
    assert(ppn as int % 0x1000_0000_0000 == ppn);
}


/// The number of entries in a table.
pub const ENTRIES: usize = 512;

/// A page table: 512 entries, in the page of kernel memory `vpn`.
#[derive(Clone, Copy, Debug)]
pub struct Table {
    pub entries: [Entry; 512],
    pub vpn: VirtualPageNumber,
}

/// The owner of the page that holds a table. `level` tells how far below the
/// root the table stands: 0 for a root, 2 for a table of leaves.
#[derive(Debug)]
pub struct TableHandle {
    pub table: Box<Table>,
    pub level: u8,
}

impl Table {
    /// Takes a page from `pool` and sets up an empty table of the given
    /// level in it.
    pub fn new(pool: &mut LockedPagePool, level: u8) -> (r: KernelResult<TableHandle>)
        requires
            old(pool)@.wf(),
        ensures
            old(pool)@.allocate_post(
                final(pool)@,
                match r {
                    Ok(h) => Ok(h.table.vpn),
                    Err(e) => Err(e),
                },
            ),
            r.is_ok() ==> r.unwrap().level == level && forall|i: int|
                0 <= i < 512 ==> (#[trigger] r.unwrap().table.entries[i])@ == 0,
    {
        match pool.allocate() {
            Ok(vpn) => Ok(TableHandle { table: Box::new(Table { entries: [Entry(0);512], vpn }), level }),
            Err(e) => Err(e),
        }
    }

    /// The frame that holds the table.
    pub fn ppn(&self) -> (p: PhysicalPageNumber)
        requires
            self.vpn.0 >= KERNEL_IDMAP_VPN,
        ensures
            p.0 == self.vpn.0 - KERNEL_IDMAP_VPN,
    {
        PhysicalPageNumber(self.vpn.0 - KERNEL_IDMAP_VPN)
    }
}

impl TableHandle {
    /// The frame that holds the table, as a number.
    pub open spec fn frame(&self) -> int {
        self.table.vpn.0 - KERNEL_IDMAP_VPN
    }

    /// The words of the table's entries.
    pub open spec fn words(&self) -> Seq<u64> {
        Seq::new(512, |i: int| self.table.entries[i]@)
    }

    /// Gives the page of the table back to `pool`.
    pub fn release(self, pool: &mut LockedPagePool)
        requires
            old(pool)@.wf(),
            old(pool)@.is_allocated(self.table.vpn.0),
        ensures
            old(pool)@.free_post(final(pool)@, self.table.vpn),
    {
        pool.free(self.table.vpn)
    }
}

} // verus!
