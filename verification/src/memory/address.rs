//! Addresses and page numbers, virtual and physical.

use crate::bits::{bits_of, get_bits};
use crate::layout::KERNEL_IDMAP_START;
use vstd::prelude::*;

verus! {

/// The number of a 4 KiB page of virtual memory.
#[derive(Copy, Clone, Debug, Ord, PartialOrd, Eq, PartialEq, Structural)]
pub struct VirtualPageNumber(pub u64);

/// The number of a 4 KiB frame of physical memory.
#[derive(Copy, Clone, Debug, Ord, PartialOrd, Eq, PartialEq, Structural)]
pub struct PhysicalPageNumber(pub u64);

/// An address in the kernel's virtual address space.
#[derive(Copy, Clone, Debug, Ord, PartialOrd, Eq, PartialEq, Structural)]
pub struct VirtualAddress(pub u64);

/// An address in physical memory.
#[derive(Copy, Clone, Debug, Ord, PartialOrd, Eq, PartialEq, Structural)]
pub struct PhysicalAddress(pub u64);

/// The index that a page number selects in the table of the given level:
/// nine bits, the root's being the highest.
pub open spec fn level_index(vpn: u64, level: nat) -> nat {
    bits_of(vpn, ((2 - level) * 9) as nat, ((3 - level) * 9) as nat)
}

impl VirtualPageNumber {
    /// The three table indices of the page, root first.
    pub fn levels(self) -> (l: [usize; 3])
        ensures
            forall|k: int| 0 <= k < 3 ==> l[k] == level_index(self.0, k as nat),
            forall|k: int| 0 <= k < 3 ==> l[k] < 512,
    {
        proof {
            vstd::arithmetic::power2::lemma2_to64();
        }
        [
            get_bits(self.0, 18, 27) as usize,
            get_bits(self.0, 9, 18) as usize,
            get_bits(self.0, 0, 9) as usize,
        ]
    }

    /// The address of the first byte of the page.
    pub fn start_address(self) -> (a: VirtualAddress)
        ensures
            a.0 == self.0 << 12,
    {
        VirtualAddress(self.0 << 12)
    }
}

impl PhysicalPageNumber {
    /// The address of the first byte of the frame.
    pub fn start_address(self) -> (a: PhysicalAddress)
        ensures
            a.0 == self.0 << 12,
    {
        PhysicalAddress(self.0 << 12)
    }
}

impl VirtualAddress {
    /// The page that holds the address.
    pub fn vpn(self) -> (n: VirtualPageNumber)
        ensures
            n.0 == self.0 >> 12,
            n.0 == self.0 / 4096,
    {
        let a: u64 = self.0;
        assert(a >> 12 == a / 4096) by (bit_vector);
        VirtualPageNumber(self.0 >> 12)
    }

    /// The physical address that the kernel window maps here, if the address
    /// lies in the window.
    pub fn to_phys(self) -> (p: Option<PhysicalAddress>)
        ensures
            self.0 >= KERNEL_IDMAP_START ==> p == Some(
                PhysicalAddress((self.0 - KERNEL_IDMAP_START) as u64),
            ),
            self.0 < KERNEL_IDMAP_START ==> p.is_none(),
    {
        match self.0.checked_sub(KERNEL_IDMAP_START) {
            Some(x) => Some(PhysicalAddress(x)),
            None => None,
        }
    }
}

impl PhysicalAddress {
    /// The frame that holds the address.
    pub fn ppn(self) -> (n: PhysicalPageNumber)
        ensures
            n.0 == self.0 >> 12,
            n.0 == self.0 / 4096,
    {
        let a: u64 = self.0;
        assert(a >> 12 == a / 4096) by (bit_vector);
        PhysicalPageNumber(self.0 >> 12)
    }

    /// The address at which the kernel window maps this physical address, if
    /// the window reaches that far.
    pub fn to_virt(self) -> (v: Option<VirtualAddress>)
        ensures
            self.0 + KERNEL_IDMAP_START <= u64::MAX ==> v == Some(
                VirtualAddress((self.0 + KERNEL_IDMAP_START) as u64),
            ),
            self.0 + KERNEL_IDMAP_START > u64::MAX ==> v.is_none(),
    {
        match self.0.checked_add(KERNEL_IDMAP_START) {
            Some(x) => Some(VirtualAddress(x)),
            None => None,
        }
    }
}

/// The greatest page number of a 64-bit address space.
pub const MAX_VPN: u64 = 0xf_ffff_ffff_ffff;

/// The page number at which the kernel window begins.
pub const KERNEL_IDMAP_VPN: u64 = 0xf_ffff_fff0_0000;

impl VirtualPageNumber {
    /// The frame that the kernel window maps to this page, if the page lies
    /// in the window.
    pub fn to_phys(self) -> (p: Option<PhysicalPageNumber>)
        ensures
            self.0 >= KERNEL_IDMAP_VPN ==> p == Some(
                PhysicalPageNumber((self.0 - KERNEL_IDMAP_VPN) as u64),
            ),
            self.0 < KERNEL_IDMAP_VPN ==> p.is_none(),
    {
        match self.0.checked_sub(KERNEL_IDMAP_VPN) {
            Some(x) => Some(PhysicalPageNumber(x)),
            None => None,
        }
    }
}

impl PhysicalPageNumber {
    /// The page at which the kernel window maps this frame, if the window
    /// reaches that far.
    pub fn to_virt(self) -> (v: Option<VirtualPageNumber>)
        ensures
            self.0 + KERNEL_IDMAP_VPN <= u64::MAX ==> v == Some(
                VirtualPageNumber((self.0 + KERNEL_IDMAP_VPN) as u64),
            ),
            self.0 + KERNEL_IDMAP_VPN > u64::MAX ==> v.is_none(),
    {
        match self.0.checked_add(KERNEL_IDMAP_VPN) {
            Some(x) => Some(VirtualPageNumber(x)),
            None => None,
        }
    }
}

} // verus!
