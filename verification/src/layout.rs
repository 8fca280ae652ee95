use crate::memory::address::VirtualAddress;
use vstd::prelude::*;

verus! {

pub const RAM_START: u64 = 0xffff_ffff_8000_0000;

pub const RAM_END: u64 = 0xffff_ffff_8800_0000;

pub const KERNEL_IDMAP_START: u64 = 0xffff_ffff_0000_0000;

/// The first virtual address of RAM.
pub fn ram_start() -> (a: VirtualAddress)
    ensures
        a.0 == RAM_START,
{
    VirtualAddress(RAM_START)
}

/// The first virtual address past RAM.
pub fn ram_end() -> (a: VirtualAddress)
    ensures
        a.0 == RAM_END,
{
    VirtualAddress(RAM_END)
}

/// The virtual address at which physical address 0 is mapped.
pub fn kernel_idmap_start() -> (a: VirtualAddress)
    ensures
        a.0 == KERNEL_IDMAP_START,
{
    VirtualAddress(KERNEL_IDMAP_START)
}

/// Where the linker placed the sections of the kernel image.
#[derive(Clone, Copy, Debug)]
pub struct ImageLayout {
    pub kernel_start: VirtualAddress,
    pub text_start: VirtualAddress,
    pub rodata_start: VirtualAddress,
    pub data_start: VirtualAddress,
    pub bss_start: VirtualAddress,
    pub kernel_end: VirtualAddress,
}

impl ImageLayout {
    /// The section starts ascend, each lies on a page boundary, and the image
    /// lies in RAM.
    pub open spec fn wf(&self) -> bool {
        &&& RAM_START <= self.kernel_start.0 <= self.text_start.0
        &&& self.text_start.0 <= self.rodata_start.0 <= self.data_start.0
        &&& self.data_start.0 <= self.bss_start.0 <= self.kernel_end.0 <= RAM_END
        &&& self.kernel_start.0 % 4096 == 0
        &&& self.text_start.0 % 4096 == 0
        &&& self.rodata_start.0 % 4096 == 0
        &&& self.data_start.0 % 4096 == 0
        &&& self.bss_start.0 % 4096 == 0
        &&& self.kernel_end.0 % 4096 == 0
    }

    /// Tells whether the layout is one that the kernel can boot from.
    pub fn check(&self) -> (ok: bool)
        ensures
            ok == self.wf(),
    {
        RAM_START <= self.kernel_start.0 && self.kernel_start.0 <= self.text_start.0
            && self.text_start.0 <= self.rodata_start.0 && self.rodata_start.0
            <= self.data_start.0 && self.data_start.0 <= self.bss_start.0 && self.bss_start.0
            <= self.kernel_end.0 && self.kernel_end.0 <= RAM_END && self.kernel_start.0 % 4096 == 0
            && self.text_start.0 % 4096 == 0 && self.rodata_start.0 % 4096 == 0
            && self.data_start.0 % 4096 == 0 && self.bss_start.0 % 4096 == 0
            && self.kernel_end.0 % 4096 == 0
    }
}

} // verus!
