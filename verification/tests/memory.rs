use oskernel::error::KernelError;
use oskernel::layout::{kernel_idmap_start, ram_end, ram_start, ImageLayout};
use oskernel::memory::address::{
    PhysicalAddress, PhysicalPageNumber, VirtualAddress, VirtualPageNumber, KERNEL_IDMAP_VPN,
};
use oskernel::memory::boot::{kernel_segments, remap_kernel};
use oskernel::memory::mapping::{Mapping, Segment, SegmentBacking, KERNEL_WINDOW_INDEX};
use oskernel::memory::page_table::{Entry, Flags, Table};
use oskernel::memory::pool::{LockedPagePool, PagePool};
use oskernel::process::thread::ThreadToken;

const BASE: u64 = 0xf_ffff_fff8_8000;

fn pool(max_sets: u32) -> LockedPagePool {
    LockedPagePool::new(VirtualPageNumber(BASE), max_sets)
}

fn accounted(p: &PagePool) -> bool {
    p.free_len() + p.allocated_len() == 64 * p.sets() as usize
}

#[test]
fn layout_constants() {
    assert_eq!(ram_start().0, 0xffff_ffff_8000_0000);
    assert_eq!(ram_end().0, 0xffff_ffff_8800_0000);
    assert_eq!(kernel_idmap_start().0, 0xffff_ffff_0000_0000);
}

#[test]
fn layout_check_accepts_ascending_aligned() {
    let l = ImageLayout {
        kernel_start: VirtualAddress(0xffff_ffff_8020_0000),
        text_start: VirtualAddress(0xffff_ffff_8020_0000),
        rodata_start: VirtualAddress(0xffff_ffff_8020_4000),
        data_start: VirtualAddress(0xffff_ffff_8020_6000),
        bss_start: VirtualAddress(0xffff_ffff_8020_8000),
        kernel_end: VirtualAddress(0xffff_ffff_8020_a000),
    };
    assert!(l.check());
    let mut bad = l;
    bad.rodata_start = VirtualAddress(0xffff_ffff_8020_4001);
    assert!(!bad.check());
    let mut swapped = l;
    swapped.data_start = VirtualAddress(0xffff_ffff_8020_2000);
    assert!(!swapped.check());
}

#[test]
fn vpn_levels_are_nine_bits_each() {
    let vpn = VirtualPageNumber((3 << 18) | (5 << 9) | 7);
    assert_eq!(vpn.levels(), [3, 5, 7]);
    assert_eq!(VirtualPageNumber(0x7ff_ffff).levels(), [511, 511, 511]);
    assert_eq!(ram_start().vpn().levels(), [KERNEL_WINDOW_INDEX, 0, 0]);
    // bits above the 27 that select the entries play no part
    assert_eq!(VirtualPageNumber((1 << 27) | 1).levels(), [0, 0, 1]);
}

#[test]
fn address_page_conversions() {
    assert_eq!(VirtualAddress(0x1234_5678).vpn(), VirtualPageNumber(0x12345));
    assert_eq!(VirtualPageNumber(0x12345).start_address(), VirtualAddress(0x1234_5000));
    assert_eq!(PhysicalAddress(0x8020_0fff).ppn(), PhysicalPageNumber(0x80200));
    assert_eq!(PhysicalPageNumber(0x80200).start_address(), PhysicalAddress(0x8020_0000));
}

#[test]
fn kernel_window_translation() {
    assert_eq!(
        VirtualAddress(0xffff_ffff_8000_1000).to_phys(),
        Some(PhysicalAddress(0x8000_1000))
    );
    assert_eq!(VirtualAddress(0xffff_fffe_ffff_ffff).to_phys(), None);
    assert_eq!(
        PhysicalAddress(0x8000_1000).to_virt(),
        Some(VirtualAddress(0xffff_ffff_8000_1000))
    );
    assert_eq!(PhysicalAddress(0x1_0000_0000).to_virt(), None);
    assert_eq!(
        VirtualPageNumber(KERNEL_IDMAP_VPN + 9).to_phys(),
        Some(PhysicalPageNumber(9))
    );
    assert_eq!(VirtualPageNumber(KERNEL_IDMAP_VPN - 1).to_phys(), None);
    assert_eq!(
        PhysicalPageNumber(9).to_virt(),
        Some(VirtualPageNumber(KERNEL_IDMAP_VPN + 9))
    );
}

#[test]
fn flags_bits_and_union() {
    assert_eq!(Flags::empty().bits(), 0);
    assert_eq!(Flags::valid().bits(), 1);
    assert!(Flags::from_bits(256).is_none());
    let rw = Flags::from_bits(2).unwrap().union(Flags::from_bits(4).unwrap());
    assert_eq!(rw.bits(), 6);
    assert!(rw.contains(Flags::from_bits(4).unwrap()));
    assert!(!rw.contains(Flags::valid()));
    assert_eq!(Flags::from_bits(0xff).unwrap().bits(), 0xff);
}

#[test]
fn entry_packs_flags_and_frame() {
    let e = Entry::new(PhysicalPageNumber(0x80000), Flags::from_bits(11).unwrap());
    assert_eq!(e.get(), 0x2000_000b);
    assert_eq!(e.ppn(), PhysicalPageNumber(0x80000));
    assert_eq!(e.flags().bits(), 11);
    assert!(!e.is_empty());
    assert_eq!(e.next_level(), VirtualPageNumber(KERNEL_IDMAP_VPN + 0x80000));
    let top = Entry::new(PhysicalPageNumber(0xfff_ffff_ffff), Flags::from_bits(0xff).unwrap());
    assert_eq!(top.get(), 0x003f_ffff_ffff_fcff);
    assert_eq!(top.ppn().0, 0xfff_ffff_ffff);
    assert!(Entry::new(PhysicalPageNumber(0), Flags::empty()).is_empty());
    assert!(Entry::default().is_empty());
}

#[test]
fn error_code() {
    assert_eq!(KernelError::OutOfMemory.code(), -1);
}

#[test]
fn pool_starts_empty() {
    let p = PagePool::new(VirtualPageNumber(BASE), 4);
    assert_eq!(p.sets(), 0);
    assert_eq!(p.free_len(), 0);
    assert_eq!(p.allocated_len(), 0);
    assert!(accounted(&p));
}

#[test]
fn pool_allocates_lowest_frame_first() {
    let mut p = PagePool::new(VirtualPageNumber(BASE), 4);
    for i in 0..70u64 {
        assert_eq!(p.allocate(), Ok(VirtualPageNumber(BASE + i)));
        assert!(accounted(&p));
    }
    assert_eq!(p.sets(), 2);
    p.free(VirtualPageNumber(BASE + 40));
    p.free(VirtualPageNumber(BASE + 3));
    p.free(VirtualPageNumber(BASE + 66));
    assert!(accounted(&p));
    assert_eq!(p.allocate(), Ok(VirtualPageNumber(BASE + 3)));
    assert_eq!(p.allocate(), Ok(VirtualPageNumber(BASE + 40)));
    assert_eq!(p.allocate(), Ok(VirtualPageNumber(BASE + 66)));
    assert_eq!(p.allocate(), Ok(VirtualPageNumber(BASE + 70)));
}

#[test]
fn pool_accounts_for_every_frame() {
    let mut p = PagePool::new(VirtualPageNumber(BASE), 8);
    let mut held: Vec<VirtualPageNumber> = Vec::new();
    for round in 0..300u64 {
        if round % 3 == 2 && !held.is_empty() {
            let v = held.remove((round as usize * 7) % held.len());
            p.free(v);
        } else {
            held.push(p.allocate().unwrap());
        }
        assert!(accounted(&p));
        assert_eq!(p.allocated_len(), held.len());
    }
    while let Some(v) = held.pop() {
        p.free(v);
        assert!(accounted(&p));
    }
    assert_eq!(p.allocated_len(), 0);
}

#[test]
fn pool_round_trip_reuses_frame() {
    let mut p = PagePool::new(VirtualPageNumber(BASE), 2);
    let a = p.allocate().unwrap();
    let b = p.allocate().unwrap();
    assert_eq!(b.0, a.0 + 1);
    p.free(a);
    assert_eq!(p.free_len(), 63);
    assert_eq!(p.allocate(), Ok(a));
}

#[test]
fn pool_freed_frame_is_zeroed() {
    let mut p = PagePool::new(VirtualPageNumber(BASE), 2);
    let a = p.allocate().unwrap();
    assert_eq!(p.read(a, 0), 0);
    p.write(a, 0, 0xaa);
    p.write(a, 4095, 0x55);
    assert_eq!(p.read(a, 0), 0xaa);
    assert_eq!(p.read(a, 4095), 0x55);
    assert_eq!(p.read(a, 1), 0);
    p.free(a);
    let again = p.allocate().unwrap();
    assert_eq!(again, a);
    for off in 0..4096 {
        assert_eq!(p.read(again, off), 0);
    }
}

#[test]
fn pool_out_of_memory() {
    let mut p = PagePool::new(VirtualPageNumber(BASE), 1);
    for _ in 0..64 {
        assert!(p.allocate().is_ok());
    }
    assert_eq!(p.allocate(), Err(KernelError::OutOfMemory));
    assert_eq!(p.sets(), 1);
    assert!(accounted(&p));
    let mut none = PagePool::new(VirtualPageNumber(BASE), 0);
    assert_eq!(none.allocate(), Err(KernelError::OutOfMemory));
}

#[test]
fn pool_grow_and_shrink() {
    let mut p = PagePool::new(VirtualPageNumber(BASE), 4);
    let mut pages = Vec::new();
    for _ in 0..65 {
        pages.push(p.allocate().unwrap());
    }
    assert_eq!(p.sets(), 2);
    // free 64 of them; the one that stays is the first
    for v in pages.iter().skip(1) {
        p.free(*v);
    }
    assert_eq!(p.sets(), 1);
    assert_eq!(p.allocated_len(), 1);
    assert_eq!(p.free_len(), 63);
    assert!(accounted(&p));
    let next = p.allocate().unwrap();
    assert_eq!(next.0, pages[0].0 + 1);
}

#[test]
fn pool_shrinks_only_on_the_64th_free() {
    let mut p = PagePool::new(VirtualPageNumber(BASE), 4);
    let mut pages = Vec::new();
    for _ in 0..65 {
        pages.push(p.allocate().unwrap());
    }
    p.free(pages[64]);
    // the trailing set is unused, but no shrink was due
    assert_eq!(p.sets(), 2);
    for v in pages.iter().take(62) {
        p.free(*v);
    }
    assert_eq!(p.sets(), 2);
    p.free(pages[62]);
    assert_eq!(p.sets(), 1);
    assert_eq!(p.allocated_len(), 1);
}

#[test]
fn pool_keeps_a_trailing_set_in_use() {
    let mut p = PagePool::new(VirtualPageNumber(BASE), 4);
    let mut pages = Vec::new();
    for _ in 0..65 {
        pages.push(p.allocate().unwrap());
    }
    for v in pages.iter().take(64) {
        p.free(*v);
    }
    assert_eq!(p.sets(), 2);
    assert_eq!(p.allocate(), Ok(VirtualPageNumber(BASE)));
}

#[test]
fn locked_pool_goes_through_to_the_pool() {
    let mut p = pool(2);
    let a = p.allocate().unwrap();
    assert_eq!(a, VirtualPageNumber(BASE));
    assert_eq!(p.pool().allocated_len(), 1);
    p.free(a);
    assert_eq!(p.pool().allocated_len(), 0);
    p.pool_mut().allocate().unwrap();
    assert_eq!(p.pool().free_len(), 63);
}

#[test]
fn table_new_takes_a_page() {
    let mut p = pool(1);
    let h = Table::new(&mut p, 0).unwrap();
    assert_eq!(h.table.vpn, VirtualPageNumber(BASE));
    assert_eq!(h.table.ppn(), PhysicalPageNumber(BASE - KERNEL_IDMAP_VPN));
    assert!(h.table.entries.iter().all(|e| e.is_empty()));
    assert_eq!(p.pool().allocated_len(), 1);
    h.release(&mut p);
    assert_eq!(p.pool().allocated_len(), 0);
}

#[test]
fn map_one_creates_two_tables() {
    let token = ThreadToken::new();
    let mut p = pool(2);
    let mut m = Mapping::new_without_kernel_region(&mut p, &token).unwrap();
    assert_eq!(m.table_count(), 1);
    let vpn = VirtualPageNumber((3 << 18) | (5 << 9) | 7);
    assert_eq!(m.lookup(vpn), None);
    let flags = Flags::from_bits(7).unwrap();
    assert_eq!(m.map_one(vpn, PhysicalPageNumber(0x1234), flags, &mut p, &token), Ok(()));
    assert_eq!(m.table_count(), 3);
    assert_eq!(p.pool().allocated_len(), 3);
    assert_eq!(m.lookup(vpn), Some(Entry::new(PhysicalPageNumber(0x1234), flags)));
    assert_eq!(m.lookup(vpn).unwrap().get(), 0x48_d007);
    // a neighbour in the same table of leaves needs no new table
    let near = VirtualPageNumber(vpn.0 + 1);
    assert_eq!(m.lookup(near), Some(Entry::default()));
    assert_eq!(m.map_one(near, PhysicalPageNumber(0x1235), flags, &mut p, &token), Ok(()));
    assert_eq!(m.table_count(), 3);
    // one with another middle index needs one
    let far = VirtualPageNumber(vpn.0 + (1 << 9));
    assert_eq!(m.map_one(far, PhysicalPageNumber(0x1236), flags, &mut p, &token), Ok(()));
    assert_eq!(m.table_count(), 4);
    assert_eq!(m.lookup(vpn).unwrap().ppn(), PhysicalPageNumber(0x1234));
    assert_eq!(m.lookup(near).unwrap().ppn(), PhysicalPageNumber(0x1235));
    assert_eq!(m.lookup(far).unwrap().ppn(), PhysicalPageNumber(0x1236));
}

#[test]
fn entry_returns_the_leaf_slot() {
    let token = ThreadToken::new();
    let mut p = pool(2);
    let mut m = Mapping::new_without_kernel_region(&mut p, &token).unwrap();
    let vpn = VirtualPageNumber((1 << 18) | 9);
    assert_eq!(m.entry(vpn, &mut p, &token), Ok((2, 9)));
    assert_eq!(m.entry(vpn, &mut p, &token), Ok((2, 9)));
    assert_eq!(m.table_count(), 3);
}

#[test]
fn map_one_out_of_memory() {
    let token = ThreadToken::new();
    let mut p = pool(1);
    let mut m = Mapping::new_without_kernel_region(&mut p, &token).unwrap();
    for _ in 0..62 {
        p.allocate().unwrap();
    }
    // one page is left, two tables are missing
    let r = m.map_one(VirtualPageNumber(1 << 18), PhysicalPageNumber(1), Flags::valid(), &mut p, &token);
    assert_eq!(r, Err(KernelError::OutOfMemory));
    assert_eq!(m.table_count(), 2);
}

#[test]
fn map_segment_empty_maps_nothing() {
    let token = ThreadToken::new();
    let mut p = pool(2);
    let mut m = Mapping::new_without_kernel_region(&mut p, &token).unwrap();
    let seg = Segment {
        start: VirtualPageNumber(100),
        end: VirtualPageNumber(100),
        backing: SegmentBacking::Owned,
        flags: Flags::valid(),
    };
    assert_eq!(m.map_segment(&seg, &mut p, &token), Ok(()));
    assert_eq!(m.table_count(), 1);
    assert_eq!(m.owned_count(), 0);
    assert_eq!(p.pool().allocated_len(), 1);
    let reversed = Segment { start: VirtualPageNumber(101), end: VirtualPageNumber(100), ..seg };
    assert_eq!(m.map_segment(&reversed, &mut p, &token), Ok(()));
    assert_eq!(m.table_count(), 1);
}

#[test]
fn map_segment_last_valid_vpn() {
    let token = ThreadToken::new();
    let mut p = pool(2);
    let mut m = Mapping::new_without_kernel_region(&mut p, &token).unwrap();
    let flags = Flags::from_bits(3).unwrap();
    let seg = Segment {
        start: VirtualPageNumber(0x7ff_ffff),
        end: VirtualPageNumber(0x800_0000),
        backing: SegmentBacking::Linear { phys_start: PhysicalPageNumber(0x42) },
        flags,
    };
    assert_eq!(m.map_segment(&seg, &mut p, &token), Ok(()));
    assert_eq!(m.table_count(), 3);
    assert_eq!(
        m.lookup(VirtualPageNumber(0x7ff_ffff)),
        Some(Entry::new(PhysicalPageNumber(0x42), flags))
    );
}

#[test]
fn map_segment_linear_offsets() {
    let token = ThreadToken::new();
    let mut p = pool(2);
    let mut m = Mapping::new_without_kernel_region(&mut p, &token).unwrap();
    let flags = Flags::from_bits(11).unwrap();
    let seg = Segment {
        start: VirtualPageNumber(510),
        end: VirtualPageNumber(515),
        backing: SegmentBacking::Linear { phys_start: PhysicalPageNumber(0x1000) },
        flags,
    };
    assert_eq!(m.map_segment(&seg, &mut p, &token), Ok(()));
    // the segment crosses from one table of leaves into the next
    assert_eq!(m.table_count(), 4);
    for i in 0..5u64 {
        assert_eq!(
            m.lookup(VirtualPageNumber(510 + i)),
            Some(Entry::new(PhysicalPageNumber(0x1000 + i), flags))
        );
    }
    assert_eq!(m.lookup(VirtualPageNumber(515)), Some(Entry::default()));
    assert_eq!(m.owned_count(), 0);
}

#[test]
fn map_segment_owned_takes_pages() {
    let token = ThreadToken::new();
    let mut p = pool(2);
    let mut m = Mapping::new_without_kernel_region(&mut p, &token).unwrap();
    let flags = Flags::from_bits(0x17).unwrap();
    let seg = Segment {
        start: VirtualPageNumber(8),
        end: VirtualPageNumber(11),
        backing: SegmentBacking::Owned,
        flags,
    };
    assert_eq!(m.map_segment(&seg, &mut p, &token), Ok(()));
    assert_eq!(m.owned_count(), 3);
    assert_eq!(m.table_count(), 3);
    assert_eq!(p.pool().allocated_len(), 6);
    // root is frame 0, the first owned page frame 1, then the two tables
    let off = BASE - KERNEL_IDMAP_VPN;
    assert_eq!(m.lookup(VirtualPageNumber(8)).unwrap().ppn().0, off + 1);
    assert_eq!(m.lookup(VirtualPageNumber(9)).unwrap().ppn().0, off + 4);
    assert_eq!(m.lookup(VirtualPageNumber(10)).unwrap().ppn().0, off + 5);
    assert_eq!(m.lookup(VirtualPageNumber(10)).unwrap().flags().bits(), 0x17);
    m.release(&mut p, &token);
    assert!(m.is_released());
    assert_eq!(m.owned_count(), 0);
    assert_eq!(p.pool().allocated_len(), 3);
    m.dispose(&mut p);
    assert_eq!(p.pool().allocated_len(), 0);
}

#[test]
fn mapping_starts_unreleased() {
    let token = ThreadToken::new();
    let mut p = pool(1);
    let mut m = Mapping::new_without_kernel_region(&mut p, &token).unwrap();
    assert!(!m.is_released());
    assert_eq!(m.root(), PhysicalPageNumber(BASE - KERNEL_IDMAP_VPN));
    assert_eq!(m.activate_thread(&token), (BASE - KERNEL_IDMAP_VPN) | (8 << 60));
    m.release(&mut p, &token);
    assert!(m.is_released());
    m.dispose(&mut p);
    assert_eq!(p.pool().allocated_len(), 0);
}

#[test]
fn new_mapping_fails_without_memory() {
    let token = ThreadToken::new();
    let mut p = pool(0);
    assert!(matches!(
        Mapping::new_without_kernel_region(&mut p, &token),
        Err(KernelError::OutOfMemory)
    ));
}

fn small_layout() -> ImageLayout {
    // an image near the end of RAM, so that the data segment is short
    ImageLayout {
        kernel_start: VirtualAddress(0xffff_ffff_87ff_0000),
        text_start: VirtualAddress(0xffff_ffff_87ff_0000),
        rodata_start: VirtualAddress(0xffff_ffff_87ff_4000),
        data_start: VirtualAddress(0xffff_ffff_87ff_6000),
        bss_start: VirtualAddress(0xffff_ffff_87ff_8000),
        kernel_end: VirtualAddress(0xffff_ffff_87ff_a000),
    }
}

#[test]
fn kernel_segments_cover_the_image() {
    let segs = kernel_segments(&small_layout());
    assert_eq!(segs.len(), 3);
    assert_eq!(segs[0].start, VirtualPageNumber(0xf_ffff_fff8_7ff0));
    assert_eq!(segs[0].end, VirtualPageNumber(0xf_ffff_fff8_7ff4));
    assert_eq!(segs[0].flags.bits(), 0b1011);
    assert!(matches!(
        segs[0].backing,
        SegmentBacking::Linear { phys_start: PhysicalPageNumber(0x87ff0) }
    ));
    assert_eq!(segs[1].start, segs[0].end);
    assert_eq!(segs[1].end, VirtualPageNumber(0xf_ffff_fff8_7ff6));
    assert_eq!(segs[1].flags.bits(), 0b0011);
    assert!(matches!(
        segs[1].backing,
        SegmentBacking::Linear { phys_start: PhysicalPageNumber(0x87ff4) }
    ));
    assert_eq!(segs[2].start, segs[1].end);
    assert_eq!(segs[2].end, VirtualPageNumber(0xf_ffff_fff8_8000));
    assert_eq!(segs[2].flags.bits(), 0b0111);
    assert!(matches!(
        segs[2].backing,
        SegmentBacking::Linear { phys_start: PhysicalPageNumber(0x87ff6) }
    ));
}

#[test]
fn remap_kernel_maps_with_permissions() {
    let token = ThreadToken::new();
    let mut p = LockedPagePool::new(VirtualPageNumber(0xf_ffff_fff8_0000), 2);
    let (m, satp) = remap_kernel(&small_layout(), &mut p, &token).unwrap();
    assert_eq!(satp, m.root().0 | 0x8000_0000_0000_0000);
    assert_eq!(satp, 0x8000_0000_0008_0000);
    let text = m.lookup(VirtualPageNumber(0xf_ffff_fff8_7ff0)).unwrap();
    assert_eq!(text.flags().bits(), 0b1011);
    assert_eq!(text.ppn(), PhysicalPageNumber(0x87ff0));
    let rodata = m.lookup(VirtualPageNumber(0xf_ffff_fff8_7ff5)).unwrap();
    assert_eq!(rodata.flags().bits(), 0b0011);
    assert_eq!(rodata.ppn(), PhysicalPageNumber(0x87ff5));
    let last = m.lookup(VirtualPageNumber(0xf_ffff_fff8_7fff)).unwrap();
    assert_eq!(last.flags().bits(), 0b0111);
    assert_eq!(last.ppn(), PhysicalPageNumber(0x87fff));
    // below the text nothing is mapped
    assert!(m.lookup(VirtualPageNumber(0xf_ffff_fff8_7fef)).unwrap().is_empty());
    assert_eq!(m.owned_count(), 0);
}

#[test]
fn remap_kernel_out_of_memory() {
    let token = ThreadToken::new();
    let mut p = LockedPagePool::new(VirtualPageNumber(0xf_ffff_fff8_0000), 0);
    assert!(matches!(
        remap_kernel(&small_layout(), &mut p, &token),
        Err(KernelError::OutOfMemory)
    ));
}

#[test]
fn fork_shares_kernel_window() {
    let token = ThreadToken::new();
    let mut p = LockedPagePool::new(VirtualPageNumber(0xf_ffff_fff8_0000), 2);
    let (boot, _) = remap_kernel(&small_layout(), &mut p, &token).unwrap();
    let child = boot.fork(&mut p, &token).unwrap();
    assert!(!boot.root_entry(KERNEL_WINDOW_INDEX).is_empty());
    assert_eq!(child.root_entry(KERNEL_WINDOW_INDEX), boot.root_entry(KERNEL_WINDOW_INDEX));
    for i in 0..512 {
        if i != KERNEL_WINDOW_INDEX {
            assert!(child.root_entry(i).is_empty());
        }
    }
    assert_eq!(child.table_count(), 1);
    assert_ne!(child.root(), boot.root());
}
