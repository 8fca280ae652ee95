//! The kernel's own address space, built at boot.

use crate::error::{KernelError, KernelResult};
use crate::layout::{ImageLayout, KERNEL_IDMAP_START, RAM_END};
use crate::memory::address::{
    PhysicalPageNumber, VirtualAddress, VirtualPageNumber, KERNEL_IDMAP_VPN,
};
use crate::memory::mapping::{lemma_levels_differ, same_indices, Mapping, Segment, SegmentBacking, SATP_SV39};
use crate::memory::page_table::{entry_word, Flags, EXECUTABLE, READABLE, VALID, WRITABLE};
use crate::memory::pool::LockedPagePool;
use crate::process::thread::ThreadToken;
use vstd::prelude::*;

verus! {

/// The segment of the pages from address `start` up to address `end`, backed
/// by the frames that the kernel window maps there, with the flags `flags`.
pub open spec fn window_segment(start: u64, end: u64, flags: u64) -> Segment {
    Segment {
        start: VirtualPageNumber(start / 4096),
        end: VirtualPageNumber(end / 4096),
        backing: SegmentBacking::Linear {
            phys_start: PhysicalPageNumber(((start - KERNEL_IDMAP_START) / 4096) as u64),
        },
        flags: flags_of(flags),
    }
}

/// The set of flags whose bits are `bits`.
pub open spec fn flags_of(bits: u64) -> Flags {
    choose|f: Flags| f@ == bits
}

/// The three segments of the kernel: the text, readable and executable; the
/// read-only data, readable; and everything from the data to the end of RAM,
/// readable and writable.
pub open spec fn kernel_segments_of(layout: ImageLayout) -> Seq<Segment> {
    seq![
        window_segment(layout.text_start.0, layout.rodata_start.0, VALID | READABLE | EXECUTABLE),
        window_segment(layout.rodata_start.0, layout.data_start.0, VALID | READABLE),
        window_segment(layout.data_start.0, RAM_END, VALID | READABLE | WRITABLE),
    ]
}

/// The flags with which page `vpn` of the kernel is mapped.
pub open spec fn kernel_flags(layout: ImageLayout, vpn: u64) -> u64 {
    if vpn < layout.rodata_start.0 / 4096 {
        VALID | READABLE | EXECUTABLE
    } else if vpn < layout.data_start.0 / 4096 {
        VALID | READABLE
    } else {
        VALID | READABLE | WRITABLE
    }
}

/// The word of the leaf entry of page `vpn` of the kernel: the frame that the
/// kernel window maps to the page, with the flags of the page's segment.
pub open spec fn kernel_word(layout: ImageLayout, vpn: u64) -> u64 {
    entry_word((vpn - KERNEL_IDMAP_VPN) as u64, kernel_flags(layout, vpn)) as u64
}

/// Builds the segment of the pages from `start` up to `end`.
fn make_segment(start: VirtualAddress, end: VirtualAddress, flags: Flags) -> (seg: Segment)
    requires
        start.0 >= KERNEL_IDMAP_START,
    ensures
        seg.start.0 == start.0 / 4096,
        seg.end.0 == end.0 / 4096,
        seg.backing == (SegmentBacking::Linear {
            phys_start: PhysicalPageNumber(((start.0 - KERNEL_IDMAP_START) / 4096) as u64),
        }),
        seg.flags == flags,
{
    let phys_start = PhysicalPageNumber((start.0 - KERNEL_IDMAP_START) >> 12);
    proof {
        let a: u64 = (start.0 - KERNEL_IDMAP_START) as u64;
        assert(a >> 12 == a / 4096) by (bit_vector);
    }
    Segment {
        start: start.vpn(),
        end: end.vpn(),
        backing: SegmentBacking::Linear { phys_start },
        flags,
    }
}

/// The three segments of the kernel for the given layout of its image.
pub fn kernel_segments(layout: &ImageLayout) -> (segs: Vec<Segment>)
    requires
        layout.wf(),
    ensures
        segs@.len() == 3,
        forall|i: int|
            0 <= i < 3 ==> {
                let want = kernel_segments_of(*layout)[i];
                &&& (#[trigger] segs@[i]).start == want.start
                &&& segs@[i].end == want.end
                &&& segs@[i].backing == want.backing
                &&& segs@[i].flags@ == want.flags@
            },
        segs@[0].flags@ == 11,
        segs@[1].flags@ == 3,
        segs@[2].flags@ == 7,
{
    let valid = Flags::valid();
    let r = match Flags::from_bits(READABLE) {
        Some(f) => f,
        None => valid,
    };
    let w = match Flags::from_bits(WRITABLE) {
        Some(f) => f,
        None => valid,
    };
    let x = match Flags::from_bits(EXECUTABLE) {
        Some(f) => f,
        None => valid,
    };
    let text_flags = valid.union(r).union(x);
    let rodata_flags = valid.union(r);
    let data_flags = valid.union(r).union(w);
    proof {
        assert((1u64 | 2u64) | 8u64 == 11u64) by (bit_vector);
        assert(1u64 | 2u64 == 3u64) by (bit_vector);
        assert((1u64 | 2u64) | 4u64 == 7u64) by (bit_vector);
        assert(text_flags@ == 11 && rodata_flags@ == 3 && data_flags@ == 7);
        assert(flags_of(11)@ == 11) by {
            assert(text_flags@ == 11);
        }
        assert(flags_of(3)@ == 3) by {
            assert(rodata_flags@ == 3);
        }
        assert(flags_of(7)@ == 7) by {
            assert(data_flags@ == 7);
        }
    }
    let mut segs: Vec<Segment> = Vec::new();
    segs.push(make_segment(layout.text_start, layout.rodata_start, text_flags));
    segs.push(make_segment(layout.rodata_start, layout.data_start, rodata_flags));
    segs.push(make_segment(layout.data_start, VirtualAddress(RAM_END), data_flags));
    segs
}

/// Builds the kernel's own address space in pages of `pool`: the three
/// segments of the kernel, each mapped to the frames that the kernel window
/// maps it to. Returns the address space and the value that `satp` must hold
/// to run in it.
pub fn remap_kernel(layout: &ImageLayout, pool: &mut LockedPagePool, token: &ThreadToken) -> (r:
    KernelResult<(Mapping, u64)>)
    requires
        layout.wf(),
        old(pool)@.wf(),
        old(pool)@.in_kernel_window(),
    ensures
        final(pool)@.wf(),
        final(pool)@.base() == old(pool)@.base(),
        final(pool)@.max_sets() == old(pool)@.max_sets(),
        r.is_err() ==> r == Err::<(Mapping, u64), KernelError>(KernelError::OutOfMemory) && final(pool)@.available() == 0,
        old(pool)@.available() == 0 ==> r.is_err(),
        r.is_ok() ==> {
            let (m, satp) = r.unwrap();
            &&& m.wf()
            &&& m.wf_in(final(pool)@)
            &&& !m.released()
            &&& m.owned_pages().len() == 0
            &&& m.owns_kernel_window()
            &&& satp == m.root_ppn() | SATP_SV39
            &&& forall|v: u64|
                layout.text_start.0 / 4096 <= v < RAM_END / 4096 ==> #[trigger] m.translate(v)
                    == Some(kernel_word(*layout, v))
        },
{
    proof {
        old(pool)@.lemma_wf();
    }
    let mut mapping = match Mapping::new_without_kernel_region(pool, token) {
        Ok(m) => m,
        Err(e) => {
            return Err(e);
        },
    };
    let ksegs = kernel_segments(layout);
    let mut i: usize = 0;
    let mut covered: u64 = layout.text_start.vpn().0;
    while i < 3
        invariant
            i <= 3,
            i < 3 ==> ksegs@[i as int].start.0 == covered,
            i == 3 ==> covered == RAM_END / 4096,
            layout.text_start.0 / 4096 <= covered,
            layout.wf(),
            ksegs@.len() == 3,
            forall|k: int|
                0 <= k < 3 ==> {
                    let want = kernel_segments_of(*layout)[k];
                    &&& (#[trigger] ksegs@[k]).start == want.start
                    &&& ksegs@[k].end == want.end
                    &&& ksegs@[k].backing == want.backing
                },
            ksegs@[0].flags@ == 11,
            ksegs@[1].flags@ == 3,
            ksegs@[2].flags@ == 7,
            mapping.wf(),
            mapping.wf_in(pool@),
            !mapping.released(),
            mapping.owned_pages().len() == 0,
            mapping.owns_kernel_window(),
            pool@.wf(),
            pool@.in_kernel_window(),
            pool@.base() == old(pool)@.base(),
            pool@.max_sets() == old(pool)@.max_sets(),
            forall|v: u64|
                layout.text_start.0 / 4096 <= v < covered ==> (#[trigger] mapping.leaf(v)).is_some(),
            forall|v: u64|
                layout.text_start.0 / 4096 <= v < covered ==> #[trigger] mapping.translate(v)
                    == Some(kernel_word(*layout, v)),
        decreases 3 - i,
    {
        let ghost before = mapping;
        let seg = &ksegs[i];
        assert(seg.frames_fit());
        assert(mapping.owns_kernel_window());
        match mapping.map_segment(seg, pool, token) {
            Ok(()) => {},
            Err(e) => {
                return Err(e);
            },
        }
        proof {
            assert forall|v: u64| layout.text_start.0 / 4096 <= v < seg.end.0 implies (
            #[trigger] mapping.leaf(v)).is_some() by {
                if v < seg.start.0 {
                    assert(before.leaf(v).is_some());
                }
            }
            assert(seg.compact());
            assert((1u64 | 2u64) | 8u64 == 11u64) by (bit_vector);
            assert(1u64 | 2u64 == 3u64) by (bit_vector);
            assert((1u64 | 2u64) | 4u64 == 7u64) by (bit_vector);
            assert forall|v: u64|
                layout.text_start.0 / 4096 <= v < seg.end.0 implies #[trigger] mapping.translate(v)
                == Some(kernel_word(*layout, v)) by {
                if v < seg.start.0 {
                    assert(before.leaf(v).is_some());
                    assert(before.translate(v) == Some(kernel_word(*layout, v)));
                    assert forall|w: u64| seg.start.0 <= w < seg.end.0 implies !same_indices(
                        v,
                        w,
                    ) by {
                        lemma_levels_differ(v, w);
                    }
                    assert(before.can_walk(v));
                } else {
                    assert(mapping.translate(v) == Some(seg.word_for(mapping, 0, v)));
                }
            }
        }
        covered = seg.end.0;
        i += 1;
    }
    let satp = mapping.activate_thread(token);
    Ok((mapping, satp))
}

} // verus!
