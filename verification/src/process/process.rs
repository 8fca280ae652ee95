use crate::error::KernelResult;
use crate::memory::mapping::{Mapping, Segment, KERNEL_WINDOW_INDEX};
use crate::memory::pool::LockedPagePool;
use crate::process::thread::{id_after, IdSource, ThreadToken};
use vstd::prelude::*;

verus! {

/// The number of a process.
#[derive(Copy, Clone, Debug, Eq, PartialEq, Ord, PartialOrd, Structural)]
pub struct Id(pub u64);

/// A process: its number, its address space and the segments mapped in it.
pub struct Process {
    id: Id,
    mapping: Mapping,
    segments: Vec<Segment>,
}

impl Process {
    /// The number of the process.
    pub closed spec fn spec_id(&self) -> Id {
        self.id
    }

    /// The address space of the process.
    pub closed spec fn mapping(&self) -> Mapping {
        self.mapping
    }

    /// The segments of the process.
    pub closed spec fn segments(&self) -> Seq<Segment> {
        self.segments@
    }

    /// A process with the next number of `ids`, whose address space is forked
    /// from `boot_mapping` in a page of `pool`: it shares the kernel window
    /// and maps nothing else.
    pub fn new(ids: &mut IdSource, boot_mapping: &Mapping, pool: &mut LockedPagePool, token: &ThreadToken) -> (r:
        KernelResult<Process>)
        requires
            boot_mapping.wf(),
            old(pool)@.wf(),
            old(pool)@.in_kernel_window(),
        ensures
            final(ids).next() == id_after(old(ids).next(), 1),
            old(pool)@.allocate_post(
                final(pool)@,
                match r {
                    Ok(p) => Ok(p.mapping().tables()[0].table.vpn),
                    Err(e) => Err(e),
                },
            ),
            r.is_ok() ==> {
                let p = r.unwrap();
                &&& p.spec_id() == Id(old(ids).next())
                &&& p.segments().len() == 0
                &&& p.mapping().wf()
                &&& p.mapping().wf_in(final(pool)@)
                &&& p.mapping().tables().len() == 1
                &&& p.mapping().tables()[0].table.entries[KERNEL_WINDOW_INDEX as int]@
                    == boot_mapping.tables()[0].table.entries[KERNEL_WINDOW_INDEX as int]@
            },
    {
        let id = Id(ids.take());
        match boot_mapping.fork(pool, token) {
            Ok(mapping) => Ok(Process { id, mapping, segments: Vec::new() }),
            Err(e) => Err(e),
        }
    }

    /// The number of the process.
    pub fn id(&self) -> (id: Id)
        ensures
            id == self.spec_id(),
    {
        self.id
    }
}

/// A process as the kernel shares it: every operation on the process goes
/// through this value, which stands for the process together with its lock
/// held.
pub struct LockedProcess(Process);

impl LockedProcess {
    /// The process behind the lock.
    pub closed spec fn view(&self) -> Process {
        self.0
    }

    /// A new process behind its lock, made as `Process::new` makes it.
    pub fn new(ids: &mut IdSource, boot_mapping: &Mapping, pool: &mut LockedPagePool, token: &ThreadToken) -> (r:
        KernelResult<LockedProcess>)
        requires
            boot_mapping.wf(),
            old(pool)@.wf(),
            old(pool)@.in_kernel_window(),
        ensures
            final(ids).next() == id_after(old(ids).next(), 1),
            old(pool)@.allocate_post(
                final(pool)@,
                match r {
                    Ok(p) => Ok(p@.mapping().tables()[0].table.vpn),
                    Err(e) => Err(e),
                },
            ),
            r.is_ok() ==> {
                let p = r.unwrap()@;
                &&& p.spec_id() == Id(old(ids).next())
                &&& p.segments().len() == 0
                &&& p.mapping().wf()
                &&& p.mapping().wf_in(final(pool)@)
                &&& p.mapping().tables().len() == 1
                &&& p.mapping().tables()[0].table.entries[KERNEL_WINDOW_INDEX as int]@
                    == boot_mapping.tables()[0].table.entries[KERNEL_WINDOW_INDEX as int]@
            },
    {
        match Process::new(ids, boot_mapping, pool, token) {
            Ok(p) => Ok(LockedProcess(p)),
            Err(e) => Err(e),
        }
    }
}

} // verus!
