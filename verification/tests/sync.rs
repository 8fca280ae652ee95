use oskernel::allocator::{Heap, ALLOC_FAILED};
use oskernel::console::print;
use oskernel::sbi::{console_getchar, console_putchar, send_ipi, set_timer, shutdown, SbiCall};
use oskernel::interrupt::context::Context;
use oskernel::layout::KERNEL_IDMAP_START;
use oskernel::memory::address::{PhysicalAddress, VirtualAddress};
use oskernel::memory::boot::remap_kernel;
use oskernel::memory::address::VirtualPageNumber;
use oskernel::memory::mapping::KERNEL_WINDOW_INDEX;
use oskernel::memory::pool::LockedPagePool;
use oskernel::layout::ImageLayout;
use oskernel::process::process::{Id as ProcessId, LockedProcess, Process};
use oskernel::process::thread::{Id, IdSource, Thread, ThreadToken};
use oskernel::scheduler::hart::{HardwareThread, Id as HartId, YieldOutcome};
use oskernel::scheduler::plan::SimplePolicy;
use oskernel::smp::Smp;
use oskernel::sync::lock::{Mutex, MutexLock};
use oskernel::sync::waitqueue::{WaitOutcome, WaitQueue};
use oskernel::sync::yield_mutex::{YieldLock, YieldMutex};

const HART: u64 = 0xffff_ffff_8100_0000;

fn thread(ids: &mut IdSource) -> Box<Thread> {
    Thread::new(ids, 0x1000, 0x2000, 0x3000, 0, 0).unwrap()
}

fn saved() -> Context {
    Context::zeroed()
}

/// A hart that runs thread 0, with threads 1 to `others` ready to run.
fn hart(ids: &mut IdSource, others: u64) -> Box<HardwareThread> {
    let token = ThreadToken::new();
    let mut ht = HardwareThread::new(HartId(0), HART, SimplePolicy::new(), thread(ids));
    ht.start(0);
    for _ in 0..others {
        ht.add_thread(thread(ids), &token);
    }
    ht
}

#[test]
fn wait_with_false_condition_goes_on() {
    let token = ThreadToken::new();
    let mut ids = IdSource::new();
    let mut ht = hart(&mut ids, 1);
    let mut q = WaitQueue::new();
    let r = q.wait(&mut ht, PhysicalAddress(0x80), false, &token, &saved(), 0x2);
    assert!(matches!(r, WaitOutcome::NotNeeded));
    assert_eq!(q.waiting(PhysicalAddress(0x80)), 0);
    assert_eq!(ht.current_thread().id(), Id(0));
    assert_eq!(ht.policy().len(), 1);
}

#[test]
fn wait_without_other_thread_is_idle() {
    let token = ThreadToken::new();
    let mut ids = IdSource::new();
    let mut ht = hart(&mut ids, 0);
    let mut q = WaitQueue::new();
    let r = q.wait(&mut ht, PhysicalAddress(0x80), true, &token, &saved(), 0x2);
    assert!(matches!(r, WaitOutcome::Idle));
    assert_eq!(q.waiting(PhysicalAddress(0x80)), 0);
    assert_eq!(ht.current_thread().id(), Id(0));
    assert!(ht.interrupts_enabled());
}

#[test]
fn wake_without_waiter_changes_nothing() {
    let token = ThreadToken::new();
    let mut ids = IdSource::new();
    let mut ht = hart(&mut ids, 1);
    let mut q = WaitQueue::new();
    q.wake_one(&mut ht, PhysicalAddress(0x80), &token);
    assert_eq!(ht.policy().len(), 1);
    assert_eq!(q.waiting(PhysicalAddress(0x80)), 0);
}

#[test]
fn wait_queues_are_keyed_by_address() {
    let token = ThreadToken::new();
    let mut ids = IdSource::new();
    let mut ht = hart(&mut ids, 3);
    let mut q = WaitQueue::new();
    assert!(matches!(
        q.wait(&mut ht, PhysicalAddress(0x80), true, &token, &saved(), 0x2),
        WaitOutcome::Suspended(_)
    ));
    assert!(matches!(
        q.wait(&mut ht, PhysicalAddress(0x90), true, &token, &saved(), 0x2),
        WaitOutcome::Suspended(_)
    ));
    assert_eq!(q.waiting(PhysicalAddress(0x80)), 1);
    assert_eq!(q.waiting(PhysicalAddress(0x90)), 1);
    assert_eq!(ht.current_thread().id(), Id(2));
    assert_eq!(ht.policy().len(), 1);
    q.wake_one(&mut ht, PhysicalAddress(0x90), &token);
    assert_eq!(q.waiting(PhysicalAddress(0x90)), 0);
    assert_eq!(q.waiting(PhysicalAddress(0x80)), 1);
    assert_eq!(ht.policy().len(), 2);
    assert!(ht.interrupts_enabled());
    // thread 3 was ready before thread 1 was woken
    ht.do_yield(&token, &saved(), 0x2);
    assert_eq!(ht.current_thread().id(), Id(3));
    ht.do_yield(&token, &saved(), 0x2);
    assert_eq!(ht.current_thread().id(), Id(1));
}

#[test]
fn waiters_wake_in_insertion_order() {
    let token = ThreadToken::new();
    let mut ids = IdSource::new();
    let mut ht = hart(&mut ids, 4);
    let mut q = WaitQueue::new();
    let addr = PhysicalAddress(0x8020_0040);
    // thread 0 gives way; threads 1, 2 and 3 wait in turn
    ht.do_yield(&token, &saved(), 0x2);
    for n in 1..4u64 {
        assert_eq!(ht.current_thread().id(), Id(n));
        let r = q.wait(&mut ht, addr, true, &token, &saved(), 0x2);
        assert!(matches!(r, WaitOutcome::Suspended(_)));
        assert_eq!(q.waiting(addr), n as usize);
    }
    // thread 4 wakes three times
    assert_eq!(ht.current_thread().id(), Id(4));
    assert_eq!(ht.policy().len(), 1);
    for n in 1..4usize {
        q.wake_one(&mut ht, addr, &token);
        assert_eq!(q.waiting(addr), 3 - n);
        assert_eq!(ht.policy().len(), 1 + n);
    }
    q.wake_one(&mut ht, addr, &token);
    assert_eq!(ht.policy().len(), 4);
    let mut order = Vec::new();
    for _ in 0..4 {
        ht.do_yield(&token, &saved(), 0x2);
        order.push(ht.current_thread().id().0);
    }
    assert_eq!(order, vec![0, 1, 2, 3]);
}

#[test]
fn yield_mutex_yields_on_contention() {
    let token = ThreadToken::new();
    let mut ids = IdSource::new();
    let mut ht = hart(&mut ids, 1);
    let mut m = YieldMutex::new(5u32);
    assert!(!m.is_locked());
    assert!(matches!(m.lock(&mut ht, &token, &saved(), 0x2), YieldLock::Acquired));
    assert!(m.is_locked());
    assert_eq!(ht.current_thread().id(), Id(0));
    *m.get_mut() += 1;
    // the other thread finds the mutex taken and gives way
    ht.do_yield(&token, &saved(), 0x2);
    assert_eq!(ht.current_thread().id(), Id(1));
    let r = m.lock(&mut ht, &token, &saved(), 0x2);
    assert!(matches!(r, YieldLock::Contended(YieldOutcome::Switched(_))));
    assert_eq!(ht.current_thread().id(), Id(0));
    m.unlock();
    assert!(!m.is_locked());
    ht.do_yield(&token, &saved(), 0x2);
    assert!(matches!(m.lock(&mut ht, &token, &saved(), 0x2), YieldLock::Acquired));
    assert_eq!(*m.get_mut(), 6);
}

#[test]
fn mutex_sleeps_on_the_lock_byte() {
    let token = ThreadToken::new();
    let mut ids = IdSource::new();
    let mut ht = hart(&mut ids, 1);
    let mut q = WaitQueue::new();
    let key = PhysicalAddress(0x8030_0000);
    let mut m = Mutex::new(0u32, VirtualAddress(KERNEL_IDMAP_START + 0x8030_0000));
    assert!(matches!(m.lock(&mut q, &mut ht, &token, &saved(), 0x2), MutexLock::Acquired));
    assert!(m.is_locked());
    ht.do_yield(&token, &saved(), 0x2);
    assert_eq!(ht.current_thread().id(), Id(1));
    let r = m.lock(&mut q, &mut ht, &token, &saved(), 0x2);
    assert!(matches!(r, MutexLock::Contended(WaitOutcome::Suspended(_))));
    assert_eq!(q.waiting(key), 1);
    assert_eq!(ht.current_thread().id(), Id(0));
    assert_eq!(ht.policy().len(), 0);
    *m.get_mut() = 9;
    m.unlock(&mut q, &mut ht, &token);
    assert!(!m.is_locked());
    assert_eq!(q.waiting(key), 0);
    assert_eq!(ht.policy().len(), 1);
    assert_eq!(*m.get(), 9);
}

#[test]
fn mutex_mutual_exclusion() {
    let token = ThreadToken::new();
    let mut ids = IdSource::new();
    // thread 0 only ever yields, so that a waiter always finds a thread to give way to
    let mut ht = hart(&mut ids, 2);
    let mut q = WaitQueue::new();
    let mut m = Mutex::new(0u64, VirtualAddress(KERNEL_IDMAP_START + 0x8030_0000));
    let mut holder: Option<u64> = None;
    let mut inside = [0u32; 3];
    let mut done = [0u32; 3];
    let mut steps = 0u64;
    while done[1] < 10000 || done[2] < 10000 {
        steps += 1;
        assert!(steps < 2_000_000);
        let cur = ht.current_thread().id().0;
        let c = cur as usize;
        if cur == 0 || done[c] == 10000 {
            ht.do_yield(&token, &saved(), 0x2);
        } else if holder == Some(cur) {
            if inside[c] < 5 {
                // stay in the critical section across a few switches
                inside[c] += 1;
                ht.do_yield(&token, &saved(), 0x2);
            } else {
                inside[c] = 0;
                holder = None;
                done[c] += 1;
                m.unlock(&mut q, &mut ht, &token);
                ht.do_yield(&token, &saved(), 0x2);
            }
        } else {
            match m.lock(&mut q, &mut ht, &token, &saved(), 0x2) {
                MutexLock::Acquired => {
                    assert_eq!(holder, None);
                    holder = Some(cur);
                    *m.get_mut() += 1;
                }
                MutexLock::Contended(w) => {
                    assert!(holder.is_some());
                    assert_ne!(holder, Some(cur));
                    assert!(matches!(w, WaitOutcome::Suspended(_)));
                }
            }
        }
    }
    assert_eq!(*m.get(), 20000);
    assert!(!m.is_locked());
}

#[test]
fn smp_boots_one_hart_at_a_time() {
    let mut s = Smp::new();
    assert_eq!(s.num_harts(), 1);
    assert!(!s.ap_boot(1));
    assert!(!s.ap_boot(2));
    assert_eq!(s.num_harts(), 3);
    assert!(!s.may_start(1));
    s.boot_ap(1);
    assert!(s.may_start(1));
    assert!(!s.may_start(2));
    assert!(!s.ap_boot_done());
    s.set_ap_boot_done();
    assert!(s.ap_boot_done());
    s.clear_ap_boot_done();
    assert!(!s.ap_boot_done());
    s.boot_ap(2);
    assert!(s.may_start(2));
    assert_eq!(s.num_harts(), 3);
}

#[test]
fn heap_grows_up_to_the_end_of_ram() {
    let mut h = Heap::init(VirtualAddress(0xffff_ffff_8030_0000));
    assert_eq!(h.heap_usage(), 0);
    assert_eq!(h.dlmalloc_alloc(0x1000), 0xffff_ffff_8030_0000);
    assert_eq!(h.dlmalloc_alloc(0x10), 0xffff_ffff_8030_1000);
    assert_eq!(h.heap_usage(), 0x1010);
    assert_eq!(h.dlmalloc_alloc(0x0800_0000), ALLOC_FAILED);
    assert_eq!(h.dlmalloc_alloc(u64::MAX), ALLOC_FAILED);
    assert_eq!(h.heap_usage(), 0x1010);
    // exactly up to the end of RAM
    assert_eq!(h.dlmalloc_alloc(0x07cf_eff0), 0xffff_ffff_8030_1010);
    assert_eq!(h.dlmalloc_alloc(1), ALLOC_FAILED);
    assert_eq!(h.dlmalloc_alloc(0), 0xffff_ffff_8800_0000);
}

#[test]
fn heap_locks_only_once_locking_is_enabled() {
    let token = ThreadToken::new();
    let mut ids = IdSource::new();
    let mut ht = hart(&mut ids, 1);
    let mut h = Heap::init(VirtualAddress(0xffff_ffff_8030_0000));
    assert!(h.acquire_global_lock(&mut ht, &token, &saved(), 0x2).is_none());
    assert!(!h.is_locked());
    h.release_global_lock();
    h.enable_locking();
    assert!(matches!(
        h.acquire_global_lock(&mut ht, &token, &saved(), 0x2),
        Some(YieldLock::Acquired)
    ));
    assert!(h.is_locked());
    assert_eq!(ht.current_thread().id(), Id(0));
    assert!(matches!(
        h.acquire_global_lock(&mut ht, &token, &saved(), 0x2),
        Some(YieldLock::Contended(YieldOutcome::Switched(_)))
    ));
    assert_eq!(ht.current_thread().id(), Id(1));
    h.release_global_lock();
    assert!(!h.is_locked());
}

#[test]
fn process_ids_ascend_and_share_the_kernel_window() {
    let token = ThreadToken::new();
    let layout = ImageLayout {
        kernel_start: VirtualAddress(0xffff_ffff_87ff_0000),
        text_start: VirtualAddress(0xffff_ffff_87ff_0000),
        rodata_start: VirtualAddress(0xffff_ffff_87ff_4000),
        data_start: VirtualAddress(0xffff_ffff_87ff_6000),
        bss_start: VirtualAddress(0xffff_ffff_87ff_8000),
        kernel_end: VirtualAddress(0xffff_ffff_87ff_a000),
    };
    let mut pool = LockedPagePool::new(VirtualPageNumber(0xf_ffff_fff8_0000), 2);
    let (boot, _) = remap_kernel(&layout, &mut pool, &token).unwrap();
    let mut ids = IdSource::new();
    let a = Process::new(&mut ids, &boot, &mut pool, &token).unwrap();
    let b = Process::new(&mut ids, &boot, &mut pool, &token).unwrap();
    assert_eq!(a.id(), ProcessId(0));
    assert_eq!(b.id(), ProcessId(1));
    assert!(a.id() < b.id());
    assert!(LockedProcess::new(&mut ids, &boot, &mut pool, &token).is_ok());
    assert_eq!(ids.take(), 3);
    assert!(!boot.root_entry(KERNEL_WINDOW_INDEX).is_empty());
    let mut empty = LockedPagePool::new(VirtualPageNumber(0xf_ffff_fff9_0000), 0);
    assert!(Process::new(&mut ids, &boot, &mut empty, &token).is_err());
}

#[test]
fn sbi_calls_name_their_extension() {
    assert_eq!(set_timer(12345), SbiCall { which: 0, arg0: 12345, arg1: 0, arg2: 0 });
    assert_eq!(console_putchar(b'A'), SbiCall { which: 1, arg0: 0x41, arg1: 0, arg2: 0 });
    assert_eq!(console_getchar(), SbiCall { which: 2, arg0: 0, arg1: 0, arg2: 0 });
    assert_eq!(send_ipi(0x8000), SbiCall { which: 4, arg0: 0x8000, arg1: 0, arg2: 0 });
    assert_eq!(shutdown(), SbiCall { which: 8, arg0: 0, arg1: 0, arg2: 0 });
}

#[test]
fn console_prints_utf8_bytes_one_by_one() {
    let calls = print("hé\n");
    let bytes: Vec<u64> = calls.iter().map(|c| c.arg0).collect();
    assert_eq!(bytes, vec![0x68, 0xc3, 0xa9, 0x0a]);
    assert!(calls.iter().all(|c| c.which == 1 && c.arg1 == 0 && c.arg2 == 0));
    assert!(print("").is_empty());
}
