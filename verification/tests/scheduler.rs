use oskernel::interrupt::context::Context;
use oskernel::interrupt::handler::{handle_interrupt, on_breakpoint, InterruptToken, TrapCause};
use oskernel::process::kernel_task::{create_kernel_thread, spawn, RawTask, ThreadStart};
use oskernel::process::thread::{Id, IdSource, RawThreadState, Thread, ThreadToken};
use oskernel::scheduler::hart::{
    Disposal, HardwareThread, Id as HartId, Resume, YieldOutcome, DEFAULT_SCHEDULER_REENTRY_TIMEOUT,
};
use oskernel::scheduler::plan::{Policy, PolicyContext, SimplePolicy, SwitchReason};
use oskernel::scheduler::reason::EntryReason;
use oskernel::sync::without_interrupts;
use oskernel::sync::IntrCell;

const HART: u64 = 0xffff_ffff_8100_0000;
const TRAMPOLINE: u64 = 0xffff_ffff_8020_1000;
const ENTRY: u64 = 0xffff_ffff_8020_2000;

fn stack(n: u64) -> u64 {
    0xffff_ffff_8200_0000 + n * 0x1_0000 - 560
}

fn thread(ids: &mut IdSource, n: u64) -> Box<Thread> {
    Thread::new(ids, TRAMPOLINE, stack(n), ENTRY, 10 + n, 20 + n).unwrap()
}

fn start_of(n: u64) -> ThreadStart {
    ThreadStart { trampoline: TRAMPOLINE, task_trampoline: ENTRY, state_addr: stack(n) }
}

fn saved(tag: u64) -> Context {
    let mut c = Context::zeroed();
    c.gregs[1] = tag;
    c.sepc = 0x4000 + tag;
    c
}

/// A hart that runs thread 0 and has entered it.
fn running_hart(ids: &mut IdSource) -> Box<HardwareThread> {
    let mut ht = HardwareThread::new(HartId(0), HART, SimplePolicy::new(), thread(ids, 0));
    ht.start(0);
    ht
}

fn resume_of(o: YieldOutcome) -> Resume {
    match o {
        YieldOutcome::Switched(r) => r,
        other => panic!("no switch: {:?}", other),
    }
}

#[test]
fn thread_new_sets_up_kernel_context() {
    let mut ids = IdSource::new();
    let th = Thread::new(&mut ids, 0x1000, 0x2000, 0x3000, 0x44, 0x55).unwrap();
    assert_eq!(th.id(), Id(0));
    assert_eq!(th.raw_thread_state_mut_ptr(), 0x2000);
    let ts = th.raw_thread_state();
    assert_eq!(ts.kcontext_valid, 1);
    assert!(!ts.was_user());
    assert_eq!(ts.kcontext.sepc, 0x1000);
    assert_eq!(ts.kcontext.sstatus, 0x120);
    for i in 0..32 {
        let want = match i {
            2 | 10 => 0x2000,
            11 => 0x3000,
            12 => 0x44,
            13 => 0x55,
            _ => 0,
        };
        assert_eq!(ts.kcontext.gregs[i], want);
    }
    assert_eq!(ts.ucontext.gregs, [0u64; 32]);
    assert_eq!(ts.ucontext.sstatus, 0);
    assert_eq!(ts.hart, 0);
    assert_eq!(Thread::check_ts_size(), 560);
}

#[test]
fn thread_ids_ascend() {
    let mut ids = IdSource::new();
    let mut last = None;
    for n in 0..50 {
        let th = thread(&mut ids, n);
        if let Some(prev) = last {
            assert!(th.id() > prev);
        }
        assert_eq!(th.id(), Id(n));
        last = Some(th.id());
        th.drop_assuming_not_current();
    }
    assert_eq!(ids.take(), 50);
    assert_eq!(ids.take(), 51);
}

#[test]
fn thread_state_last_context() {
    let mut ids = IdSource::new();
    let mut th = thread(&mut ids, 1);
    let mut ts: RawThreadState = *th.raw_thread_state();
    assert_eq!(ts.last_context().sepc, TRAMPOLINE);
    ts.last_context_mut().sepc = 7;
    assert_eq!(ts.kcontext.sepc, 7);
    let c = ts.leave();
    assert_eq!(c.sepc, 7);
    assert_eq!(ts.kcontext_valid, 0);
    assert!(ts.was_user());
    assert_eq!(ts.last_context().sepc, 0);
    ts.last_context_mut().sepc = 9;
    assert_eq!(ts.ucontext.sepc, 9);
    assert_eq!(ts.kcontext.sepc, 7);
    assert_eq!(ts.leave().sepc, 9);
    th.set_state(ts);
    assert_eq!(th.raw_thread_state().ucontext.sepc, 9);
    th.raw_thread_state_mut().hart = 5;
    assert_eq!(th.raw_thread_state().hart, 5);
    assert_eq!(th.drop_assuming_not_current(), Id(0));
}

#[test]
fn context_was_user_reads_spp() {
    let mut c = Context::zeroed();
    assert!(c.was_user());
    c.sstatus = 0x100;
    assert!(!c.was_user());
    c.sstatus = 0xffff_ffff_ffff_feff;
    assert!(c.was_user());
    c.sstatus = 0x120;
    assert!(!c.was_user());
}

#[test]
fn policy_yield_is_first_in_first_out() {
    let token = ThreadToken::new();
    let mut ids = IdSource::new();
    let mut p = SimplePolicy::new();
    assert_eq!(p.len(), 0);
    assert!(p.next(PolicyContext::NonCritical(&token), SwitchReason::Yield).is_none());
    for n in 0..3 {
        p.add_thread(PolicyContext::NonCritical(&token), thread(&mut ids, n));
    }
    assert_eq!(p.len(), 3);
    for n in 0..3 {
        let th = p.next(PolicyContext::Critical, SwitchReason::Yield).unwrap();
        assert_eq!(th.id(), Id(n));
        assert_eq!(th.raw_thread_state().kcontext.gregs[12], 10 + n);
        th.drop_assuming_not_current();
    }
    assert_eq!(p.len(), 0);
    assert_eq!(p.ticks_left(), 0);
}

#[test]
fn policy_queue_is_bounded() {
    let token = ThreadToken::new();
    let mut ids = IdSource::new();
    let mut p = SimplePolicy::new();
    for n in 0..512 {
        p.add_thread(PolicyContext::NonCritical(&token), thread(&mut ids, n));
    }
    assert_eq!(p.len(), 512);
    let first = p.next(PolicyContext::Critical, SwitchReason::Yield).unwrap();
    assert_eq!(first.id(), Id(0));
    p.add_thread(PolicyContext::Critical, first);
    assert_eq!(p.len(), 512);
    assert_eq!(p.next(PolicyContext::Critical, SwitchReason::Yield).unwrap().id(), Id(1));
}

#[test]
fn policy_switches_every_ten_ticks() {
    let mut ids = IdSource::new();
    let mut p = SimplePolicy::new();
    for n in 0..4 {
        p.add_thread(PolicyContext::Critical, thread(&mut ids, n));
    }
    // the first tick finds the count run out
    assert_eq!(p.next(PolicyContext::Critical, SwitchReason::Periodic).unwrap().id(), Id(0));
    assert_eq!(p.ticks_left(), 10);
    for left in (1..10).rev() {
        assert!(p.next(PolicyContext::Critical, SwitchReason::Periodic).is_none());
        assert_eq!(p.ticks_left(), left);
    }
    assert_eq!(p.next(PolicyContext::Critical, SwitchReason::Periodic).unwrap().id(), Id(1));
    assert_eq!(p.ticks_left(), 10);
    // a yield does not count as a tick
    assert_eq!(p.next(PolicyContext::Critical, SwitchReason::Yield).unwrap().id(), Id(2));
    assert_eq!(p.ticks_left(), 10);
    assert_eq!(p.len(), 1);
}

#[test]
fn policy_tick_without_threads_still_counts() {
    let mut p = SimplePolicy::new();
    assert!(p.next(PolicyContext::Critical, SwitchReason::Periodic).is_none());
    assert_eq!(p.ticks_left(), 10);
    assert!(p.next(PolicyContext::Critical, SwitchReason::Periodic).is_none());
    assert_eq!(p.ticks_left(), 9);
}

#[test]
fn hart_new_and_start() {
    let mut ids = IdSource::new();
    let mut ht = HardwareThread::new(HartId(3), HART, SimplePolicy::new(), thread(&mut ids, 0));
    assert_eq!(ht.id(), HartId(3));
    assert!(!ht.has_active_intr_guards());
    assert!(!ht.interrupts_enabled());
    assert_eq!(ht.current_thread().raw_thread_state().hart, HART);
    assert_eq!(ht.policy().len(), 0);
    let (resume, deadline) = ht.start(1_000);
    assert_eq!(deadline, 1_000 + DEFAULT_SCHEDULER_REENTRY_TIMEOUT);
    assert_eq!(deadline, 101_000);
    assert!(!resume.to_user);
    assert_eq!(resume.context.sepc, TRAMPOLINE);
    assert_eq!(resume.context.sstatus, 0x120);
    assert_eq!(resume.context.gregs[2], stack(0));
    assert_eq!(resume.context.gregs[3], HART);
    assert_eq!(resume.context.gregs[11], ENTRY);
    assert!(ht.interrupts_enabled());
    assert_eq!(ht.current_thread().raw_thread_state().kcontext_valid, 0);
    assert_eq!(HardwareThread::prepare_scheduler_reentry(u64::MAX), 99_999);
}

#[test]
fn interrupt_guards_nest() {
    let mut ids = IdSource::new();
    let mut ht = running_hart(&mut ids);
    assert!(ht.interrupts_enabled());
    ht.acquire_intr_guard();
    assert!(ht.has_active_intr_guards());
    assert!(!ht.interrupts_enabled());
    ht.acquire_intr_guard();
    assert!(!ht.interrupts_enabled());
    ht.release_intr_guard();
    assert!(ht.has_active_intr_guards());
    assert!(!ht.interrupts_enabled());
    ht.release_intr_guard();
    assert!(!ht.has_active_intr_guards());
    assert!(ht.interrupts_enabled());
}

#[test]
fn interrupt_guard_restores_masked_state() {
    let mut ids = IdSource::new();
    let mut ht = HardwareThread::new(HartId(0), HART, SimplePolicy::new(), thread(&mut ids, 0));
    assert!(!ht.interrupts_enabled());
    ht.acquire_intr_guard();
    ht.release_intr_guard();
    assert!(!ht.interrupts_enabled());
    assert_eq!(without_interrupts(&mut ht, || 41 + 1), 42);
    assert!(!ht.interrupts_enabled());
    assert!(!ht.has_active_intr_guards());
}

#[test]
fn without_interrupts_restores_enabled_state() {
    let mut ids = IdSource::new();
    let mut ht = running_hart(&mut ids);
    assert_eq!(without_interrupts(&mut ht, || "done"), "done");
    assert!(ht.interrupts_enabled());
    assert!(!ht.has_active_intr_guards());
}

#[test]
fn intr_cell_lends_under_a_guard() {
    let mut ids = IdSource::new();
    let mut ht = running_hart(&mut ids);
    let mut cell = IntrCell::new(5u32);
    *cell.borrow_mut(&mut ht) += 1;
    assert!(ht.has_active_intr_guards());
    assert!(!ht.interrupts_enabled());
    ht.release_intr_guard();
    assert!(ht.interrupts_enabled());
    let token = InterruptToken::new();
    *cell.borrow_mut_intr(&token) *= 2;
    assert_eq!(*cell.borrow_mut_intr(&token), 12);
}

#[test]
fn yield_without_other_thread_stays() {
    let token = ThreadToken::new();
    let mut ids = IdSource::new();
    let mut ht = running_hart(&mut ids);
    assert!(matches!(ht.do_yield(&token, &saved(1), 0x2), YieldOutcome::Stayed));
    assert_eq!(ht.current_thread().id(), Id(0));
    assert!(ht.interrupts_enabled());
    assert!(matches!(ht.exit_thread(&token, &saved(1), 0x2), YieldOutcome::Idle));
    assert_eq!(ht.current_thread().id(), Id(0));
    assert_eq!(ht.will_drop_len(), 0);
    assert!(ht.release_current(&token, &saved(1), 0x2).is_none());
    assert!(ht.interrupts_enabled());
    assert!(!ht.has_active_intr_guards());
}

#[test]
fn yield_switches_and_requeues() {
    let token = ThreadToken::new();
    let mut ids = IdSource::new();
    let mut ht = running_hart(&mut ids);
    ht.add_thread(thread(&mut ids, 1), &token);
    let resume = resume_of(ht.do_yield(&token, &saved(7), 0x2));
    assert_eq!(ht.current_thread().id(), Id(1));
    assert_eq!(ht.current_thread().raw_thread_state().hart, HART);
    assert_eq!(ht.policy().len(), 1);
    assert!(!resume.to_user);
    // the present sstatus with SPIE and SPP set
    assert_eq!(resume.context.sstatus, 0x122);
    assert_eq!(resume.context.sepc, TRAMPOLINE);
    assert_eq!(resume.context.gregs[3], HART);
    assert_eq!(resume.context.gregs[12], 11);
    assert!(ht.interrupts_enabled());
    assert!(!ht.has_active_intr_guards());
    // the thread that gave way comes back with the registers it saved
    let back = resume_of(ht.do_yield(&token, &saved(8), 0x0));
    assert_eq!(ht.current_thread().id(), Id(0));
    assert_eq!(back.context.gregs[1], 7);
    assert_eq!(back.context.sepc, 0x4007);
    assert_eq!(back.context.sstatus, 0x120);
    assert_eq!(back.context.gregs[3], HART);
}

#[test]
fn fabricated_sstatus_keeps_other_bits() {
    let token = ThreadToken::new();
    let mut ids = IdSource::new();
    let mut ht = running_hart(&mut ids);
    ht.add_thread(thread(&mut ids, 1), &token);
    ht.add_thread(thread(&mut ids, 2), &token);
    let r = resume_of(ht.do_yield(&token, &saved(0), 0x8000_0000_0000_6120));
    assert_eq!(r.context.sstatus, 0x8000_0000_0000_6120);
    let r = resume_of(ht.do_yield(&token, &saved(0), 0x8000_0000_0000_6003));
    assert_eq!(r.context.sstatus, 0x8000_0000_0000_6123);
}

#[test]
fn exit_defers_the_drop() {
    let token = ThreadToken::new();
    let mut ids = IdSource::new();
    let mut ht = running_hart(&mut ids);
    ht.add_thread(thread(&mut ids, 1), &token);
    let out = ht.exit_thread(&token, &saved(1), 0x2);
    assert!(matches!(out, YieldOutcome::Switched(_)));
    assert_eq!(ht.current_thread().id(), Id(1));
    assert_eq!(ht.policy().len(), 0);
    assert_eq!(ht.will_drop_len(), 1);
    assert_eq!(ht.drain_will_drop(), 1);
    assert_eq!(ht.will_drop_len(), 0);
    assert_eq!(ht.current_thread().id(), Id(1));
}

#[test]
fn ll_yield_hands_out_the_old_current() {
    let token = ThreadToken::new();
    let mut ids = IdSource::new();
    let mut ht = running_hart(&mut ids);
    let next = thread(&mut ids, 1);
    let (out, resume) = ht.ll_yield(next, Disposal::HandOut, &saved(3), 0x2, &token);
    let out = out.unwrap();
    assert_eq!(out.id(), Id(0));
    assert_eq!(out.raw_thread_state().kcontext.gregs[1], 3);
    assert_eq!(out.raw_thread_state().kcontext.sepc, 0x4003);
    assert_eq!(out.raw_thread_state().kcontext.sstatus, 0x122);
    assert_eq!(out.raw_thread_state().kcontext_valid, 1);
    assert_eq!(ht.current_thread().id(), Id(1));
    assert_eq!(ht.current_thread().raw_thread_state().kcontext.sstatus, 0x122);
    assert_ne!(ht.current_thread().id(), out.id());
    assert_eq!(resume.context.gregs[10], stack(1));
    assert_eq!(ht.policy().len(), 0);
    assert_eq!(ht.will_drop_len(), 0);
    assert!(ht.interrupts_enabled());
    assert!(!ht.has_active_intr_guards());
    let (none, _) = ht.ll_yield(out, Disposal::Requeue, &saved(4), 0x2, &token);
    assert!(none.is_none());
    assert_eq!(ht.policy().len(), 1);
    assert_eq!(ht.current_thread().id(), Id(0));
    let third = thread(&mut ids, 2);
    let (none, _) = ht.ll_yield(third, Disposal::DeferDrop, &saved(5), 0x2, &token);
    assert!(none.is_none());
    assert_eq!(ht.will_drop_len(), 1);
    assert_eq!(ht.current_thread().id(), Id(2));
}

#[test]
fn release_current_hands_out_the_thread() {
    let token = ThreadToken::new();
    let mut ids = IdSource::new();
    let mut ht = running_hart(&mut ids);
    ht.add_thread(thread(&mut ids, 1), &token);
    let (out, resume) = ht.release_current(&token, &saved(2), 0x2).unwrap();
    assert_eq!(out.id(), Id(0));
    assert_eq!(ht.current_thread().id(), Id(1));
    assert_eq!(ht.policy().len(), 0);
    assert_eq!(resume.context.gregs[12], 11);
}

#[test]
fn tick_preempts_when_the_count_runs_out() {
    let token = ThreadToken::new();
    let itoken = InterruptToken::new();
    let mut ids = IdSource::new();
    let mut ht = running_hart(&mut ids);
    ht.add_thread(thread(&mut ids, 1), &token);
    let (resume, deadline) = ht.tick(&itoken, 500);
    assert_eq!(deadline, 100_500);
    assert_eq!(ht.current_thread().id(), Id(1));
    assert_eq!(ht.policy().len(), 1);
    assert_eq!(ht.policy().ticks_left(), 10);
    assert_eq!(resume.context.sepc, TRAMPOLINE);
    assert_eq!(resume.context.gregs[3], HART);
    for _ in 0..9 {
        ht.tick(&itoken, 0);
        assert_eq!(ht.current_thread().id(), Id(1));
    }
    ht.tick(&itoken, 0);
    assert_eq!(ht.current_thread().id(), Id(0));
}

fn kernel_trap(sepc: u64) -> Context {
    let mut c = Context::zeroed();
    c.sstatus = 0x120;
    c.sepc = sepc;
    c.gregs[5] = 55;
    c
}

#[test]
fn breakpoint_resumes_behind_the_instruction() {
    let mut ids = IdSource::new();
    let mut ht = running_hart(&mut ids);
    let a = 0xffff_ffff_8020_3000;
    let exit = handle_interrupt(&mut ht, &kernel_trap(a), TrapCause::Breakpoint, 0);
    assert_eq!(exit.breakpoint, Some(a));
    assert_eq!(exit.timer, None);
    assert_eq!(exit.resume.context.sepc, a + 2);
    assert_eq!(exit.resume.context.gregs[5], 55);
    assert_eq!(exit.resume.context.gregs[3], HART);
    assert!(!exit.resume.to_user);
    assert_eq!(ht.current_thread().id(), Id(0));
    assert!(ht.interrupts_enabled());
}

#[test]
fn on_breakpoint_steps_two_bytes() {
    let mut ids = IdSource::new();
    let th = thread(&mut ids, 0);
    let mut ts = *th.raw_thread_state();
    ts.kcontext.sepc = 0x100;
    assert_eq!(on_breakpoint(&mut ts), EntryReason::Breakpoint(0x100));
    assert_eq!(ts.kcontext.sepc, 0x102);
    ts.kcontext_valid = 0;
    ts.ucontext.sepc = u64::MAX;
    assert_eq!(on_breakpoint(&mut ts), EntryReason::Breakpoint(u64::MAX));
    assert_eq!(ts.ucontext.sepc, 1);
    assert_eq!(ts.kcontext.sepc, 0x102);
}

#[test]
fn timer_in_kernel_mode_is_a_tick() {
    let token = ThreadToken::new();
    let mut ids = IdSource::new();
    let mut ht = running_hart(&mut ids);
    ht.add_thread(thread(&mut ids, 1), &token);
    let exit = handle_interrupt(&mut ht, &kernel_trap(0x9000), TrapCause::SupervisorTimer, 77);
    assert_eq!(exit.timer, Some(100_077));
    assert_eq!(exit.breakpoint, None);
    assert_eq!(ht.current_thread().id(), Id(1));
    assert_eq!(exit.resume.context.sepc, TRAMPOLINE);
    // the preempted thread goes on where the trap found it
    let itoken = InterruptToken::new();
    for _ in 0..9 {
        ht.tick(&itoken, 0);
    }
    let (resume, _) = ht.tick(&itoken, 0);
    assert_eq!(ht.current_thread().id(), Id(0));
    assert_eq!(resume.context.sepc, 0x9000);
    assert_eq!(resume.context.gregs[5], 55);
}

#[test]
fn timer_in_user_mode_returns_to_the_thread() {
    let token = ThreadToken::new();
    let mut ids = IdSource::new();
    let mut ht = running_hart(&mut ids);
    ht.add_thread(thread(&mut ids, 1), &token);
    let mut user = Context::zeroed();
    user.sstatus = 0x20;
    user.sepc = 0x1_0000;
    user.gregs[10] = 99;
    let exit = handle_interrupt(&mut ht, &user, TrapCause::SupervisorTimer, 5);
    assert_eq!(exit.timer, None);
    assert!(exit.resume.to_user);
    assert_eq!(exit.resume.sscratch, stack(0));
    assert_eq!(exit.resume.context.sepc, 0x1_0000);
    assert_eq!(exit.resume.context.gregs[10], 99);
    assert_eq!(exit.resume.context.gregs[3], 0);
    assert_eq!(ht.current_thread().id(), Id(0));
    assert_eq!(ht.policy().len(), 1);
}

#[test]
fn enter_kernel_masks_interrupts_until_the_return() {
    let itoken = InterruptToken::new();
    let mut ids = IdSource::new();
    let mut ht = running_hart(&mut ids);
    let mut ts = *ht.current_thread().raw_thread_state();
    ts.kcontext = kernel_trap(0x500);
    ts.kcontext.sstatus = 0x100;
    ts.kcontext_valid = 1;
    ht.set_current_state(ts);
    let exit = ht.enter_kernel(&itoken, EntryReason::Breakpoint(0x500), 0);
    assert_eq!(exit.breakpoint, Some(0x500));
    // the context is resumed with interrupts as they were before the trap
    assert!(!ht.interrupts_enabled());
    let r = ht.return_to_current(&itoken);
    assert!(r.to_user);
}

#[test]
fn spawn_adds_a_thread_that_runs_the_task() {
    let token = ThreadToken::new();
    let mut ids = IdSource::new();
    let mut ht = running_hart(&mut ids);
    let task = RawTask { data: 0xdada, vtable: 0xbabe };
    assert_eq!(spawn(&mut ht, &mut ids, start_of(1), task, &token), Ok(()));
    assert_eq!(ht.policy().len(), 1);
    assert!(ht.interrupts_enabled());
    let resume = resume_of(ht.do_yield(&token, &saved(0), 0x2));
    assert_eq!(ht.current_thread().id(), Id(1));
    assert_eq!(resume.context.gregs[10], stack(1));
    assert_eq!(resume.context.gregs[11], ENTRY);
    assert_eq!(resume.context.gregs[12], 0xdada);
    assert_eq!(resume.context.gregs[13], 0xbabe);
    let th = create_kernel_thread(&mut ids, start_of(2), task).unwrap();
    assert_eq!(th.id(), Id(2));
    assert_eq!(th.raw_thread_state().kcontext.sepc, TRAMPOLINE);
    th.drop_assuming_not_current();
}

#[test]
fn two_threads_count_to_two_thousand() {
    let token = ThreadToken::new();
    let itoken = InterruptToken::new();
    let mut ids = IdSource::new();
    let mut ht = running_hart(&mut ids);
    let task = RawTask { data: 0, vtable: 0 };
    spawn(&mut ht, &mut ids, start_of(1), task, &token).unwrap();
    spawn(&mut ht, &mut ids, start_of(2), task, &token).unwrap();
    let mut counter = 0u64;
    let mut left = [0u64, 1000, 1000];
    let mut exited = 0;
    let mut steps = 0u64;
    while exited < 2 {
        steps += 1;
        assert!(steps < 100_000);
        let cur = ht.current_thread().id().0 as usize;
        if steps % 7 == 0 {
            // the timer fires now and then
            ht.tick(&itoken, steps);
            continue;
        }
        if cur != 0 && left[cur] > 0 {
            counter += 1;
            left[cur] -= 1;
            ht.do_yield(&token, &saved(cur as u64), 0x2);
        } else if cur != 0 {
            match ht.exit_thread(&token, &saved(cur as u64), 0x2) {
                YieldOutcome::Switched(_) => exited += 1,
                other => panic!("a thread that exits must give way: {:?}", other),
            }
        } else {
            ht.do_yield(&token, &saved(0), 0x2);
        }
    }
    assert_eq!(counter, 2000);
    assert_eq!(ht.will_drop_len(), 2);
    assert_eq!(ht.current_thread().id(), Id(0));
    assert_eq!(ht.drain_will_drop(), 2);
}

#[test]
fn hart_address_follows_the_record() {
    let mut ids = IdSource::new();
    let mut ht = HardwareThread::new(HartId(1), 0, SimplePolicy::new(), thread(&mut ids, 0));
    assert_eq!(ht.current_thread().raw_thread_state().hart, 0);
    ht.set_address(HART);
    assert_eq!(ht.current_thread().raw_thread_state().hart, HART);
    let (resume, _) = ht.start(0);
    assert_eq!(resume.context.gregs[3], HART);
    assert_eq!(ht.with_current(|t| t.id()), Id(0));
}

#[test]
fn yielded_thread_is_resumed_by_a_tick() {
    let token = ThreadToken::new();
    let itoken = InterruptToken::new();
    let mut ids = IdSource::new();
    let mut ht = running_hart(&mut ids);
    ht.add_thread(thread(&mut ids, 1), &token);
    ht.do_yield(&token, &saved(7), 0x2);
    assert_eq!(ht.current_thread().id(), Id(1));
    let trap = kernel_trap(0x7000);
    let exit = handle_interrupt(&mut ht, &trap, TrapCause::SupervisorTimer, 0);
    assert_eq!(ht.current_thread().id(), Id(0));
    assert!(!exit.resume.to_user);
    assert_eq!(exit.resume.context.gregs[1], 7);
    assert_eq!(exit.resume.context.sepc, 0x4007);
    assert_eq!(exit.resume.context.sstatus, 0x122);
    assert_eq!(exit.resume.context.gregs[3], HART);
    assert!(ht.interrupts_enabled());
    let _ = itoken;
}
