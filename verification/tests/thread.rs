use oslib::machine::MachineState;
use oslib::thread::{
    cleanup, init, schedule, stop, surrender, swap_active, thread_entry_point, BootstrapTCB,
    CleanupAction, TCBImpl, TCBInfo, TaskHolder, NCORES, NOOP_WORK, TCB, THREAD_ENTRY_ADDR,
};

fn standard(work: usize) -> TCB {
    TCB::Standard(TCBImpl::new(work))
}

#[test]
fn fresh_thread_stack_layout() {
    let t = TCBImpl::new(42);
    assert_eq!(t.stack.len(), 512);
    // Trampoline in the top word, zeros everywhere else.
    assert_eq!(t.stack[511], THREAD_ENTRY_ADDR);
    assert!(t.stack[..511].iter().all(|w| *w == 0));
    // The stack pointer starts below the trampoline, 6 callee-saved
    // registers, the flags slot and the fault-address slot: word 503.
    assert_eq!(t.tcb_info.stack_pointer, 503 * 8);
    assert_eq!(t.work, Some(42));
}

#[test]
fn tcb_info_records_the_pointer() {
    let i = TCBInfo::new(0x1F0);
    assert_eq!(i.stack_pointer, 0x1F0);
}

#[test]
fn bootstrap_block_has_no_stack() {
    let b = BootstrapTCB::new();
    assert_eq!(b.tcb_info.stack_pointer, 0);
    assert!(b.stack_frame_start.is_none());
    let boxed = BootstrapTCB::new_box();
    assert_eq!(boxed.tcb_info.stack_pointer, 0);
}

#[test]
fn get_work_takes_the_item() {
    let mut t = standard(77);
    assert_eq!(t.get_work(), 77);
    assert!(matches!(&t, TCB::Standard(i) if i.work.is_none()));
}

#[test]
fn task_holder_is_fifo() {
    let mut h = TaskHolder::new();
    assert!(h.get_task().is_none());
    h.add_task(CleanupAction::Requeue(standard(1)));
    h.add_task(CleanupAction::MakeActive(standard(2)));
    assert!(matches!(h.get_task(), Some(CleanupAction::Requeue(_))));
    assert!(matches!(h.get_task(), Some(CleanupAction::MakeActive(_))));
    assert!(h.get_task().is_none());
}

#[test]
fn boot_state_runs_bootstrap_everywhere() {
    let ts = init();
    assert_eq!(ts.active.len(), NCORES);
    assert!(ts.ready.is_empty());
    for slot in ts.active.iter() {
        assert!(matches!(slot, Some(TCB::Bootstrap(_))));
    }
}

#[test]
fn swap_active_exchanges_the_slot() {
    let mut ts = init();
    let prev = swap_active(&mut ts, 0, Some(standard(5)));
    assert!(matches!(prev, Some(TCB::Bootstrap(_))));
    let prev2 = swap_active(&mut ts, 0, None);
    assert!(matches!(prev2, Some(TCB::Standard(_))));
    assert!(ts.active[0].is_none());
}

#[test]
fn drained_cleanup_requeues_before_activating() {
    // The deferred actions run front first: the outgoing thread is back
    // in the ready queue before the incoming one is observable as active.
    let mut ts = init();
    swap_active(&mut ts, 0, None);
    ts.cleanup[0].add_task(CleanupAction::Requeue(standard(1)));
    ts.cleanup[0].add_task(CleanupAction::MakeActive(standard(2)));
    cleanup(&mut ts, 0);
    assert_eq!(ts.ready.len(), 1);
    assert!(matches!(ts.ready.front(), Some(TCB::Standard(i)) if i.work == Some(1)));
    assert!(matches!(&ts.active[0], Some(TCB::Standard(i)) if i.work == Some(2)));
}

#[test]
fn surrender_requeues_outgoing_and_activates_next() {
    let mut ts = init();
    let mut m = MachineState::new();
    m.rsp = 0x777;
    schedule(&mut ts, standard(9));
    surrender(&mut ts, 0, &mut m);
    // The predecessor (the bootstrap context) is already in the ready
    // queue by the time the incoming thread could run, carrying the
    // stack pointer the machine had when it was suspended.
    assert_eq!(ts.ready.len(), 1);
    assert!(matches!(ts.ready.front(), Some(TCB::Bootstrap(b)) if b.tcb_info.stack_pointer == 0x777));
    assert!(matches!(&ts.active[0], Some(TCB::Standard(i)) if i.work == Some(9)));
    // The machine stands on the incoming thread's stack, with the
    // privilege-transition stack pointed at it.
    assert_eq!(m.rsp, 503 * 8);
    assert_eq!(m.privilege_stack, 503 * 8);
    // Other cores were untouched.
    assert!(matches!(&ts.active[1], Some(TCB::Bootstrap(_))));
}

#[test]
fn stop_discards_the_outgoing_thread() {
    let mut ts = init();
    let mut m = MachineState::new();
    swap_active(&mut ts, 3, Some(standard(4)));
    schedule(&mut ts, standard(5));
    stop(&mut ts, 3, &mut m);
    // The stopped thread is gone: nothing was re-queued.
    assert!(ts.ready.is_empty());
    assert!(matches!(&ts.active[3], Some(TCB::Standard(i)) if i.work == Some(5)));
}

#[test]
fn surrender_with_empty_queue_synthesizes_busy_work() {
    let mut ts = init();
    let mut m = MachineState::new();
    surrender(&mut ts, 2, &mut m);
    // The bootstrap context went back to ready and a throwaway no-op
    // thread took the core, rather than deadlocking on an empty queue.
    assert_eq!(ts.ready.len(), 1);
    assert!(matches!(ts.ready.front(), Some(TCB::Bootstrap(_))));
    assert!(matches!(&ts.active[2], Some(TCB::Standard(i)) if i.work == Some(NOOP_WORK)));
}

#[test]
fn surrender_without_active_thread_is_a_no_op() {
    let mut ts = init();
    let mut m = MachineState::new();
    swap_active(&mut ts, 1, None);
    schedule(&mut ts, standard(8));
    surrender(&mut ts, 1, &mut m);
    assert_eq!(ts.ready.len(), 1);
    assert!(ts.active[1].is_none());
}

#[test]
fn thread_entry_drains_then_hands_out_work() {
    let mut ts = init();
    swap_active(&mut ts, 0, None);
    ts.cleanup[0].add_task(CleanupAction::Requeue(standard(1)));
    ts.cleanup[0].add_task(CleanupAction::MakeActive(standard(99)));
    let w = thread_entry_point(&mut ts, 0);
    assert_eq!(w, 99);
    // The predecessor was re-queued before the work was handed out, and
    // the active thread's work item is now taken.
    assert_eq!(ts.ready.len(), 1);
    assert!(matches!(&ts.active[0], Some(TCB::Standard(i)) if i.work.is_none()));
}

#[test]
fn cooperative_round_robin_over_surrenders() {
    // Threads 1, 2 and 3 take turns on one core by surrendering; the
    // rotation visits each exactly once per round.
    let mut ts = init();
    let mut m = MachineState::new();
    swap_active(&mut ts, 0, Some(standard(1)));
    schedule(&mut ts, standard(2));
    schedule(&mut ts, standard(3));
    let active_work = |ts: &oslib::thread::ThreadState| match &ts.active[0] {
        Some(TCB::Standard(i)) => i.work.unwrap(),
        _ => panic!("no standard thread active"),
    };
    let mut seen = Vec::new();
    for _ in 0..3 {
        surrender(&mut ts, 0, &mut m);
        seen.push(active_work(&ts));
    }
    assert_eq!(seen, vec![2, 3, 1]);
}
