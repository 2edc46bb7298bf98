use oslib::machine::MachineState;
use oslib::proc::{
    make_active, my_pid, ready, schedule, schedule_and_then_switch, switch_to, Priority, Process,
    Scheduler,
};

#[test]
fn pids_count_up_from_one() {
    let mut s = Scheduler::new();
    let p1 = Process::new(&mut s);
    let p2 = Process::new(&mut s);
    assert_eq!(p1.get_pid(), 1);
    assert_eq!(p2.get_pid(), 2);
}

#[test]
fn my_pid_is_zero_without_active_process() {
    let s = Scheduler::new();
    assert_eq!(my_pid(&s), 0);
}

#[test]
fn my_pid_reads_the_active_process() {
    let mut s = Scheduler::new();
    let p = Process::new(&mut s);
    let pid = p.get_pid();
    make_active(&mut s, p);
    assert_eq!(my_pid(&s), pid);
}

#[test]
fn low_priority_queue_is_fifo() {
    let mut s = Scheduler::new();
    let p1 = Process::new(&mut s);
    let p2 = Process::new(&mut s);
    let first = p1.get_pid();
    ready(&mut s, p1);
    ready(&mut s, p2);
    assert_eq!(schedule(&mut s).get_pid(), first);
}

#[test]
fn high_priority_enqueued_later_is_selected_first() {
    let mut s = Scheduler::new();
    let lo = Process::new(&mut s);
    let mut hi = Process::new(&mut s);
    hi.set_priority(Priority::High);
    let hi_pid = hi.get_pid();
    // The low-priority process was ready first, yet the high-priority one
    // stands in front at the next scheduling decision.
    ready(&mut s, lo);
    ready(&mut s, hi);
    assert_eq!(schedule(&mut s).get_pid(), hi_pid);
}

#[test]
fn spawned_task_has_entry() {
    let mut s = Scheduler::new();
    let p = Process::spawn_kernel_task(&mut s, 0xABCD);
    assert_eq!(p.get_pid(), 1);
    assert!(p.has_entry());
}

#[test]
fn cleared_entry_is_detected() {
    let mut s = Scheduler::new();
    let mut p = Process::new(&mut s);
    assert!(p.has_entry());
    p.set_entry(0);
    assert!(!p.has_entry());
}

#[test]
fn switch_to_requeues_the_outgoing_process() {
    let mut s = Scheduler::new();
    let mut m = MachineState::new();
    let p0 = Process::new(&mut s);
    let p1 = Process::new(&mut s);
    let pid0 = p0.get_pid();
    let pid1 = p1.get_pid();
    make_active(&mut s, p0);
    switch_to(&mut s, p1, &mut m);
    assert_eq!(my_pid(&s), pid1);
    assert_eq!(s.ready.len(), 1);
    assert_eq!(s.ready.front().unwrap().get_pid(), pid0);
    // The machine stands on the incoming stack, privilege stack included.
    assert_eq!(m.rsp, 499 * 8);
    assert_eq!(m.privilege_stack, 499 * 8);
}

#[test]
fn schedule_and_switch_rotates() {
    let mut s = Scheduler::new();
    let mut m = MachineState::new();
    let p0 = Process::new(&mut s);
    let p1 = Process::new(&mut s);
    let p2 = Process::new(&mut s);
    let pid0 = p0.get_pid();
    let pid1 = p1.get_pid();
    let pid2 = p2.get_pid();
    make_active(&mut s, p0);
    ready(&mut s, p1);
    ready(&mut s, p2);
    schedule_and_then_switch(&mut s, &mut m);
    assert_eq!(my_pid(&s), pid1);
    schedule_and_then_switch(&mut s, &mut m);
    assert_eq!(my_pid(&s), pid2);
    schedule_and_then_switch(&mut s, &mut m);
    assert_eq!(my_pid(&s), pid0);
}
