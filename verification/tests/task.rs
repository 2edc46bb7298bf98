use oslib::machine::MachineState;
use oslib::task::{
    get_procs, spawn_kernel_task, CPUContext, Proc, TaskManager, EAGAIN, KSTACK_SIZE, MAX_PROCS,
};

#[test]
fn identities_count_up_from_one() {
    let mut tm = TaskManager::new();
    assert_eq!(tm.new_proc().unwrap(), 1);
    assert_eq!(tm.new_proc().unwrap(), 2);
    assert_eq!(tm.new_proc().unwrap(), 3);
    assert_eq!(get_procs(&tm), 3);
}

#[test]
fn fresh_block_is_unstarted() {
    let p = Proc::from(9);
    assert_eq!(p.id, 9);
    assert!(!p.running);
    assert!(!p.cpu_context.loadable);
    assert!(p.kfx.is_none());
    assert!(p.kstack.is_none());
}

#[test]
fn remove_returns_the_block() {
    let mut tm = TaskManager::new();
    let id = tm.new_proc().unwrap();
    let p = tm.remove(id).unwrap();
    assert_eq!(p.id, id);
    assert!(tm.remove(id).is_none());
}

#[test]
fn every_key_matches_its_block_identity() {
    let mut tm = TaskManager::new();
    for _ in 0..5 {
        tm.new_proc().unwrap();
    }
    tm.remove(2);
    tm.new_proc().unwrap();
    for (k, p) in tm.procs.iter() {
        assert_eq!(*k, p.id);
    }
}

#[test]
fn exhaustion_and_reuse() {
    let mut tm = TaskManager::new();
    // Identities 1 through 255 fill the space.
    for want in 1..MAX_PROCS {
        assert_eq!(tm.new_proc().unwrap(), want);
    }
    // The next attempt wraps, probes the full space and fails.
    assert_eq!(tm.new_proc().unwrap_err(), EAGAIN);
    assert_eq!(EAGAIN, -2);
    // Removing one block frees exactly its identity, which the wrapped
    // cursor finds again.
    tm.remove(7).unwrap();
    assert_eq!(tm.new_proc().unwrap(), 7);
    // And the space is full once more.
    assert_eq!(tm.new_proc().unwrap_err(), EAGAIN);
}

#[test]
fn reuse_wraps_below_the_cursor() {
    let mut tm = TaskManager::new();
    for want in 1..MAX_PROCS {
        assert_eq!(tm.new_proc().unwrap(), want);
    }
    assert_eq!(tm.new_proc().unwrap_err(), EAGAIN);
    tm.remove(3).unwrap();
    assert_eq!(tm.new_proc().unwrap(), 3);
    // The cursor now stands at 4 and everything from there up is taken;
    // the probe wraps within one call and finds the identity freed below.
    tm.remove(2).unwrap();
    assert_eq!(tm.new_proc().unwrap(), 2);
}

#[test]
fn spawn_builds_an_enterable_task() {
    let mut tm = TaskManager::new();
    let mut m = MachineState::new();
    m.cr3 = 0x5000;
    let id = tm.spawn(0xBEEF, &m).unwrap();
    let p = tm.procs.get(&id).unwrap();
    assert_eq!(p.id, id);
    assert!(!p.running);
    assert!(!p.cpu_context.loadable);
    // The stack pointer starts at the top word, which holds the entry
    // address; the current page-table base is recorded.
    assert_eq!(p.cpu_context.rsp, KSTACK_SIZE - 8);
    assert_eq!(p.cpu_context.cr3, 0x5000);
    let stack = p.kstack.as_ref().unwrap();
    assert_eq!(stack.len(), 512);
    assert_eq!(stack[511], 0xBEEF);
    assert!(stack[..511].iter().all(|w| *w == 0));
    let fx = p.kfx.as_ref().unwrap();
    assert_eq!(fx.len(), 512);
    assert!(fx.iter().all(|b| *b == 0));
}

#[test]
fn spawn_kernel_task_inserts_one_block() {
    let mut tm = TaskManager::new();
    let m = MachineState::new();
    spawn_kernel_task(&mut tm, 0x100, &m);
    assert_eq!(get_procs(&tm), 1);
}

#[test]
fn switch_saves_and_loads_registers() {
    let mut a = CPUContext::new();
    let mut b = CPUContext::new();
    b.set_stack(0x2000);
    b.set_page_table(0x9000);
    let mut a_fx = oslib::machine::fpu_init_image();
    let b_fx = oslib::machine::fpu_init_image();
    let mut m = MachineState::new();
    m.rbx = 77;
    m.rsp = 0x1000;
    a.switch(&mut b, &mut a_fx, &b_fx, &mut m);
    // The outgoing context holds the machine's registers and is loadable.
    assert!(a.loadable);
    assert_eq!(a.rbx, 77);
    assert_eq!(a.rsp, 0x1000);
    // The machine adopted the incoming context, including its page table,
    // and the privilege-transition stack points at the incoming stack.
    assert_eq!(m.rbx, 0);
    assert_eq!(m.rsp, 0x2000);
    assert_eq!(m.cr3, 0x9000);
    assert_eq!(m.privilege_stack, 0x2000);
}

#[test]
fn switch_round_trip_restores_sentinels() {
    let mut tm = TaskManager::new();
    let mut m = MachineState::new();
    let ida = tm.spawn(0x1111, &m).unwrap();
    let idb = tm.spawn(0x2222, &m).unwrap();
    let mut a = tm.remove(ida).unwrap();
    let mut b = tm.remove(idb).unwrap();

    m.rbx = 0xDEADBEEF;
    m.r15 = 0x1234;
    m.fpu[0] = 0xAA;

    // Hand the machine from a to b: a saves the sentinels.
    a.switch_to(&mut b, &mut m);
    assert!(!a.running);
    assert!(b.running);
    assert_eq!(a.cpu_context.rbx, 0xDEADBEEF);
    assert_eq!(a.kfx.as_ref().unwrap()[0], 0xAA);
    assert_eq!(m.rbx, 0);
    assert_eq!(m.rsp, KSTACK_SIZE - 8);
    assert_eq!(m.privilege_stack, KSTACK_SIZE - 8);

    // Hand it back: the sentinels return, including the FPU image.
    b.switch_to(&mut a, &mut m);
    assert!(!b.running);
    assert!(a.running);
    assert_eq!(m.rbx, 0xDEADBEEF);
    assert_eq!(m.r15, 0x1234);
    assert_eq!(m.fpu[0], 0xAA);
    // The privilege stack follows the resumed context's saved stack top.
    assert_eq!(m.privilege_stack, 0);
}

#[test]
fn first_entry_sees_clean_fpu() {
    let mut tm = TaskManager::new();
    let mut m = MachineState::new();
    let ida = tm.spawn(0x1111, &m).unwrap();
    let idb = tm.spawn(0x2222, &m).unwrap();
    let mut a = tm.remove(ida).unwrap();
    let mut b = tm.remove(idb).unwrap();

    // A prior task leaves state in the FPU; the freshly spawned b has
    // never run, so its first entry gets the clean reset state instead.
    m.fpu[7] = 0x55;
    a.switch_to(&mut b, &mut m);
    assert!(m.fpu.iter().all(|x| *x == 0));
}

#[test]
fn page_table_reload_is_conditional() {
    let mut a = CPUContext::new();
    let mut b = CPUContext::new();
    a.set_page_table(0x3000);
    b.set_page_table(0x3000);
    let mut a_fx = oslib::machine::fpu_init_image();
    let b_fx = oslib::machine::fpu_init_image();
    let mut m = MachineState::new();
    m.cr3 = 0x3000;
    // Same address space: no reload.
    a.switch(&mut b, &mut a_fx, &b_fx, &mut m);
    assert_eq!(m.cr3, 0x3000);
    // Different address space: the base is reloaded.
    let mut c = CPUContext::new();
    c.set_page_table(0x7000);
    let c_fx = oslib::machine::fpu_init_image();
    b.switch(&mut c, &mut a_fx, &c_fx, &mut m);
    assert_eq!(m.cr3, 0x7000);
}

#[test]
fn round_robin_scans_upward_and_wraps() {
    let mut tm = TaskManager::new();
    for _ in 0..5 {
        tm.new_proc().unwrap();
    }
    // Nothing is running: the scan finds the next identity upward.
    assert_eq!(tm.schedule(1), 2);
    assert_eq!(tm.schedule(3), 4);
    // Reaching the top of the space wraps to the smallest runnable.
    assert_eq!(tm.schedule(5), 1);
}

#[test]
fn round_robin_skips_running_tasks() {
    let mut tm = TaskManager::new();
    for _ in 0..4 {
        tm.new_proc().unwrap();
    }
    let mut p3 = tm.remove(3).unwrap();
    p3.running = true;
    tm.procs.insert(3, p3);
    assert_eq!(tm.schedule(2), 4);
    assert_eq!(tm.get_runnable(), vec![1, 2, 4]);
}

#[test]
fn round_robin_visits_each_task_once() {
    // Three live tasks; the one selected becomes running and the previous
    // one runnable again.  Three consecutive decisions visit every task
    // exactly once before the rotation repeats.
    let mut tm = TaskManager::new();
    for _ in 0..3 {
        tm.new_proc().unwrap();
    }
    let mark = |tm: &mut TaskManager, id: usize, run: bool| {
        let mut p = tm.remove(id).unwrap();
        p.running = run;
        tm.procs.insert(id, p);
    };
    mark(&mut tm, 1, true);
    let mut current = 1;
    let mut visited = Vec::new();
    for _ in 0..3 {
        let next = tm.schedule(current);
        mark(&mut tm, current, false);
        mark(&mut tm, next, true);
        visited.push(next);
        current = next;
    }
    visited.sort();
    assert_eq!(visited, vec![1, 2, 3]);
}
