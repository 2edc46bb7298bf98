use oslib::context::{context_switch, Stack, StackInfo, FIRST_ENTRY_ADDR};
use oslib::machine::MachineState;

#[test]
fn fresh_stack_has_entry() {
    let s = Stack::new();
    assert!(s.has_entry());
}

#[test]
fn fresh_stack_info_offset() {
    // The initial stack pointer leaves room for 7 saved registers and a
    // 4-word interrupt frame below word 510: 499 words, 3992 bytes.
    let mut s = Stack::new();
    let info = s.get_info();
    assert_eq!(info.rsp(), 499 * 8);
}

#[test]
fn entry_can_be_cleared_and_set() {
    let mut s = Stack::new();
    s.entry_at(0);
    assert!(!s.has_entry());
    s.entry_at(0x1234);
    assert!(s.has_entry());
}

#[test]
fn new_with_start_sets_entry() {
    let s = Stack::new_with_start(0x4242);
    assert!(s.has_entry());
}

#[test]
fn set_first_rip_overwrites_trampoline() {
    let mut s = Stack::new();
    s.set_first_rip(0);
    assert!(!s.has_entry());
}

#[test]
fn push_pop_round_trip() {
    let mut s = Stack::new();
    s.push(42);
    assert_eq!(s.pop(), 42);
}

#[test]
fn push_pop_is_lifo() {
    let mut s = Stack::new();
    s.push(1);
    s.push(2);
    s.push(3);
    assert_eq!(s.pop(), 3);
    assert_eq!(s.pop(), 2);
    assert_eq!(s.pop(), 1);
}

#[test]
fn push_moves_info_down() {
    let mut s = Stack::new();
    let before = s.get_info().rsp();
    s.push(7);
    let after = s.get_info().rsp();
    assert_eq!(after + 8, before);
}

#[test]
fn first_entry_marker_is_nonzero() {
    assert_ne!(FIRST_ENTRY_ADDR, 0);
}

#[test]
fn bootstrap_switch_moves_machine() {
    let mut m = MachineState::new();
    m.rsp = 64;
    let mut from = StackInfo::new(0);
    let mut to = StackInfo::new(104);
    context_switch(&mut from, &mut to, &mut m);
    // The machine adopts the incoming stack and the privilege stack is
    // pointed at it; the outgoing info records where the machine stood.
    assert_eq!(m.rsp, 104);
    assert_eq!(m.privilege_stack, 104);
    assert_eq!(from.rsp(), 64);
    assert_eq!(to.rsp(), 104);
}
