use oslib::machine::{
    disable_interrupts, enable_interrupts, fpu_init_image, restore_interrupts, update_tss,
    MachineState, FX_AREA_SIZE,
};

#[test]
fn reset_machine_is_clean() {
    let m = MachineState::new();
    assert_eq!(m.rbx, 0);
    assert_eq!(m.rsp, 0);
    assert_eq!(m.cr3, 0);
    assert_eq!(m.fpu.len(), FX_AREA_SIZE);
    assert!(m.fpu.iter().all(|b| *b == 0));
    assert!(!m.interrupts_enabled);
}

#[test]
fn fpu_image_is_zeroed() {
    let v = fpu_init_image();
    assert_eq!(v.len(), 512);
    assert!(v.iter().all(|b| *b == 0));
}

#[test]
fn update_tss_sets_privilege_stack() {
    let mut m = MachineState::new();
    update_tss(&mut m, 0xFA8);
    assert_eq!(m.privilege_stack, 0xFA8);
    assert_eq!(m.rsp, 0);
}

#[test]
fn interrupt_mask_round_trip() {
    let mut m = MachineState::new();
    enable_interrupts(&mut m);
    assert!(m.interrupts_enabled);
    let was = disable_interrupts(&mut m);
    assert!(was);
    assert!(!m.interrupts_enabled);
    restore_interrupts(&mut m, was);
    assert!(m.interrupts_enabled);
}
