//! The simulated processor core.
//!
//! One value of [`MachineState`] stands for the register-level state of a
//! single core: the callee-saved general-purpose registers, the flags word,
//! the page-table base register, the FPU/SIMD register file (as one
//! fxsave-style image), the privilege-transition stack address consulted by
//! interrupt entry, and the interrupt mask.  The context-switch primitive
//! reads and writes this value in place of the hardware instructions.

use vstd::prelude::*;

verus! {

/// Number of bytes in an FPU/SIMD save image (one fxsave area).
pub const FX_AREA_SIZE: usize = 512;

/// Register-level state of one simulated core.
pub struct MachineState {
    pub rbx: usize,
    pub r12: usize,
    pub r13: usize,
    pub r14: usize,
    pub r15: usize,
    pub rbp: usize,
    pub rsp: usize,
    /// The flags word.
    pub rflags: usize,
    /// Page-table base register: the root of the current address space.
    pub cr3: usize,
    /// The FPU/SIMD register file, as one fxsave-style image.
    pub fpu: Vec<u8>,
    /// Stack address loaded on the next privilege-raising trap.
    pub privilege_stack: usize,
    /// Whether maskable interrupts are currently accepted.
    pub interrupts_enabled: bool,
}

/// The FPU/SIMD register file in its clean reset state, as established by
/// the FPU-initialisation instruction: in this model, an all-zero image.
pub open spec fn fpu_clean() -> Seq<u8> {
    Seq::new(FX_AREA_SIZE as nat, |i: int| 0u8)
}

/// Builds one clean FPU image.
pub fn fpu_init_image() -> (v: Vec<u8>)
    ensures
        v@ == fpu_clean(),
{
    let mut v: Vec<u8> = Vec::new();
    let mut i: usize = 0;
    while i < FX_AREA_SIZE
        invariant
            i <= FX_AREA_SIZE,
            v@.len() == i,
            forall|j: int| 0 <= j < i ==> v@[j] == 0u8,
        decreases FX_AREA_SIZE - i,
    {
        v.push(0u8);
        i = i + 1;
    }
    assert(v@ =~= fpu_clean());
    v
}

impl MachineState {
    /// The FPU image always has the fixed fxsave-area size.
    pub open spec fn wf(self) -> bool {
        self.fpu@.len() == FX_AREA_SIZE
    }

    /// A core at reset: registers zero, FPU clean, interrupts masked.
    pub fn new() -> (m: MachineState)
        ensures
            m.wf(),
            m.rbx == 0 && m.r12 == 0 && m.r13 == 0 && m.r14 == 0 && m.r15 == 0,
            m.rbp == 0 && m.rsp == 0 && m.rflags == 0 && m.cr3 == 0,
            m.fpu@ == fpu_clean(),
            m.privilege_stack == 0,
            !m.interrupts_enabled,
    {
        MachineState {
            rbx: 0,
            r12: 0,
            r13: 0,
            r14: 0,
            r15: 0,
            rbp: 0,
            rsp: 0,
            rflags: 0,
            cr3: 0,
            fpu: fpu_init_image(),
            privilege_stack: 0,
            interrupts_enabled: false,
        }
    }
}

/// Installs the stack address that hardware will load on the next
/// privilege-raising trap, so that a trap firing right after a switch
/// already uses the incoming task's kernel stack.
pub fn update_tss(m: &mut MachineState, rsp: usize)
    ensures
        *final(m) == (MachineState { privilege_stack: rsp, ..*old(m) }),
{
    m.privilege_stack = rsp;
}

/// Masks interrupts and reports whether they were accepted before, so the
/// caller can restore the previous state.
pub fn disable_interrupts(m: &mut MachineState) -> (was: bool)
    ensures
        was == old(m).interrupts_enabled,
        *final(m) == (MachineState { interrupts_enabled: false, ..*old(m) }),
{
    let was = m.interrupts_enabled;
    m.interrupts_enabled = false;
    was
}

/// Unmasks interrupts.
pub fn enable_interrupts(m: &mut MachineState)
    ensures
        *final(m) == (MachineState { interrupts_enabled: true, ..*old(m) }),
{
    m.interrupts_enabled = true;
}

/// Restores the interrupt mask to a state reported by [`disable_interrupts`].
pub fn restore_interrupts(m: &mut MachineState, was: bool)
    ensures
        *final(m) == (MachineState { interrupts_enabled: was, ..*old(m) }),
{
    m.interrupts_enabled = was;
}

} // verus!
