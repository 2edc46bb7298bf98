//! Bootstrap execution contexts: a fixed-size stack buffer together with the
//! saved stack pointer that lets the context be suspended and resumed.
//!
//! A fresh stack is laid out so that the first switch into it finds a
//! synthesized interrupt-return frame and a trampoline return address at a
//! fixed slot near the top; the stack pointer starts low enough to leave room
//! for the register image the switch primitive writes on the first save.
//!
//! Addresses recorded here are byte offsets from the base of the owning
//! stack buffer; in the running kernel they would be full machine addresses.

use vstd::prelude::*;

use crate::machine::MachineState;
use crate::machine::update_tss;

verus! {

/// Number of general-purpose registers the switch primitive saves on the
/// outgoing stack; used to place the initial stack pointer.
pub const REGS_TO_SAVE: usize = 7;

/// Number of words in the synthesized interrupt-return frame at the top of a
/// fresh stack.
pub const IFRAME_SIZE: usize = 4;

/// Number of 64-bit words in a bootstrap stack buffer.
pub const STACK_WORDS: usize = 512;

/// Word index of the trampoline slot: the address written here is where the
/// first entry into the context resumes.
pub const ENTRY_SLOT: usize = 510 - IFRAME_SIZE;

/// Stands for the address of the first-entry trampoline routine; the model
/// needs only a fixed nonzero value.
pub const FIRST_ENTRY_ADDR: u64 = 0x1000;

/// The saved stack pointer of a suspended context, as handed to the switch
/// primitive.
#[derive(Clone, Debug)]
pub struct StackInfo {
    stack_ptr: usize,
}

impl StackInfo {
    /// Which stack-pointer value this info records.
    pub closed spec fn ptr(self) -> usize {
        self.stack_ptr
    }

    pub fn new(stack_ptr: usize) -> (r: StackInfo)
        ensures
            r.ptr() == stack_ptr,
    {
        StackInfo { stack_ptr }
    }

    pub fn rsp(&self) -> (r: usize)
        ensures
            r == self.ptr(),
    {
        self.stack_ptr
    }
}

/// The contents of a fresh bootstrap stack: all words zero except the
/// trampoline slot, which holds `entry`.
pub open spec fn fresh_stack_words(entry: u64) -> Seq<u64> {
    Seq::new(STACK_WORDS as nat, |i: int| if i == ENTRY_SLOT { entry } else { 0u64 })
}

/// A bootstrap execution context: a dedicated stack buffer plus the word
/// index where its saved stack pointer currently stands.
#[derive(Clone, Debug)]
pub struct Stack {
    stack: Vec<u64>,
    rsp: usize,
}

impl Stack {
    /// The words of the stack buffer, bottom to top.
    pub closed spec fn words(self) -> Seq<u64> {
        self.stack@
    }

    /// The current stack-pointer word index.
    pub closed spec fn sp(self) -> usize {
        self.rsp
    }

    /// The buffer has its fixed size and the stack pointer lies within it.
    pub closed spec fn wf(self) -> bool {
        &&& self.stack@.len() == STACK_WORDS
        &&& self.rsp <= STACK_WORDS
    }

    /// A fresh context: zeroed stack, the trampoline slot pointing at the
    /// first-entry routine, and the stack pointer leaving room for the saved
    /// registers and the synthesized interrupt-return frame.
    pub fn new() -> (s: Stack)
        ensures
            s.wf(),
            s.words() == fresh_stack_words(FIRST_ENTRY_ADDR),
            s.sp() == 510 - REGS_TO_SAVE - IFRAME_SIZE,
    {
        let mut stack: Vec<u64> = Vec::new();
        let mut i: usize = 0;
        while i < STACK_WORDS
            invariant
                i <= STACK_WORDS,
                stack@.len() == i,
                forall|j: int| 0 <= j < i ==> stack@[j] == 0u64,
            decreases STACK_WORDS - i,
        {
            stack.push(0u64);
            i = i + 1;
        }
        let mut s = Stack { stack, rsp: 510 - REGS_TO_SAVE - IFRAME_SIZE };
        s.entry_at(FIRST_ENTRY_ADDR as usize);
        assert(s.words() =~= fresh_stack_words(FIRST_ENTRY_ADDR));
        s
    }

    /// A fresh context that will resume at `addr` on first entry.
    pub fn new_with_start(addr: usize) -> (s: Stack)
        ensures
            s.wf(),
            s.words() == fresh_stack_words(FIRST_ENTRY_ADDR).update(ENTRY_SLOT as int, addr as u64),
            s.sp() == 510 - REGS_TO_SAVE - IFRAME_SIZE,
    {
        let mut s = Self::new();
        s.set_first_rip(addr);
        s
    }

    /// The saved stack pointer of this context, as a byte offset from the
    /// base of its buffer.
    pub fn get_info(&mut self) -> (r: StackInfo)
        requires
            old(self).wf(),
        ensures
            *final(self) == *old(self),
            r.ptr() == old(self).sp() * 8,
    {
        let offset = self.rsp * 8;
        StackInfo::new(offset)
    }

    /// Writes the address the first entry into this context will resume at.
    pub fn entry_at(&mut self, addr: usize)
        requires
            old(self).wf(),
        ensures
            final(self).wf(),
            final(self).words() == old(self).words().update(ENTRY_SLOT as int, addr as u64),
            final(self).sp() == old(self).sp(),
    {
        self.stack[ENTRY_SLOT] = addr as u64;
    }

    /// Whether the trampoline slot holds an entry address; switching into a
    /// context without one is a fatal caller error.
    pub fn has_entry(&self) -> (r: bool)
        requires
            self.wf(),
        ensures
            r == (self.words()[ENTRY_SLOT as int] != 0),
    {
        self.stack[ENTRY_SLOT] != 0
    }

    /// Pushes one word, moving the stack pointer down; used only during
    /// construction and testing, never during a live switch.
    pub fn push(&mut self, value: u64)
        requires
            old(self).wf(),
            old(self).sp() >= 1,
        ensures
            final(self).wf(),
            final(self).sp() == old(self).sp() - 1,
            final(self).words() == old(self).words().update(old(self).sp() - 1, value),
    {
        self.rsp = self.rsp - 1;
        self.stack[self.rsp] = value;
    }

    /// Pops the word at the stack pointer, moving the pointer up.
    pub fn pop(&mut self) -> (r: u64)
        requires
            old(self).wf(),
            old(self).sp() < STACK_WORDS,
        ensures
            final(self).wf(),
            final(self).sp() == old(self).sp() + 1,
            final(self).words() == old(self).words(),
            r == old(self).words()[old(self).sp() as int],
    {
        let result = self.stack[self.rsp];
        self.rsp = self.rsp + 1;
        result
    }

    /// This stack with its saved stack-pointer index replaced: what the
    /// switch primitive leaves behind in the outgoing context.
    pub closed spec fn with_sp(self, sp: usize) -> Stack {
        Stack { rsp: sp, ..self }
    }

    /// Installs a saved stack pointer, as the switch primitive records it
    /// when the context is suspended: `info` carries the machine's stack
    /// pointer, a word-aligned byte offset within this buffer.
    pub fn save_sp(&mut self, info: StackInfo)
        requires
            old(self).wf(),
            info.ptr() % 8 == 0,
            info.ptr() <= 8 * STACK_WORDS,
        ensures
            *final(self) == old(self).with_sp(info.ptr() / 8),
            final(self).wf(),
    {
        self.rsp = info.rsp() / 8;
    }

    /// Same slot as [`Stack::entry_at`]: writes the instruction address the
    /// synthesized frame returns to on first entry.
    pub fn set_first_rip(&mut self, addr: usize)
        requires
            old(self).wf(),
        ensures
            final(self).wf(),
            final(self).words() == old(self).words().update(ENTRY_SLOT as int, addr as u64),
            final(self).sp() == old(self).sp(),
    {
        self.stack[ENTRY_SLOT] = addr as u64;
    }
}

/// What [`Stack::with_sp`] does to the accessors: only the saved
/// stack-pointer index changes.
pub broadcast proof fn lemma_with_sp(s: Stack, sp: usize)
    ensures
        (#[trigger] s.with_sp(sp)).sp() == sp,
        s.with_sp(sp).words() == s.words(),
        s.wf() && sp <= STACK_WORDS ==> s.with_sp(sp).wf(),
{
}

/// The bootstrap context-switch primitive.  Installs the incoming context's
/// stack pointer as the privilege-transition stack, records the machine's
/// stack pointer in the outgoing context, and moves the machine onto the
/// incoming stack.  The register image that the hardware switch writes below
/// the outgoing stack pointer is not modelled at this level; the general
/// primitive is [`crate::task::CPUContext::switch`].
pub fn context_switch(from: &mut StackInfo, to: &mut StackInfo, m: &mut MachineState)
    ensures
        final(from).ptr() == old(m).rsp,
        *final(to) == *old(to),
        *final(m) == (MachineState {
            privilege_stack: old(to).ptr(),
            rsp: old(to).ptr(),
            ..*old(m)
        }),
{
    update_tss(m, to.rsp());
    from.stack_ptr = m.rsp;
    m.rsp = to.stack_ptr;
}

} // verus!
