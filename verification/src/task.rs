//! The task registry and the general context-switch primitive.
//!
//! A [`Proc`] is the per-task control block: an identity, a `running` flag,
//! the saved CPU state, and exclusive ownership of the task's kernel stack
//! and FPU save area.  The [`TaskManager`] maps identities to live control
//! blocks and allocates fresh identities with wraparound and linear probing.
//! [`CPUContext::switch`] transfers the simulated machine from one saved
//! context to another, with lazy FPU initialisation and a conditional
//! page-table reload.

use vstd::prelude::*;

use std::collections::BTreeMap;

use crate::machine::FX_AREA_SIZE;
use crate::machine::MachineState;
use crate::machine::disable_interrupts;
use crate::machine::update_tss;
use crate::machine::fpu_clean;
use crate::machine::fpu_init_image;

verus! {

broadcast use vstd::std_specs::btree::group_btree_axioms, vstd::laws_cmp::group_laws_cmp;

/// Upper bound (exclusive) of the identity space: allocation fails once
/// every identity below it is live.
pub const MAX_PROCS: usize = 256;

/// Error code returned when the identity space is exhausted: the caller may
/// retry after a task exits.
pub const EAGAIN: i32 = -2;

/// Number of bytes in a task's kernel stack.
pub const KSTACK_SIZE: usize = 4096;

/// Number of 64-bit words in a task's kernel stack.
pub const KSTACK_WORDS: usize = 512;

/// The saved register-level state of a suspended task.
///
/// `fx` and `rsp` record where the FPU save area and the stack pointer of
/// this context stand, as byte offsets from the base of the owning buffers;
/// in the running kernel they would be full machine addresses.
#[derive(Clone, Debug)]
pub struct CPUContext {
    /// Whether this context has run at least once, so that its FPU save
    /// area holds valid state to restore; a first entry must initialise the
    /// FPU instead.
    pub loadable: bool,
    /// Where the owning block's FPU/SIMD save area stands.
    pub fx: usize,
    /// Page-table base recorded for the owning block.
    pub cr3: usize,
    /// Saved flags word.
    pub rflags: usize,
    pub rbx: usize,
    pub r12: usize,
    pub r13: usize,
    pub r14: usize,
    pub r15: usize,
    pub rbp: usize,
    /// Saved stack pointer.
    pub rsp: usize,
}

/// Copies one FPU save image.
fn copy_fx(src: &Vec<u8>) -> (r: Vec<u8>)
    ensures
        r@ == src@,
{
    let mut r: Vec<u8> = Vec::new();
    let mut i: usize = 0;
    while i < src.len()
        invariant
            i <= src@.len(),
            r@.len() == i,
            forall|j: int| 0 <= j < i ==> r@[j] == src@[j],
        decreases src@.len() - i,
    {
        r.push(src[i]);
        i = i + 1;
    }
    assert(r@ =~= src@);
    r
}

/// How one call of [`CPUContext::switch`] relates the outgoing context
/// `a0` (with FPU area `afx0`), the incoming context `b` (with FPU area
/// `bfx`) and the machine `m0` before the call to the outgoing context
/// `a1`, its FPU area `afx1` and the machine `m1` after it.
pub open spec fn switch_rel(
    a0: CPUContext,
    afx0: Seq<u8>,
    b: CPUContext,
    bfx: Seq<u8>,
    m0: MachineState,
    a1: CPUContext,
    afx1: Seq<u8>,
    m1: MachineState,
) -> bool {
    // The outgoing context receives the machine's register state and is
    // marked as holding valid FPU state from now on.
    &&& a1 == (CPUContext {
        loadable: true,
        rflags: m0.rflags,
        rbx: m0.rbx,
        r12: m0.r12,
        r13: m0.r13,
        r14: m0.r14,
        r15: m0.r15,
        rbp: m0.rbp,
        rsp: m0.rsp,
        ..a0
    })
    &&& afx1 == m0.fpu@
    // The machine adopts the incoming context's saved registers.
    &&& m1.rflags == b.rflags
    &&& m1.rbx == b.rbx
    &&& m1.r12 == b.r12
    &&& m1.r13 == b.r13
    &&& m1.r14 == b.r14
    &&& m1.r15 == b.r15
    &&& m1.rbp == b.rbp
    &&& m1.rsp == b.rsp
    // Lazy FPU initialisation: restore the saved image only when the
    // incoming context has run before, otherwise reset to the clean state.
    &&& m1.fpu@ == (if b.loadable {
        bfx
    } else {
        fpu_clean()
    })
    // The page-table base is reloaded only when the address space changes.
    &&& m1.cr3 == (if b.cr3 != a0.cr3 {
        b.cr3
    } else {
        m0.cr3
    })
    // The privilege-transition stack follows the incoming block's kernel
    // stack top, so a trap firing right after the switch already lands on
    // the correct stack.
    &&& m1.privilege_stack == b.rsp
    &&& m1.interrupts_enabled == m0.interrupts_enabled
}

/// The zeroed, never-run context a fresh control block starts with.
pub open spec fn cpu_context_zeroed() -> CPUContext {
    CPUContext {
        loadable: false,
        fx: 0,
        cr3: 0,
        rflags: 0,
        rbx: 0,
        r12: 0,
        r13: 0,
        r14: 0,
        r15: 0,
        rbp: 0,
        rsp: 0,
    }
}

impl CPUContext {
    /// A zeroed context that has never run.
    pub fn new() -> (c: CPUContext)
        ensures
            c == cpu_context_zeroed(),
    {
        CPUContext {
            loadable: false,
            fx: 0,
            cr3: 0,
            rflags: 0,
            rbx: 0,
            r12: 0,
            r13: 0,
            r14: 0,
            r15: 0,
            rbp: 0,
            rsp: 0,
        }
    }

    pub fn get_page_table(&mut self) -> (r: usize)
        ensures
            *final(self) == *old(self),
            r == old(self).cr3,
    {
        self.cr3
    }

    pub fn set_page_table(&mut self, address: usize)
        ensures
            *final(self) == (CPUContext { cr3: address, ..*old(self) }),
    {
        self.cr3 = address;
    }

    pub fn set_stack(&mut self, address: usize)
        ensures
            *final(self) == (CPUContext { rsp: address, ..*old(self) }),
    {
        self.rsp = address;
    }

    pub fn set_fx(&mut self, address: usize)
        ensures
            *final(self) == (CPUContext { fx: address, ..*old(self) }),
    {
        self.fx = address;
    }

    /// The context-switch primitive: points the privilege-transition
    /// stack at `next`'s kernel stack (so a trap arriving right after the
    /// switch lands on the correct stack), saves the machine's register
    /// state and FPU image into this context and its save area `self_fx`,
    /// then loads `next`'s saved registers, restoring `next`'s FPU image
    /// only if it is marked loadable (clean initialisation otherwise) and
    /// reloading the page-table base only when the two contexts name
    /// different address spaces.
    pub fn switch(
        &mut self,
        next: &mut CPUContext,
        self_fx: &mut Vec<u8>,
        next_fx: &Vec<u8>,
        m: &mut MachineState,
    )
        requires
            old(m).wf(),
            next_fx@.len() == FX_AREA_SIZE,
        ensures
            switch_rel(
                *old(self),
                old(self_fx)@,
                *old(next),
                next_fx@,
                *old(m),
                *final(self),
                final(self_fx)@,
                *final(m),
            ),
            *final(next) == *old(next),
            final(m).wf(),
    {
        // Point the privilege-transition stack at the incoming context
        // before anything else: a trap arriving the instant the switch
        // completes must already find the incoming kernel stack.
        update_tss(m, next.rsp);

        // Save the FPU register file into the outgoing save area, and mark
        // the outgoing context as restorable from now on.
        *self_fx = copy_fx(&m.fpu);
        self.loadable = true;

        // Restore the incoming FPU state, or reset to the clean state on a
        // first entry.
        if next.loadable {
            m.fpu = copy_fx(next_fx);
        } else {
            m.fpu = fpu_init_image();
        }

        // Reload the page-table base only when the address space changes.
        if next.cr3 != self.cr3 {
            m.cr3 = next.cr3;
        }

        // Save then load the flags word and the callee-saved registers.
        self.rflags = m.rflags;
        m.rflags = next.rflags;

        self.rbx = m.rbx;
        m.rbx = next.rbx;

        self.r12 = m.r12;
        m.r12 = next.r12;

        self.r13 = m.r13;
        m.r13 = next.r13;

        self.r14 = m.r14;
        m.r14 = next.r14;

        self.r15 = m.r15;
        m.r15 = next.r15;

        self.rsp = m.rsp;
        m.rsp = next.rsp;

        self.rbp = m.rbp;
        m.rbp = next.rbp;
    }
}

/// The per-task control block.
pub struct Proc {
    /// Identity: unique among live control blocks.
    pub id: usize,
    /// True while the block occupies an active slot.
    pub running: bool,
    /// Saved CPU state.
    pub cpu_context: CPUContext,
    /// FPU/SIMD save area; allocated when the task is spawned.
    pub kfx: Option<Vec<u8>>,
    /// Kernel stack, as 64-bit words; allocated when the task is spawned.
    pub kstack: Option<Vec<u64>>,
}

impl Proc {
    /// The buffers, where present, have their fixed sizes.
    pub open spec fn wf(self) -> bool {
        &&& (self.kfx matches Some(fx) ==> fx@.len() == FX_AREA_SIZE)
        &&& (self.kstack matches Some(st) ==> st@.len() == KSTACK_WORDS)
    }

    /// Whether the task's stack and FPU buffers have been allocated, so the
    /// switch primitive may be pointed at it.
    pub open spec fn spawned(self) -> bool {
        self.kfx is Some && self.kstack is Some
    }

    /// An unstarted control block: not running, zeroed context, no buffers.
    pub fn from(id: usize) -> (p: Proc)
        ensures
            p.id == id,
            !p.running,
            p.cpu_context == cpu_context_zeroed(),
            p.kfx is None,
            p.kstack is None,
            p.wf(),
            !p.spawned(),
    {
        Proc { id, running: false, cpu_context: CPUContext::new(), kfx: None, kstack: None }
    }

    /// Transfers the simulated machine from `self` to `other`: masks
    /// interrupts, then runs the context-switch primitive over the two
    /// saved contexts and FPU areas, and moves the `running` flag from the
    /// outgoing task to the incoming one.
    pub fn switch_to(&mut self, other: &mut Proc, m: &mut MachineState)
        requires
            old(m).wf(),
            old(self).wf(),
            old(other).wf(),
            old(self).spawned(),
            old(other).spawned(),
        ensures
            final(self).wf(),
            final(other).wf(),
            final(self).spawned(),
            final(other).spawned(),
            switch_rel(
                old(self).cpu_context,
                old(self).kfx->0@,
                old(other).cpu_context,
                old(other).kfx->0@,
                (MachineState { interrupts_enabled: false, ..*old(m) }),
                final(self).cpu_context,
                final(self).kfx->0@,
                *final(m),
            ),
            final(m).privilege_stack == old(other).cpu_context.rsp,
            !final(self).running,
            final(other).running,
            final(self).id == old(self).id,
            final(other).id == old(other).id,
            final(self).kstack == old(self).kstack,
            final(other).cpu_context == old(other).cpu_context,
            final(other).kfx == old(other).kfx,
            final(other).kstack == old(other).kstack,
            final(m).wf(),
    {
        disable_interrupts(m);
        let mut my_fx = self.kfx.take().unwrap();
        let other_fx = other.kfx.take().unwrap();
        self.cpu_context.switch(&mut other.cpu_context, &mut my_fx, &other_fx, m);
        self.kfx = Some(my_fx);
        other.kfx = Some(other_fx);
        self.running = false;
        other.running = true;
    }
}

/// The control block [`TaskManager::new_proc`] inserts: unstarted, with a
/// zeroed context and no buffers.
pub open spec fn unstarted_proc(id: usize) -> Proc {
    Proc { id, running: false, cpu_context: cpu_context_zeroed(), kfx: None, kstack: None }
}

/// The saved context of a freshly spawned task: never run, FPU area at its
/// base, stack pointer at the top word of the kernel stack, and the current
/// page-table base recorded.
pub open spec fn spawned_context(cr3: usize) -> CPUContext {
    CPUContext {
        loadable: false,
        fx: 0,
        cr3,
        rflags: 0,
        rbx: 0,
        r12: 0,
        r13: 0,
        r14: 0,
        r15: 0,
        rbp: 0,
        rsp: (KSTACK_SIZE - 8) as usize,
    }
}

/// The kernel stack of a freshly spawned task: zeroed, with the entry
/// address in the top word.
pub open spec fn fresh_kstack(func: usize) -> Seq<u64> {
    Seq::new(
        KSTACK_WORDS as nat,
        |i: int| if i == KSTACK_WORDS - 1 { func as u64 } else { 0u64 },
    )
}

/// What a control block looks like right after [`TaskManager::spawn`] made
/// it around the entry function at `func` under the page-table base `cr3`.
pub open spec fn is_spawned_proc(p: Proc, id: usize, func: usize, cr3: usize) -> bool {
    &&& p.id == id
    &&& !p.running
    &&& p.cpu_context == spawned_context(cr3)
    &&& p.kfx matches Some(fx) && fx@ == fpu_clean()
    &&& p.kstack matches Some(st) && st@ == fresh_kstack(func)
}

/// Whether `i` names a registry entry that is not currently running.
pub open spec fn is_runnable(t: Map<usize, Proc>, i: usize) -> bool {
    t.dom().contains(i) && !t[i].running
}

/// The runnable identities below `n`, in ascending order.
pub open spec fn runnable_ids_below(t: Map<usize, Proc>, n: int) -> Seq<usize>
    decreases n,
{
    if n <= 0 {
        Seq::empty()
    } else if is_runnable(t, (n - 1) as usize) {
        runnable_ids_below(t, n - 1).push((n - 1) as usize)
    } else {
        runnable_ids_below(t, n - 1)
    }
}

/// All runnable identities of the registry, in ascending order.
pub open spec fn runnable_seq(t: Map<usize, Proc>) -> Seq<usize> {
    runnable_ids_below(t, MAX_PROCS as int)
}

/// The smallest element of `s` that is greater than `current`, for an
/// ascending `s`: the first such element found from the front.
pub open spec fn first_above(s: Seq<usize>, current: usize) -> Option<usize>
    decreases s.len(),
{
    if s.len() == 0 {
        None
    } else if s[0] > current {
        Some(s[0])
    } else {
        first_above(s.subrange(1, s.len() as int), current)
    }
}

/// Round-robin selection over the ascending runnable sequence `s`: the
/// first identity above `current`, wrapping to the front of `s`.
pub open spec fn select_next(s: Seq<usize>, current: usize) -> usize {
    match first_above(s, current) {
        Some(i) => i,
        None => s[0],
    }
}

/// The identity the round-robin policy selects from registry `t` when the
/// outgoing task is `current`.
pub open spec fn rr_next(t: Map<usize, Proc>, current: usize) -> usize {
    select_next(runnable_seq(t), current)
}

/// The runnable identities below `n` are exactly the runnable identities
/// of the registry in that range, listed in strictly ascending order.
pub proof fn lemma_runnable_ids_below(t: Map<usize, Proc>, n: int)
    requires
        0 <= n <= MAX_PROCS,
    ensures
        forall|idx: int|
            0 <= idx < runnable_ids_below(t, n).len() ==> is_runnable(
                t,
                #[trigger] runnable_ids_below(t, n)[idx],
            ) && runnable_ids_below(t, n)[idx] < n,
        forall|i: usize| i < n && is_runnable(t, i) ==> runnable_ids_below(t, n).contains(i),
        forall|i1: int, i2: int|
            0 <= i1 < i2 < runnable_ids_below(t, n).len() ==> #[trigger] runnable_ids_below(
                t,
                n,
            )[i1] < #[trigger] runnable_ids_below(t, n)[i2],
    decreases n,
{
    if n > 0 {
        lemma_runnable_ids_below(t, n - 1);
        let prev = runnable_ids_below(t, n - 1);
        let cur = runnable_ids_below(t, n);
        assert forall|i: usize| i < n && is_runnable(t, i) implies cur.contains(i) by {
            if i < n - 1 {
                assert(prev.contains(i));
                let idx = choose|idx: int| 0 <= idx < prev.len() && prev[idx] == i;
                assert(cur[idx] == i);
            } else {
                assert(cur[cur.len() - 1] == i);
            }
        }
        assert forall|i1: int, i2: int| 0 <= i1 < i2 < cur.len() implies cur[i1] < cur[i2] by {
            if is_runnable(t, (n - 1) as usize) {
                assert(cur == prev.push((n - 1) as usize));
                assert(cur[i1] == prev[i1]);
                if i2 < prev.len() {
                    assert(cur[i2] == prev[i2]);
                } else {
                    assert(cur[i2] == n - 1);
                    assert(prev[i1] < n - 1);
                }
            } else {
                assert(cur[i1] == prev[i1]);
                assert(cur[i2] == prev[i2]);
            }
        }
    }
}

/// The authoritative registry of live control blocks, keyed by identity,
/// together with the next-identity cursor.
pub struct TaskManager {
    /// Live control blocks by identity.
    pub procs: BTreeMap<usize, Proc>,
    next_id: usize,
}

impl TaskManager {
    /// The registry as a mathematical map from identity to control block.
    pub closed spec fn table(self) -> Map<usize, Proc> {
        self.procs@
    }

    /// The next-identity cursor.
    pub closed spec fn cursor(self) -> usize {
        self.next_id
    }

    /// Where the next allocation probe begins: the cursor, wrapped back to
    /// the smallest valid identity once it has reached the maximum.
    pub open spec fn probe_start(self) -> usize {
        if self.cursor() >= MAX_PROCS {
            1
        } else {
            self.cursor()
        }
    }

    /// Registry invariant: the cursor stays within the identity space, and
    /// every entry is keyed by its own identity, which is a valid one.
    pub open spec fn wf(self) -> bool {
        &&& 1 <= self.cursor() <= MAX_PROCS
        &&& forall|k: usize| #[trigger]
            self.table().dom().contains(k) ==> 1 <= k < MAX_PROCS && self.table()[k].id == k
                && self.table()[k].wf()
    }

    /// An empty registry with the cursor at the smallest valid identity.
    pub fn new() -> (tm: TaskManager)
        ensures
            tm.wf(),
            tm.table() == Map::<usize, Proc>::empty(),
            tm.cursor() == 1,
    {
        TaskManager { procs: BTreeMap::new(), next_id: 1 }
    }

    /// Allocates a fresh identity and inserts an unstarted control block
    /// under it.  The cursor wraps to the smallest valid identity once it
    /// has reached the maximum; the probe then runs linearly upward, and
    /// wraps once more to search below the probe start, so allocation
    /// fails with [`EAGAIN`] — leaving the registry unchanged — exactly
    /// when the full identity space is occupied after one full wrap.
    pub fn new_proc(&mut self) -> (r: Result<usize, i32>)
        requires
            old(self).wf(),
        ensures
            final(self).wf(),
            match r {
                Ok(id) => {
                    &&& 1 <= id < MAX_PROCS
                    &&& !old(self).table().dom().contains(id)
                    &&& final(self).table() == old(self).table().insert(id, unstarted_proc(id))
                    &&& final(self).cursor() == id + 1
                    // The probe order: `id` is the first free identity at
                    // or above the probe start, or — failing that within
                    // the space — the first free one from the bottom.
                    &&& if id >= old(self).probe_start() {
                        forall|j: usize|
                            old(self).probe_start() <= j < id ==> old(
                                self,
                            ).table().dom().contains(j)
                    } else {
                        &&& forall|j: usize|
                            old(self).probe_start() <= j < MAX_PROCS ==> old(
                                self,
                            ).table().dom().contains(j)
                        &&& forall|j: usize| 1 <= j < id ==> old(self).table().dom().contains(j)
                    }
                },
                Err(e) => {
                    &&& e == EAGAIN
                    &&& forall|j: usize|
                        1 <= j < MAX_PROCS ==> old(self).table().dom().contains(j)
                    &&& final(self).table() == old(self).table()
                    &&& final(self).cursor() == old(self).probe_start()
                },
            },
    {
        if self.next_id >= MAX_PROCS {
            self.next_id = 1;
        }

        let start = self.next_id;
        while self.next_id < MAX_PROCS && self.procs.contains_key(&self.next_id)
            invariant
                self.wf(),
                start <= self.next_id <= MAX_PROCS,
                self.table() == old(self).table(),
                forall|j: usize| start <= j < self.next_id ==> self.table().dom().contains(j),
            decreases MAX_PROCS - self.next_id,
        {
            self.next_id = self.next_id + 1;
        }

        if self.next_id >= MAX_PROCS {
            // One full wrap: probe again from the smallest valid identity
            // up to where the first probe started.
            self.next_id = 1;
            while self.next_id < start && self.procs.contains_key(&self.next_id)
                invariant
                    self.wf(),
                    1 <= self.next_id <= start,
                    start <= MAX_PROCS,
                    self.table() == old(self).table(),
                    forall|j: usize| start <= j < MAX_PROCS ==> self.table().dom().contains(j),
                    forall|j: usize| 1 <= j < self.next_id ==> self.table().dom().contains(j),
                decreases start - self.next_id,
            {
                self.next_id = self.next_id + 1;
            }
            if self.next_id >= start {
                // The whole identity space is occupied.
                return Err(EAGAIN);
            }
        }

        let id = self.next_id;
        self.procs.insert(id, Proc::from(id));
        self.next_id = id + 1;
        Ok(id)
    }

    /// Allocates an identity and builds a ready-to-enter task around the
    /// entry function at address `func`: a zeroed FPU save area, a kernel
    /// stack with the entry address in its top word, the saved stack
    /// pointer at that word, and the machine's current page-table base
    /// recorded so a task in the same address space skips the reload.
    /// Fails with [`EAGAIN`] exactly when identity allocation does.
    pub fn spawn(&mut self, func: usize, m: &MachineState) -> (r: Result<usize, i32>)
        requires
            old(self).wf(),
        ensures
            final(self).wf(),
            match r {
                Ok(id) => {
                    &&& 1 <= id < MAX_PROCS
                    &&& !old(self).table().dom().contains(id)
                    &&& final(self).table().dom() == old(self).table().dom().insert(id)
                    &&& is_spawned_proc(final(self).table()[id], id, func, m.cr3)
                    &&& forall|k: usize|
                        k != id && old(self).table().dom().contains(k)
                            ==> final(self).table()[k] == old(self).table()[k]
                    &&& final(self).cursor() == id + 1
                    &&& if id >= old(self).probe_start() {
                        forall|j: usize|
                            old(self).probe_start() <= j < id ==> old(
                                self,
                            ).table().dom().contains(j)
                    } else {
                        &&& forall|j: usize|
                            old(self).probe_start() <= j < MAX_PROCS ==> old(
                                self,
                            ).table().dom().contains(j)
                        &&& forall|j: usize| 1 <= j < id ==> old(self).table().dom().contains(j)
                    }
                },
                Err(e) => {
                    &&& e == EAGAIN
                    &&& forall|j: usize|
                        1 <= j < MAX_PROCS ==> old(self).table().dom().contains(j)
                    &&& final(self).table() == old(self).table()
                    &&& final(self).cursor() == old(self).probe_start()
                },
            },
    {
        let id = match self.new_proc() {
            Ok(id) => id,
            Err(e) => {
                return Err(e);
            },
        };

        // The FPU save area starts out zeroed; the first switch into the
        // task initialises the FPU instead of restoring it.
        let fx = fpu_init_image();

        // A zeroed kernel stack with the entry address in the top word.
        let mut stack: Vec<u64> = Vec::new();
        let mut i: usize = 0;
        while i < KSTACK_WORDS
            invariant
                i <= KSTACK_WORDS,
                stack@.len() == i,
                forall|j: int| 0 <= j < i ==> stack@[j] == 0u64,
            decreases KSTACK_WORDS - i,
        {
            stack.push(0u64);
            i = i + 1;
        }
        stack[KSTACK_WORDS - 1] = func as u64;
        assert(stack@ =~= fresh_kstack(func));

        let mut p = self.procs.remove(&id).unwrap();
        p.cpu_context.set_fx(0);
        p.cpu_context.set_stack(KSTACK_SIZE - 8);
        p.cpu_context.set_page_table(m.cr3);
        p.kfx = Some(fx);
        p.kstack = Some(stack);
        self.procs.insert(id, p);

        proof {
            assert(self.table().dom() =~= old(self).table().dom().insert(id));
        }
        Ok(id)
    }

    /// The runnable identities, in ascending order.
    pub fn get_runnable(&self) -> (r: Vec<usize>)
        requires
            self.wf(),
        ensures
            r@ == runnable_seq(self.table()),
    {
        let mut r: Vec<usize> = Vec::new();
        let mut i: usize = 0;
        while i < MAX_PROCS
            invariant
                i <= MAX_PROCS,
                r@ == runnable_ids_below(self.table(), i as int),
            decreases MAX_PROCS - i,
        {
            let runnable = match self.procs.get(&i) {
                Some(p) => !p.running,
                None => false,
            };
            if runnable {
                r.push(i);
            }
            i = i + 1;
        }
        r
    }

    /// The round-robin selection policy: scanning upward from the identity
    /// after `current`, picks the first runnable entry, and wraps to the
    /// smallest runnable identity when the scan reaches the top of the
    /// identity space.  With a single runnable task this may select the
    /// task named by `current` itself, which re-enters the outgoing task.
    /// Calling it with no runnable entry at all is a fatal precondition
    /// violation: a correctly initialised kernel always keeps at least an
    /// idle task runnable.
    ///
    /// Fairness of the policy is proved in [`lemma_schedule_rotates`] (one
    /// decision moves to the cyclically next live identity) and
    /// [`lemma_round_robin_fair`] (a full turn of decisions visits every
    /// identity exactly once).
    pub fn schedule(&self, current: usize) -> (next: usize)
        requires
            self.wf(),
            exists|i: usize| is_runnable(self.table(), i),
        ensures
            next == rr_next(self.table(), current),
            is_runnable(self.table(), next),
    {
        let run = self.get_runnable();
        let ghost s = runnable_seq(self.table());
        proof {
            lemma_runnable_ids_below(self.table(), MAX_PROCS as int);
            let i = choose|i: usize| is_runnable(self.table(), i);
            assert(s.contains(i));
        }
        let n = run.len();
        proof {
            assert(s.subrange(0, n as int) =~= s);
        }
        let mut k: usize = 0;
        while k < n
            invariant
                k <= n,
                n == s.len(),
                run@ == s,
                s == runnable_seq(self.table()),
                first_above(s, current) == first_above(s.subrange(k as int, n as int), current),
            decreases n - k,
        {
            if run[k] > current {
                proof {
                    lemma_runnable_ids_below(self.table(), MAX_PROCS as int);
                    assert(s.subrange(k as int, n as int)[0] == s[k as int]);
                }
                return run[k];
            }
            proof {
                assert(s.subrange(k as int, n as int).subrange(
                    1,
                    (n - k) as int,
                ) =~= s.subrange(k as int + 1, n as int));
            }
            k = k + 1;
        }
        proof {
            assert(s.subrange(k as int, n as int).len() == 0);
            assert(s[0] == run@[0]);
        }
        run[0]
    }

    /// Detaches and returns the control block for `id`, or nothing when it
    /// is absent.  The caller is responsible for not removing a task that
    /// is currently active.
    pub fn remove(&mut self, id: usize) -> (r: Option<Proc>)
        requires
            old(self).wf(),
        ensures
            final(self).wf(),
            final(self).table() == old(self).table().remove(id),
            final(self).cursor() == old(self).cursor(),
            match r {
                Some(p) => old(self).table().dom().contains(id) && p == old(self).table()[id],
                None => !old(self).table().dom().contains(id),
            },
    {
        self.procs.remove(&id)
    }
}

/// Requests a new kernel task running the entry function at `f` in the
/// current address space; an identity-exhaustion failure is dropped, as a
/// caller with no way to report it would drop it.
pub fn spawn_kernel_task(tm: &mut TaskManager, f: usize, m: &MachineState)
    requires
        old(tm).wf(),
    ensures
        final(tm).wf(),
        ({
            if exists|i: usize| 1 <= i < MAX_PROCS && !old(tm).table().dom().contains(i) {
                exists|id: usize|
                    {
                        &&& 1 <= id < MAX_PROCS
                        &&& !old(tm).table().dom().contains(id)
                        &&& #[trigger] final(tm).table().dom() == old(tm).table().dom().insert(id)
                        &&& is_spawned_proc(final(tm).table()[id], id, f, m.cr3)
                        &&& forall|k: usize|
                            k != id && old(tm).table().dom().contains(k)
                                ==> final(tm).table()[k] == old(tm).table()[k]
                    }
            } else {
                final(tm).table() == old(tm).table()
            }
        }),
{
    let r = tm.spawn(f, m);
    proof {
        match r {
            Ok(id) => {
                assert(1 <= id < MAX_PROCS && !old(tm).table().dom().contains(id));
            },
            Err(_) => {
                assert forall|i: usize|
                    1 <= i < MAX_PROCS implies old(tm).table().dom().contains(i) by {}
            },
        }
    }
}

/// How many control blocks are currently live.
pub fn get_procs(tm: &TaskManager) -> (n: usize)
    ensures
        n == tm.table().len(),
{
    tm.procs.len()
}

/// Uniqueness of identities: in a well-formed registry, control blocks
/// found under two different keys never share an identity, since every
/// block is keyed by its own.
pub proof fn lemma_identity_unique(tm: TaskManager, k1: usize, k2: usize)
    requires
        tm.wf(),
        tm.table().dom().contains(k1),
        tm.table().dom().contains(k2),
        k1 != k2,
    ensures
        tm.table()[k1].id != tm.table()[k2].id,
{
}

/// Exhaustion: once every identity in the space is live, no free identity
/// exists anywhere, so [`TaskManager::new_proc`] and
/// [`TaskManager::spawn`] answer with the exhaustion error — their `Ok`
/// case requires a free identity.
pub proof fn lemma_id_space_exhausted(tm: TaskManager)
    requires
        tm.wf(),
        forall|i: usize| 1 <= i < MAX_PROCS ==> tm.table().dom().contains(i),
    ensures
        !(exists|i: usize| 1 <= i < MAX_PROCS && !tm.table().dom().contains(i)),
{
}

/// Reuse after removal: removing a live task from a full registry frees
/// exactly its identity, so the next allocation — whatever the cursor's
/// position, thanks to the full wrap — can only return that identity:
/// the exhaustion error is ruled out and every other identity is taken.
pub proof fn lemma_identity_reused(tm: TaskManager, id: usize)
    requires
        tm.wf(),
        1 <= id < MAX_PROCS,
        forall|i: usize| 1 <= i < MAX_PROCS && i != id ==> tm.table().dom().contains(i),
        !tm.table().dom().contains(id),
    ensures
        !(forall|j: usize| 1 <= j < MAX_PROCS ==> tm.table().dom().contains(j)),
        forall|r: usize| 1 <= r < MAX_PROCS && !tm.table().dom().contains(r) ==> r == id,
{
    assert(1 <= id < MAX_PROCS && !tm.table().dom().contains(id));
}

/// Switch fidelity: switching away from a context and later back into it
/// restores the machine's registers, flags and FPU state exactly as they
/// were, provided the machine's page-table base agreed with the outgoing
/// context's recorded one (as it does when that context was entered by
/// this same primitive).
pub proof fn lemma_switch_round_trip(
    a0: CPUContext,
    afx0: Seq<u8>,
    b0: CPUContext,
    bfx0: Seq<u8>,
    m0: MachineState,
    a1: CPUContext,
    afx1: Seq<u8>,
    m1: MachineState,
    b2: CPUContext,
    bfx2: Seq<u8>,
    m2: MachineState,
)
    requires
        m0.cr3 == a0.cr3,
        switch_rel(a0, afx0, b0, bfx0, m0, a1, afx1, m1),
        switch_rel(b0, bfx0, a1, afx1, m1, b2, bfx2, m2),
    ensures
        m2.rflags == m0.rflags,
        m2.rbx == m0.rbx,
        m2.r12 == m0.r12,
        m2.r13 == m0.r13,
        m2.r14 == m0.r14,
        m2.r15 == m0.r15,
        m2.rbp == m0.rbp,
        m2.rsp == m0.rsp,
        m2.fpu@ == m0.fpu@,
        m2.cr3 == m0.cr3,
        m2.privilege_stack == m0.rsp,
{
}

/// FPU lazy initialisation: the first switch into a freshly spawned task
/// leaves the FPU in the clean reset state, whatever any earlier task had
/// left in the unit — no state leaks across tasks.
pub proof fn lemma_fpu_lazy_init(
    p: Proc,
    id: usize,
    func: usize,
    cr3: usize,
    a0: CPUContext,
    afx0: Seq<u8>,
    m0: MachineState,
    a1: CPUContext,
    afx1: Seq<u8>,
    m1: MachineState,
)
    requires
        is_spawned_proc(p, id, func, cr3),
        switch_rel(a0, afx0, p.cpu_context, p.kfx->0@, m0, a1, afx1, m1),
    ensures
        m1.fpu@ == fpu_clean(),
{
}

/// The live identities below `n`, in ascending order, running or not.
pub open spec fn live_ids_below(t: Map<usize, Proc>, n: int) -> Seq<usize>
    decreases n,
{
    if n <= 0 {
        Seq::empty()
    } else if t.dom().contains((n - 1) as usize) {
        live_ids_below(t, n - 1).push((n - 1) as usize)
    } else {
        live_ids_below(t, n - 1)
    }
}

/// All live identities of the registry, in ascending order.
pub open spec fn live_seq(t: Map<usize, Proc>) -> Seq<usize> {
    live_ids_below(t, MAX_PROCS as int)
}

/// The live identities below `n` are exactly the registry's keys in that
/// range, listed in strictly ascending order.
pub proof fn lemma_live_ids_below(t: Map<usize, Proc>, n: int)
    requires
        0 <= n <= MAX_PROCS,
    ensures
        forall|idx: int|
            0 <= idx < live_ids_below(t, n).len() ==> t.dom().contains(
                #[trigger] live_ids_below(t, n)[idx],
            ) && live_ids_below(t, n)[idx] < n,
        forall|i: usize| i < n && t.dom().contains(i) ==> live_ids_below(t, n).contains(i),
        forall|i1: int, i2: int|
            0 <= i1 < i2 < live_ids_below(t, n).len() ==> #[trigger] live_ids_below(
                t,
                n,
            )[i1] < #[trigger] live_ids_below(t, n)[i2],
    decreases n,
{
    if n > 0 {
        lemma_live_ids_below(t, n - 1);
        let prev = live_ids_below(t, n - 1);
        let cur = live_ids_below(t, n);
        assert forall|i: usize| i < n && t.dom().contains(i) implies cur.contains(i) by {
            if i < n - 1 {
                assert(prev.contains(i));
                let idx = choose|idx: int| 0 <= idx < prev.len() && prev[idx] == i;
                assert(cur[idx] == i);
            } else {
                assert(cur[cur.len() - 1] == i);
            }
        }
        assert forall|i1: int, i2: int| 0 <= i1 < i2 < cur.len() implies cur[i1] < cur[i2] by {
            if t.dom().contains((n - 1) as usize) {
                assert(cur == prev.push((n - 1) as usize));
                assert(cur[i1] == prev[i1]);
                if i2 < prev.len() {
                    assert(cur[i2] == prev[i2]);
                } else {
                    assert(cur[i2] == n - 1);
                    assert(prev[i1] < n - 1);
                }
            } else {
                assert(cur[i1] == prev[i1]);
                assert(cur[i2] == prev[i2]);
            }
        }
    }
}

/// In a strictly ascending sequence, everything after the head is larger
/// than the head, so the tail holds exactly the elements above it.
proof fn lemma_tail_membership(s: Seq<usize>, x: usize)
    requires
        ascending(s),
        s.len() > 0,
    ensures
        s.drop_first().contains(x) <==> (s.contains(x) && x > s[0]),
{
    let t = s.drop_first();
    if t.contains(x) {
        let i = choose|i: int| 0 <= i < t.len() && t[i] == x;
        assert(s[i + 1] == x);
        assert(s[0] < s[i + 1]);
        assert(s.contains(x));
    }
    if s.contains(x) && x > s[0] {
        let i = choose|i: int| 0 <= i < s.len() && s[i] == x;
        assert(i != 0);
        assert(t[i - 1] == x);
        assert(t.contains(x));
    }
}

/// Two strictly ascending sequences with the same elements are the same
/// sequence.
proof fn lemma_ascending_same_elements(a: Seq<usize>, b: Seq<usize>)
    requires
        ascending(a),
        ascending(b),
        forall|x: usize| a.contains(x) <==> b.contains(x),
    ensures
        a == b,
    decreases a.len(),
{
    if a.len() == 0 {
        if b.len() > 0 {
            assert(b.contains(b[0]));
            assert(a.contains(b[0]));
            assert(false);
        }
        assert(a =~= b);
    } else {
        assert(a.contains(a[0]));
        assert(b.contains(a[0]));
        if b.len() == 0 {
            assert(false);
        }
        assert(b.contains(b[0]));
        assert(a.contains(b[0]));
        // The heads are the minima of equal element sets, so they agree.
        let ia = choose|i: int| 0 <= i < a.len() && a[i] == b[0];
        let ib = choose|i: int| 0 <= i < b.len() && b[i] == a[0];
        assert(ia == 0 || a[0] < a[ia]);
        assert(ib == 0 || b[0] < b[ib]);
        assert(a[0] == b[0]);
        let a1 = a.drop_first();
        let b1 = b.drop_first();
        assert forall|i: int, j: int| 0 <= i < j < a1.len() implies a1[i] < a1[j] by {
            assert(a1[i] == a[i + 1]);
            assert(a1[j] == a[j + 1]);
        }
        assert forall|i: int, j: int| 0 <= i < j < b1.len() implies b1[i] < b1[j] by {
            assert(b1[i] == b[i + 1]);
            assert(b1[j] == b[j + 1]);
        }
        assert forall|x: usize| a1.contains(x) <==> b1.contains(x) by {
            lemma_tail_membership(a, x);
            lemma_tail_membership(b, x);
        }
        lemma_ascending_same_elements(a1, b1);
        assert forall|i: int| 0 <= i < a.len() implies a[i] == b[i] by {
            if i > 0 {
                assert(a[i] == a1[i - 1]);
                assert(b[i] == b1[i - 1]);
            }
        }
        assert(a =~= b);
    }
}

/// Removing one position from a strictly ascending sequence keeps it
/// strictly ascending and removes exactly that element.
proof fn lemma_remove_ascending(s: Seq<usize>, i: int)
    requires
        ascending(s),
        0 <= i < s.len(),
    ensures
        ascending(s.remove(i)),
        forall|x: usize| s.remove(i).contains(x) <==> (s.contains(x) && x != s[i]),
{
    s.remove_ensures(i);
    let r = s.remove(i);
    assert forall|i1: int, j1: int| 0 <= i1 < j1 < r.len() implies r[i1] < r[j1] by {
        if i1 < i {
            assert(r[i1] == s[i1]);
        } else {
            assert(r[i1] == s[i1 + 1]);
        }
        if j1 < i {
            assert(r[j1] == s[j1]);
        } else {
            assert(r[j1] == s[j1 + 1]);
        }
    }
    assert forall|x: usize| r.contains(x) implies (s.contains(x) && x != s[i]) by {
        let j = choose|j: int| 0 <= j < r.len() && r[j] == x;
        if j < i {
            assert(s[j] == x);
            assert(s[j] < s[i]);
            assert(s.contains(x));
        } else {
            assert(s[j + 1] == x);
            assert(s[i] < s[j + 1]);
            assert(s.contains(x));
        }
    }
    assert forall|x: usize| s.contains(x) && x != s[i] implies r.contains(x) by {
        let j = choose|j: int| 0 <= j < s.len() && s[j] == x;
        if j < i {
            assert(r[j] == x);
            assert(r.contains(x));
        } else {
            assert(j != i);
            assert(r[j - 1] == s[j]);
            assert(r.contains(x));
        }
    }
}

/// With exactly one task running, the runnable identities are the live
/// identities with the running one taken out.
pub proof fn lemma_runnable_is_live_without_current(t: Map<usize, Proc>, current: usize)
    requires
        forall|k: usize| #[trigger] t.dom().contains(k) ==> k < MAX_PROCS,
        t.dom().contains(current),
        t[current].running,
        forall|i: usize| t.dom().contains(i) && i != current ==> !(#[trigger] t[i]).running,
    ensures
        live_seq(t).contains(current),
        0 <= live_seq(t).index_of(current) < live_seq(t).len(),
        live_seq(t)[live_seq(t).index_of(current)] == current,
        ascending(live_seq(t)),
        runnable_seq(t) == live_seq(t).remove(live_seq(t).index_of(current)),
{
    lemma_runnable_ids_below(t, MAX_PROCS as int);
    lemma_live_ids_below(t, MAX_PROCS as int);
    let live = live_seq(t);
    let run = runnable_seq(t);
    assert(live.contains(current));
    let idx = live.index_of(current);
    assert(0 <= idx < live.len() && live[idx] == current) by {
        assert(exists|i: int| 0 <= i < live.len() && live[i] == current);
    }
    assert(ascending(live));
    assert(ascending(run));
    lemma_remove_ascending(live, idx);
    assert forall|x: usize| run.contains(x) <==> live.remove(idx).contains(x) by {
        if run.contains(x) {
            let j = choose|j: int| 0 <= j < run.len() && run[j] == x;
            assert(is_runnable(t, x));
            assert(x != current);
            assert(live.contains(x));
        }
        if live.remove(idx).contains(x) {
            assert(live.contains(x) && x != current);
            let j = choose|j: int| 0 <= j < live.len() && live[j] == x;
            assert(t.dom().contains(x));
            assert(x < MAX_PROCS);
            assert(!t[x].running);
            assert(is_runnable(t, x));
            assert(run.contains(x));
        }
    }
    lemma_ascending_same_elements(run, live.remove(idx));
}

/// The end of the fairness argument on the registry itself: with exactly
/// one task running and at least one other live task, the round-robin
/// decision selects the live identity cyclically next after the running
/// one.
pub proof fn lemma_schedule_rotates(t: Map<usize, Proc>, current: usize)
    requires
        forall|k: usize| #[trigger] t.dom().contains(k) ==> k < MAX_PROCS,
        t.dom().contains(current),
        t[current].running,
        forall|i: usize| t.dom().contains(i) && i != current ==> !(#[trigger] t[i]).running,
        exists|i: usize| #[trigger] t.dom().contains(i) && i != current,
    ensures
        live_seq(t).contains(current),
        rr_next(t, current) == live_seq(t)[(live_seq(t).index_of(current) + 1) % (
        live_seq(t).len() as int)],
{
    lemma_runnable_is_live_without_current(t, current);
    lemma_live_ids_below(t, MAX_PROCS as int);
    let live = live_seq(t);
    let idx = live.index_of(current);
    let other = choose|i: usize| #[trigger] t.dom().contains(i) && i != current;
    assert(live.contains(other));
    let io = choose|i: int| 0 <= i < live.len() && live[i] == other;
    assert(io != idx);
    assert(live.len() >= 2);
    lemma_rr_step(live, idx);
}

/// Strictly ascending, hence duplicate-free.
pub open spec fn ascending(s: Seq<usize>) -> bool {
    forall|i: int, j: int| 0 <= i < j < s.len() ==> s[i] < s[j]
}

/// [`first_above`] ignores a prefix of elements that are not above
/// `current`.
proof fn lemma_first_above_prefix(s: Seq<usize>, current: usize, i: int)
    requires
        0 <= i <= s.len(),
        forall|j: int| 0 <= j < i ==> s[j] <= current,
    ensures
        first_above(s, current) == first_above(s.subrange(i, s.len() as int), current),
    decreases i,
{
    if i > 0 {
        let s1 = s.subrange(1, s.len() as int);
        assert forall|j: int| 0 <= j < i - 1 implies s1[j] <= current by {
            assert(s1[j] == s[j + 1]);
        }
        lemma_first_above_prefix(s1, current, i - 1);
        assert(s1.subrange(i - 1, s1.len() as int) =~= s.subrange(i, s.len() as int));
    } else {
        assert(s.subrange(0, s.len() as int) =~= s);
    }
}

/// [`first_above`] finds nothing when no element is above `current`.
proof fn lemma_first_above_none(s: Seq<usize>, current: usize)
    requires
        forall|j: int| 0 <= j < s.len() ==> s[j] <= current,
    ensures
        first_above(s, current) is None,
    decreases s.len(),
{
    if s.len() > 0 {
        let s1 = s.subrange(1, s.len() as int);
        assert forall|j: int| 0 <= j < s1.len() implies s1[j] <= current by {
            assert(s1[j] == s[j + 1]);
        }
        lemma_first_above_none(s1, current);
    }
}

/// One round-robin decision rotates by one place: with the live
/// identities `s` in ascending order and `s[i]` the one now running, the
/// selection over the others picks the cyclically next identity.
pub proof fn lemma_rr_step(s: Seq<usize>, i: int)
    requires
        ascending(s),
        s.len() >= 2,
        0 <= i < s.len(),
    ensures
        select_next(s.remove(i), s[i]) == s[(i + 1) % (s.len() as int)],
{
    let n = s.len() as int;
    let r = s.remove(i);
    if i < n - 1 {
        assert forall|j: int| 0 <= j < i implies r[j] <= s[i] by {
            assert(r[j] == s[j]);
        }
        lemma_first_above_prefix(r, s[i], i);
        let tail = r.subrange(i, r.len() as int);
        assert(tail[0] == r[i]);
        assert(r[i] == s[i + 1]);
        assert(first_above(tail, s[i]) == Some(s[i + 1] as usize));
        lemma_small_mod_int(i + 1, n);
    } else {
        assert forall|j: int| 0 <= j < r.len() implies r[j] <= s[i] by {
            assert(r[j] == s[j]);
        }
        lemma_first_above_none(r, s[i]);
        assert(r[0] == s[0]);
        assert(n % n == 0) by {
            vstd::arithmetic::div_mod::lemma_mod_self_0(n);
        }
    }
}

/// The identity running after `k` further scheduling decisions, starting
/// from the live identities `s` (no arrivals, no removals) with `s[start]`
/// running: each decision selects over the runnable identities, which are
/// all of `s` except the one running at that moment.
pub open spec fn rr_trace(s: Seq<usize>, start: int, k: nat) -> usize
    decreases k,
{
    if k == 0 {
        s[start]
    } else {
        let prev = rr_trace(s, start, (k - 1) as nat);
        select_next(s.remove(s.index_of(prev)), prev)
    }
}

/// In a duplicate-free sequence, looking an element up by value finds its
/// own index.
proof fn lemma_index_of_ascending(s: Seq<usize>, i: int)
    requires
        ascending(s),
        0 <= i < s.len(),
    ensures
        s.index_of(s[i]) == i,
{
    let v = s[i];
    assert(s.contains(v));
    let j = s.index_of(v);
    assert(0 <= j < s.len() && s[j] == v) by {
        assert(s.index_of(v) == choose|x: int| 0 <= x < s.len() && s[x] == v);
    }
}

/// Round-robin rotation: after `k` decisions the running identity stands
/// `k` places after the starting one, cyclically.
pub proof fn lemma_rr_trace_rotates(s: Seq<usize>, start: int, k: nat)
    requires
        ascending(s),
        s.len() >= 2,
        0 <= start < s.len(),
    ensures
        rr_trace(s, start, k) == s[(start + k) % (s.len() as int)],
    decreases k,
{
    let n = s.len() as int;
    if k == 0 {
        lemma_small_mod_int(start, n);
    } else {
        lemma_rr_trace_rotates(s, start, (k - 1) as nat);
        let prev_idx = (start + k - 1) % n;
        vstd::arithmetic::div_mod::lemma_mod_bound(start + k - 1, n);
        let prev = s[prev_idx];
        lemma_index_of_ascending(s, prev_idx);
        lemma_rr_step(s, prev_idx);
        assert(((start + k - 1) % n + 1) % n == (start + k) % n) by {
            lemma_mod_add_one(start + k - 1, n);
        }
    }
}

/// How many scheduling decisions it takes to reach the identity at index
/// `j` starting from the one at index `start`, among `n` live
/// identities: the cyclic distance, counted as a full turn when the two
/// coincide.
pub open spec fn cyclic_distance(start: int, j: int, n: int) -> nat {
    if (j - start) % n == 0 {
        n as nat
    } else {
        ((j - start) % n) as nat
    }
}

/// Round-robin fairness: with `N` live identities and no arrivals, `N`
/// consecutive scheduling decisions run every identity exactly once —
/// no identity twice, none skipped — before the rotation repeats.
pub proof fn lemma_round_robin_fair(s: Seq<usize>, start: int)
    requires
        ascending(s),
        s.len() >= 2,
        0 <= start < s.len(),
    ensures
        forall|k1: nat, k2: nat|
            1 <= k1 < k2 <= s.len() ==> #[trigger] rr_trace(s, start, k1) != #[trigger] rr_trace(
                s,
                start,
                k2,
            ),
        forall|j: int|
            0 <= j < s.len() ==> 1 <= cyclic_distance(start, j, s.len() as int) <= s.len()
                && #[trigger] rr_trace(s, start, cyclic_distance(start, j, s.len() as int))
                == s[j],
{
    let n = s.len() as int;
    assert forall|k1: nat, k2: nat|
        1 <= k1 < k2 <= n implies #[trigger] rr_trace(s, start, k1) != #[trigger] rr_trace(
        s,
        start,
        k2,
    ) by {
        lemma_rr_trace_rotates(s, start, k1);
        lemma_rr_trace_rotates(s, start, k2);
        let i1 = (start + k1) % n;
        let i2 = (start + k2) % n;
        vstd::arithmetic::div_mod::lemma_mod_bound(start + k1, n);
        vstd::arithmetic::div_mod::lemma_mod_bound(start + k2, n);
        lemma_mod_distinct(start + k1, start + k2, n);
        assert(i1 != i2);
    }
    assert forall|j: int|
        0 <= j < n implies 1 <= cyclic_distance(start, j, n) <= n && #[trigger] rr_trace(
        s,
        start,
        cyclic_distance(start, j, n),
    ) == s[j] by {
        let d = (j - start) % n;
        vstd::arithmetic::div_mod::lemma_mod_bound(j - start, n);
        let k: nat = cyclic_distance(start, j, n);
        lemma_rr_trace_rotates(s, start, k);
        lemma_mod_round_trip(start, j, k as int, n);
        assert(rr_trace(s, start, k) == s[j]);
    }
}


/// A value already below the modulus is its own remainder.
proof fn lemma_small_mod_int(x: int, n: int)
    requires
        0 <= x < n,
    ensures
        x % n == x,
{
    vstd::arithmetic::div_mod::lemma_small_mod(x as nat, n as nat);
}

/// Stepping by one commutes with taking remainders.
proof fn lemma_mod_add_one(a: int, n: int)
    requires
        0 <= a,
        2 <= n,
    ensures
        (a % n + 1) % n == (a + 1) % n,
{
    vstd::arithmetic::div_mod::lemma_add_mod_noop(a, 1, n);
    lemma_small_mod_int(1, n);
}

/// Two values less than one full turn apart have different remainders.
proof fn lemma_mod_distinct(a: int, b: int, n: int)
    requires
        0 < n,
        a < b,
        b - a < n,
    ensures
        a % n != b % n,
{
    vstd::arithmetic::div_mod::lemma_fundamental_div_mod(a, n);
    vstd::arithmetic::div_mod::lemma_fundamental_div_mod(b, n);
    if a % n == b % n {
        let q = b / n - a / n;
        assert(b - a == n * q) by (nonlinear_arith)
            requires
                a == n * (a / n) + a % n,
                b == n * (b / n) + b % n,
                a % n == b % n,
                q == b / n - a / n,
        {}
        assert(false) by (nonlinear_arith)
            requires
                b - a == n * q,
                0 < b - a < n,
        {}
    }
}

/// Stepping `k` places from `start` lands on `j`, where `k` is the
/// cyclic distance from `start` to `j` (a full turn when they coincide).
proof fn lemma_mod_round_trip(start: int, j: int, k: int, n: int)
    requires
        0 < n,
        0 <= start < n,
        0 <= j < n,
        k == (if (j - start) % n == 0 {
            n
        } else {
            (j - start) % n
        }),
    ensures
        (start + k) % n == j,
{
    let d = (j - start) % n;
    vstd::arithmetic::div_mod::lemma_fundamental_div_mod(j - start, n);
    let q = (j - start) / n;
    assert(j - start == n * q + d);
    if d == 0 {
        assert(j - start == n * q);
        assert(-n < j - start < n);
        assert(j == start) by (nonlinear_arith)
            requires
                j - start == n * q,
                -n < j - start < n,
                0 < n,
        {}
        vstd::arithmetic::div_mod::lemma_mod_add_multiples_vanish(start, n);
        lemma_small_mod_int(start, n);
    } else {
        assert(start + k == j - n * q);
        vstd::arithmetic::div_mod::lemma_mod_multiples_vanish(-q, j, n);
        assert(n * -q + j == j - n * q) by (nonlinear_arith) {}
        lemma_small_mod_int(j, n);
    }
}

} // verus!
