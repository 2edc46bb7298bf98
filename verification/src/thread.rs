//! The cooperative thread scheduler: per-core active slots and cleanup
//! queues around one shared ready queue of task control blocks.
//!
//! A thread surrenders (to run again later) or stops (to terminate) by the
//! same two-phase protocol: take the core's active slot, enqueue the
//! bookkeeping that must wait until the outgoing stack has been abandoned
//! — re-queue or discard the outgoing thread, install the incoming one —
//! and only then switch.  The cleanup queue is drained first thing after
//! control resumes on the new stack, before any task-supplied work runs.
//!
//! In the running kernel the ready queue, the active slots and the
//! cleanup queues are kernel-wide state behind locks; here they are one
//! [`ThreadState`] value passed by reference, and the deferred work is
//! the closed set of [`CleanupAction`] variants, so each step of the
//! protocol is a function with an exact contract.

use vstd::prelude::*;

use std::collections::VecDeque;

use crate::machine::MachineState;
use crate::machine::update_tss;

verus! {

broadcast use vstd::std_specs::vecdeque::group_vec_dequeue_axioms;

/// Number of cores the scheduler keeps an active slot and a cleanup queue
/// for.
pub const NCORES: usize = 16;

/// Number of 64-bit words in a thread's stack.
pub const TCB_STACK_WORDS: usize = 512;

/// Number of callee-saved registers the machine switch pops from a
/// thread's stack; fixes where a fresh stack's pointer starts.
pub const NUM_CALLEE_SAVED: usize = 6;

/// Stands for the address of the thread-entry trampoline that a fresh
/// thread stack returns to; the model needs only a fixed nonzero value.
pub const THREAD_ENTRY_ADDR: u64 = 0x2000;

/// The work token of the throwaway thread [`block`] synthesizes when the
/// ready queue is empty: it performs nothing and stops.
pub const NOOP_WORK: usize = 0;

/// The saved stack pointer of a suspended thread, as handed to the
/// machine-level switch.  The recorded value is a byte offset from the
/// base of the owning stack; in the running kernel it would be a full
/// machine address.
#[derive(Clone, Copy, Debug)]
pub struct TCBInfo {
    pub stack_pointer: usize,
}

impl TCBInfo {
    pub fn new(stack_pointer: usize) -> (r: TCBInfo)
        ensures
            r.stack_pointer == stack_pointer,
    {
        TCBInfo { stack_pointer }
    }
}

/// The control block of the context a core was booted on: it owns no
/// allocated stack and carries no work item.
pub struct BootstrapTCB {
    pub tcb_info: TCBInfo,
    pub stack_frame_start: Option<usize>,
}

impl BootstrapTCB {
    pub fn new() -> (r: BootstrapTCB)
        ensures
            r.tcb_info.stack_pointer == 0,
            r.stack_frame_start is None,
    {
        BootstrapTCB { tcb_info: TCBInfo::new(0), stack_frame_start: None }
    }

    pub fn new_box() -> (r: Box<BootstrapTCB>)
        ensures
            r.tcb_info.stack_pointer == 0,
            r.stack_frame_start is None,
    {
        Box::new(BootstrapTCB::new())
    }
}

/// The stack of a fresh thread: zeroed, the trampoline address in the top
/// word, and zeroed flags and fault-address slots below the space reserved
/// for the callee-saved registers.
pub open spec fn fresh_thread_stack() -> Seq<u64> {
    Seq::new(TCB_STACK_WORDS as nat, |i: int| if i == TCB_STACK_WORDS - 1 { THREAD_ENTRY_ADDR } else { 0u64 })
}

/// Word index where a fresh thread stack's pointer starts: below the
/// trampoline word, the reserved callee-saved registers, and the flags
/// slot, at the fault-address slot.
pub const TCB_STACK_TOP: usize = TCB_STACK_WORDS - 1 - NUM_CALLEE_SAVED - 2;

/// A standard task control block: a dedicated stack laid out for a first
/// entry through the trampoline, and the work item the thread runs.
pub struct TCBImpl {
    pub tcb_info: TCBInfo,
    pub stack: Vec<u64>,
    pub work: Option<usize>,
}

impl TCBImpl {
    /// A fresh thread that will run the work item `work` (recorded by its
    /// token): its stack holds the trampoline address in the top word,
    /// zeroed flags and fault-address slots, and room for the callee-saved
    /// registers the first switch pops.
    pub fn new(work: usize) -> (r: TCBImpl)
        ensures
            r.stack@ == fresh_thread_stack(),
            r.work == Some(work),
            r.tcb_info.stack_pointer == TCB_STACK_TOP * 8,
    {
        let mut stack: Vec<u64> = Vec::new();
        let mut i: usize = 0;
        while i < TCB_STACK_WORDS
            invariant
                i <= TCB_STACK_WORDS,
                stack@.len() == i,
                forall|j: int| 0 <= j < i ==> stack@[j] == 0u64,
            decreases TCB_STACK_WORDS - i,
        {
            stack.push(0u64);
            i = i + 1;
        }
        let end_of_stack = TCB_STACK_WORDS - 1;
        stack[end_of_stack] = THREAD_ENTRY_ADDR;
        let index = end_of_stack - NUM_CALLEE_SAVED - 1;
        stack[index] = 0;  // flags word popped by the first switch
        stack[index - 1] = 0;  // fault-address register slot
        assert(stack@ =~= fresh_thread_stack());
        let stack_ptr_start = (index - 1) * 8;
        TCBImpl { tcb_info: TCBInfo::new(stack_ptr_start), stack, work: Some(work) }
    }
}

/// A task control block: either the bootstrap context a core started on,
/// or a standard thread with its own stack and work item.  The set of
/// variants is closed, so the hot switch path needs no trait objects.
pub enum TCB {
    Bootstrap(BootstrapTCB),
    Standard(TCBImpl),
}

impl TCB {
    /// The saved stack pointer of this block.
    pub open spec fn spec_info(self) -> TCBInfo {
        match self {
            TCB::Bootstrap(b) => b.tcb_info,
            TCB::Standard(t) => t.tcb_info,
        }
    }

    /// The work token this block carries, if any.
    pub open spec fn spec_work(self) -> Option<usize> {
        match self {
            TCB::Bootstrap(_) => None,
            TCB::Standard(t) => t.work,
        }
    }

    /// This block with its saved stack pointer replaced: what the machine
    /// switch leaves behind in the outgoing block.
    pub open spec fn spec_set_info(self, info: TCBInfo) -> TCB {
        match self {
            TCB::Bootstrap(b) => TCB::Bootstrap(BootstrapTCB { tcb_info: info, ..b }),
            TCB::Standard(t) => TCB::Standard(TCBImpl { tcb_info: info, ..t }),
        }
    }

    /// Records a saved stack pointer in this block; in the running kernel
    /// the hardware switch performs this write through the pointer that
    /// [`TCB::get_info`] hands it.
    pub fn set_info(&mut self, info: TCBInfo)
        ensures
            *final(self) == old(self).spec_set_info(info),
            final(self).spec_info() == info,
            final(self).spec_work() == old(self).spec_work(),
    {
        match self {
            TCB::Bootstrap(b) => {
                b.tcb_info = info;
            },
            TCB::Standard(t) => {
                t.tcb_info = info;
            },
        }
    }

    /// The saved stack pointer, as handed to the machine-level switch.
    pub fn get_info(&self) -> (r: TCBInfo)
        ensures
            r == self.spec_info(),
    {
        match self {
            TCB::Bootstrap(b) => b.tcb_info,
            TCB::Standard(t) => t.tcb_info,
        }
    }

    /// Takes the work item out of this block.  Asking a bootstrap block,
    /// or a standard block whose work was already taken, is a fatal error.
    pub fn get_work(&mut self) -> (w: usize)
        requires
            old(self).spec_work() is Some,
        ensures
            w == old(self).spec_work()->0,
            final(self).spec_work() is None,
            final(self).spec_info() == old(self).spec_info(),
            (*old(self)) matches TCB::Standard(t) ==> *final(self) == TCB::Standard(
                (TCBImpl { work: None, ..t }),
            ),
    {
        match self {
            TCB::Bootstrap(_) => {
                proof {
                    assert(false);
                }
                0
            },
            TCB::Standard(t) => {
                let mut work: Option<usize> = None;
                core::mem::swap(&mut work, &mut t.work);
                work.unwrap()
            },
        }
    }
}

/// Bookkeeping deferred until after a context switch completes, when it
/// is drained on the incoming thread's stack.  The variants are the three
/// shapes such deferred work takes; keeping them a closed set spares the
/// switch path heap-allocated closures.
pub enum CleanupAction {
    /// Push the outgoing thread back onto the ready queue (surrender).
    Requeue(TCB),
    /// Let go of the outgoing thread (stop).
    Discard(TCB),
    /// Install the incoming thread in the core's active slot.
    MakeActive(TCB),
}

/// Holds the deferred actions of one core, drained front first.  Per-core,
/// so no mutual exclusion is needed.
pub struct TaskHolder {
    tasks: VecDeque<CleanupAction>,
}

impl TaskHolder {
    /// The queued actions, front first.
    pub closed spec fn queue(self) -> Seq<CleanupAction> {
        self.tasks@
    }

    pub fn new() -> (r: TaskHolder)
        ensures
            r.queue() == Seq::<CleanupAction>::empty(),
    {
        TaskHolder { tasks: VecDeque::new() }
    }

    pub fn add_task(&mut self, task: CleanupAction)
        ensures
            final(self).queue() == old(self).queue().push(task),
    {
        self.tasks.push_back(task);
    }

    pub fn get_task(&mut self) -> (r: Option<CleanupAction>)
        ensures
            match r {
                Some(a) => old(self).queue().len() > 0 && a == old(self).queue()[0]
                    && final(self).queue() == old(self).queue().drop_first(),
                None => old(self).queue().len() == 0 && final(self).queue() == old(self).queue(),
            },
    {
        let r = self.tasks.pop_front();
        proof {
            if old(self).queue().len() > 0 {
                assert(final(self).queue() =~= old(self).queue().drop_first());
            }
        }
        r
    }
}

/// The cooperative scheduler's state: one shared ready queue, and an
/// active slot and cleanup queue per core.
pub struct ThreadState {
    /// Threads awaiting execution, front first.
    pub ready: VecDeque<TCB>,
    /// Per core, the thread currently executing there.  While a slot is
    /// empty, timer preemption on that core must abstain.
    pub active: Vec<Option<TCB>>,
    /// Per core, the bookkeeping deferred until after the next switch.
    pub cleanup: Vec<TaskHolder>,
}

impl ThreadState {
    /// One slot and one queue per core.
    pub open spec fn wf(self) -> bool {
        &&& self.active@.len() == NCORES
        &&& self.cleanup@.len() == NCORES
    }
}

/// The scheduler as it stands after boot: nothing ready, every core
/// running its bootstrap context, no cleanup pending.
pub fn init() -> (ts: ThreadState)
    ensures
        ts.wf(),
        ts.ready@ == Seq::<TCB>::empty(),
        forall|c: int|
            0 <= c < NCORES ==> ((#[trigger] ts.active@[c]) matches Some(t)
                && t matches TCB::Bootstrap(b) && b.tcb_info.stack_pointer == 0),
        forall|c: int|
            0 <= c < NCORES ==> (#[trigger] ts.cleanup@[c]).queue() == Seq::<
                CleanupAction,
            >::empty(),
{
    let mut active: Vec<Option<TCB>> = Vec::new();
    let mut cleanup: Vec<TaskHolder> = Vec::new();
    let mut i: usize = 0;
    while i < NCORES
        invariant
            i <= NCORES,
            active@.len() == i,
            cleanup@.len() == i,
            forall|c: int|
                0 <= c < i ==> ((#[trigger] active@[c]) matches Some(t)
                    && t matches TCB::Bootstrap(b) && b.tcb_info.stack_pointer == 0),
            forall|c: int|
                0 <= c < i ==> (#[trigger] cleanup@[c]).queue() == Seq::<
                    CleanupAction,
                >::empty(),
        decreases NCORES - i,
    {
        active.push(Some(TCB::Bootstrap(BootstrapTCB::new())));
        cleanup.push(TaskHolder::new());
        i = i + 1;
    }
    ThreadState { ready: VecDeque::new(), active, cleanup }
}

/// Swaps the active thread of `core` with `swap_to` and hands back the
/// previous occupant.  Swapping in nothing tells the timer interrupt to
/// abstain from preempting this core until a thread is swapped back in;
/// the running kernel brackets the swap with an interrupt mask for the
/// same reason.
pub fn swap_active(ts: &mut ThreadState, core: usize, swap_to: Option<TCB>) -> (r: Option<TCB>)
    requires
        old(ts).wf(),
        core < NCORES,
    ensures
        final(ts).wf(),
        r == old(ts).active@[core as int],
        final(ts).active@ == old(ts).active@.update(core as int, swap_to),
        final(ts).ready == old(ts).ready,
        final(ts).cleanup == old(ts).cleanup,
{
    let mut result = swap_to;
    core::mem::swap(&mut result, &mut ts.active[core]);
    result
}

/// Appends a thread to the back of the ready queue.
pub fn schedule(ts: &mut ThreadState, tcb: TCB)
    ensures
        final(ts).ready@ == old(ts).ready@.push(tcb),
        final(ts).active == old(ts).active,
        final(ts).cleanup == old(ts).cleanup,
{
    ts.ready.push_back(tcb);
}

/// The effect of one deferred action on a core's view of the scheduler:
/// its ready queue and its active slot.
pub open spec fn apply_action(ready: Seq<TCB>, active: Option<TCB>, a: CleanupAction) -> (
    Seq<TCB>,
    Option<TCB>,
) {
    match a {
        CleanupAction::Requeue(t) => (ready.push(t), active),
        CleanupAction::Discard(t) => (ready, active),
        CleanupAction::MakeActive(t) => (ready, Some(t)),
    }
}

/// The effect of draining a whole cleanup queue, front first.
pub open spec fn apply_actions(ready: Seq<TCB>, active: Option<TCB>, q: Seq<CleanupAction>) -> (
    Seq<TCB>,
    Option<TCB>,
)
    decreases q.len(),
{
    if q.len() == 0 {
        (ready, active)
    } else {
        let stepped = apply_action(ready, active, q[0]);
        apply_actions(stepped.0, stepped.1, q.drop_first())
    }
}

/// Drains this core's cleanup queue, front first, performing each deferred
/// action; runs first thing after a switch completes, on the incoming
/// stack, before any task-supplied code.
pub fn cleanup(ts: &mut ThreadState, core: usize)
    requires
        old(ts).wf(),
        core < NCORES,
    ensures
        final(ts).wf(),
        ({
            let drained = apply_actions(
                old(ts).ready@,
                old(ts).active@[core as int],
                old(ts).cleanup@[core as int].queue(),
            );
            final(ts).ready@ == drained.0 && final(ts).active@[core as int] == drained.1
        }),
        final(ts).cleanup@[core as int].queue() == Seq::<CleanupAction>::empty(),
        forall|c: int|
            0 <= c < NCORES && c != core ==> final(ts).active@[c] == #[trigger] old(
                ts,
            ).active@[c],
        forall|c: int|
            0 <= c < NCORES && c != core ==> final(ts).cleanup@[c] == #[trigger] old(
                ts,
            ).cleanup@[c],
{
    loop
        invariant
            ts.wf(),
            core < NCORES,
            apply_actions(ts.ready@, ts.active@[core as int], ts.cleanup@[core as int].queue())
                == apply_actions(
                old(ts).ready@,
                old(ts).active@[core as int],
                old(ts).cleanup@[core as int].queue(),
            ),
            forall|c: int|
                0 <= c < NCORES && c != core ==> ts.active@[c] == #[trigger] old(ts).active@[c],
            forall|c: int|
                0 <= c < NCORES && c != core ==> ts.cleanup@[c] == #[trigger] old(ts).cleanup@[c],
        ensures
            ts.cleanup@[core as int].queue().len() == 0,
        decreases ts.cleanup@[core as int].queue().len(),
    {
        let action = ts.cleanup[core].get_task();
        match action {
            Some(a) => {
                match a {
                    CleanupAction::Requeue(t) => {
                        ts.ready.push_back(t);
                    },
                    CleanupAction::Discard(_t) => {
                        // Dropping the binding lets go of the thread.
                    },
                    CleanupAction::MakeActive(t) => {
                        ts.active[core] = Some(t);
                    },
                }
            },
            None => {
                break;
            },
        }
    }
}

/// A thread as [`block`] synthesizes it when the ready queue is empty: a
/// fresh standard thread whose work does nothing, so the core has
/// something to switch to rather than deadlocking.
pub open spec fn is_noop_thread(t: TCB) -> bool {
    &&& t matches TCB::Standard(ti)
    &&& ti.work == Some(NOOP_WORK)
    &&& ti.stack@ == fresh_thread_stack()
    &&& ti.tcb_info.stack_pointer == TCB_STACK_TOP * 8
}

/// How one call of [`block`] relates scheduler and machine before (`ts0`,
/// `m0`) and after (`ts1`, `m1`), for the incoming thread `next`: the
/// front of the ready queue is gone if `next` came from there, the
/// install-`next` action joined the pending queue, the whole queue was
/// drained after the switch, and the machine stands on `next`'s stack.
pub open spec fn block_post(
    ts0: ThreadState,
    ts1: ThreadState,
    core: usize,
    next: TCB,
    m0: MachineState,
    m1: MachineState,
) -> bool {
    let popped = if ts0.ready@.len() > 0 {
        ts0.ready@.drop_first()
    } else {
        ts0.ready@
    };
    let q = ts0.cleanup@[core as int].queue().push(CleanupAction::MakeActive(next));
    let drained = apply_actions(popped, ts0.active@[core as int], q);
    &&& ts1.ready@ == drained.0
    &&& ts1.active@[core as int] == drained.1
    &&& ts1.cleanup@[core as int].queue() == Seq::<CleanupAction>::empty()
    &&& m1 == (MachineState {
        rsp: next.spec_info().stack_pointer,
        privilege_stack: next.spec_info().stack_pointer,
        ..m0
    })
}

/// Finds something to switch to — the front of the ready queue, or a
/// synthesized throwaway thread when nothing is ready — queues the action
/// that will install it as active, and performs the switch: the
/// privilege-transition stack is pointed at the incoming thread, the
/// simulated machine moves onto its stack, and the deferred actions are
/// then drained, as they run on the incoming stack right after a real
/// switch.  `current_thread_info` is the slot the hardware switch saves
/// the outgoing stack pointer through; the model performs that write in
/// [`surrender`]'s own path, before the outgoing block is enqueued.
pub fn block(ts: &mut ThreadState, core: usize, current_thread_info: TCBInfo, m: &mut MachineState)
    requires
        old(ts).wf(),
        core < NCORES,
    ensures
        final(ts).wf(),
        old(ts).ready@.len() > 0 ==> block_post(
            *old(ts),
            *final(ts),
            core,
            old(ts).ready@[0],
            *old(m),
            *final(m),
        ),
        old(ts).ready@.len() == 0 ==> exists|next: TCB|
            #[trigger] is_noop_thread(next) && block_post(
                *old(ts),
                *final(ts),
                core,
                next,
                *old(m),
                *final(m),
            ),
        forall|c: int|
            0 <= c < NCORES && c != core ==> final(ts).active@[c] == #[trigger] old(
                ts,
            ).active@[c],
        forall|c: int|
            0 <= c < NCORES && c != core ==> final(ts).cleanup@[c] == #[trigger] old(
                ts,
            ).cleanup@[c],
{
    // Find something to switch to; most of the time the ready queue has
    // something, and an empty queue yields a throwaway no-op thread
    // rather than a deadlock.
    let next_thread: TCB = match ts.ready.pop_front() {
        Some(tcb) => tcb,
        None => TCB::Standard(TCBImpl::new(NOOP_WORK)),
    };
    let ghost next_ghost = next_thread;
    let next_thread_info = next_thread.get_info();

    // The next thread will assert itself as the active thread once the
    // switch is over and the cleanup queue is drained.
    ts.cleanup[core].add_task(CleanupAction::MakeActive(next_thread));

    // The machine-level switch: the privilege-transition stack is pointed
    // at the incoming thread first, then control resumes on its stack.
    update_tss(m, next_thread_info.stack_pointer);
    m.rsp = next_thread_info.stack_pointer;

    let ghost mid_active = ts.active@;
    let ghost mid_cleanup = ts.cleanup@;
    cleanup(ts, core);

    proof {
        if old(ts).ready@.len() == 0 {
            assert(is_noop_thread(next_ghost));
        }
        assert forall|c: int| 0 <= c < NCORES && c != core implies ts.active@[c] == old(
            ts,
        ).active@[c] by {
            assert(ts.active@[c] == mid_active[c]);
        }
        assert forall|c: int| 0 <= c < NCORES && c != core implies ts.cleanup@[c] == old(
            ts,
        ).cleanup@[c] by {
            assert(ts.cleanup@[c] == mid_cleanup[c]);
            assert(mid_cleanup[c] == old(ts).cleanup@[c]);
        }
    }
}

/// Cleanup ordering for a surrender: draining first re-queues the
/// outgoing thread and only then installs the incoming one, so by the
/// time any task-supplied code runs on the new stack, its predecessor
/// already stands in the ready queue.
pub proof fn lemma_cleanup_ordering(ready: Seq<TCB>, active: Option<TCB>, cur: TCB, next: TCB)
    ensures
        ({
            let q = Seq::<CleanupAction>::empty().push(CleanupAction::Requeue(cur)).push(
                CleanupAction::MakeActive(next),
            );
            apply_actions(ready, active, q) == (ready.push(cur), Some(next))
        }),
{
    let q = Seq::<CleanupAction>::empty().push(CleanupAction::Requeue(cur)).push(
        CleanupAction::MakeActive(next),
    );
    assert(q.len() == 2);
    assert(q[0] == CleanupAction::Requeue(cur));
    let q1 = q.drop_first();
    assert(q1.len() == 1);
    assert(q1[0] == CleanupAction::MakeActive(next));
    assert(q1.drop_first().len() == 0);
    assert(apply_actions(ready, active, q) == apply_actions(ready.push(cur), active, q1));
    assert(apply_actions(ready.push(cur), active, q1) == apply_actions(
        ready.push(cur),
        Some(next),
        q1.drop_first(),
    ));
}

/// The stop counterpart of [`lemma_cleanup_ordering`]: draining lets go
/// of the outgoing thread and installs the incoming one.
pub proof fn lemma_cleanup_discard(ready: Seq<TCB>, active: Option<TCB>, cur: TCB, next: TCB)
    ensures
        ({
            let q = Seq::<CleanupAction>::empty().push(CleanupAction::Discard(cur)).push(
                CleanupAction::MakeActive(next),
            );
            apply_actions(ready, active, q) == (ready, Some(next))
        }),
{
    let q = Seq::<CleanupAction>::empty().push(CleanupAction::Discard(cur)).push(
        CleanupAction::MakeActive(next),
    );
    assert(q.len() == 2);
    assert(q[0] == CleanupAction::Discard(cur));
    let q1 = q.drop_first();
    assert(q1.len() == 1);
    assert(q1[0] == CleanupAction::MakeActive(next));
    assert(q1.drop_first().len() == 0);
    assert(apply_actions(ready, active, q) == apply_actions(ready, active, q1));
    assert(apply_actions(ready, active, q1) == apply_actions(ready, Some(next), q1.drop_first()));
}

/// Exclusivity through a surrender, in the form the thread variant can
/// state it: blocks here carry no identity (identities live in the task
/// registry), so the outgoing block is tracked by value.  If the saved
/// outgoing block was nowhere in the ready queue, then after the queue
/// rotation that [`surrender`]'s spelled-out clause pins — front removed,
/// saved block appended — it occurs in the ready queue exactly once, at
/// the back, and it is not the thread the hand-off made active.
pub proof fn lemma_surrender_exclusivity(q: Seq<TCB>, saved: TCB)
    requires
        q.len() > 0,
        forall|i: int| 0 <= i < q.len() ==> q[i] != saved,
    ensures
        ({
            let r = q.drop_first().push(saved);
            &&& r[r.len() - 1] == saved
            &&& forall|i: int| 0 <= i < r.len() - 1 ==> #[trigger] r[i] != saved
            &&& q[0] != saved
        }),
{
    let r = q.drop_first().push(saved);
    assert forall|i: int| 0 <= i < r.len() - 1 implies #[trigger] r[i] != saved by {
        assert(r[i] == q[i + 1]);
    }
}

/// How one surrender or stop relates scheduler and machine before and
/// after, when a thread `cur` was active on `core`: the core's slot was
/// emptied, the re-queue-or-discard action and then the install action
/// joined the cleanup queue, the switch happened, and the queue was
/// drained on the incoming stack.
pub open spec fn surrender_post(
    ts0: ThreadState,
    ts1: ThreadState,
    core: usize,
    cur: TCB,
    run_again: bool,
    next: TCB,
    m0: MachineState,
    m1: MachineState,
) -> bool {
    let popped = if ts0.ready@.len() > 0 {
        ts0.ready@.drop_first()
    } else {
        ts0.ready@
    };
    // The outgoing block leaves with the machine's stack pointer saved
    // into it, as the hardware switch writes it before the hand-off.
    let saved = cur.spec_set_info(TCBInfo { stack_pointer: m0.rsp });
    let q = ts0.cleanup@[core as int].queue().push(
        if run_again {
            CleanupAction::Requeue(saved)
        } else {
            CleanupAction::Discard(saved)
        },
    ).push(CleanupAction::MakeActive(next));
    let drained = apply_actions(popped, None, q);
    &&& ts1.ready@ == drained.0
    &&& ts1.active@[core as int] == drained.1
    &&& ts1.cleanup@[core as int].queue() == Seq::<CleanupAction>::empty()
    &&& m1 == (MachineState {
        rsp: next.spec_info().stack_pointer,
        privilege_stack: next.spec_info().stack_pointer,
        ..m0
    })
}

/// The shared surrender/stop path.  With no active thread the call
/// returns at once: the core is already mid-surrender.  Otherwise the
/// active slot is emptied (which holds off preemption), the action that
/// re-queues (`run_again`) or discards the outgoing thread is deferred,
/// and [`block`] finds the next thread and switches.
fn surrender_help(ts: &mut ThreadState, core: usize, run_again: bool, m: &mut MachineState)
    requires
        old(ts).wf(),
        core < NCORES,
    ensures
        final(ts).wf(),
        old(ts).active@[core as int] is None ==> final(ts).ready == old(ts).ready
            && final(ts).active@ == old(ts).active@ && final(ts).cleanup == old(ts).cleanup
            && *final(m) == *old(m),
        old(ts).active@[core as int] matches Some(cur) ==> {
            &&& old(ts).ready@.len() > 0 ==> surrender_post(
                *old(ts),
                *final(ts),
                core,
                cur,
                run_again,
                old(ts).ready@[0],
                *old(m),
                *final(m),
            )
            &&& old(ts).ready@.len() == 0 ==> exists|next: TCB|
                #[trigger] is_noop_thread(next) && surrender_post(
                    *old(ts),
                    *final(ts),
                    core,
                    cur,
                    run_again,
                    next,
                    *old(m),
                    *final(m),
                )
        },
        forall|c: int|
            0 <= c < NCORES && c != core ==> final(ts).active@[c] == #[trigger] old(
                ts,
            ).active@[c],
        forall|c: int|
            0 <= c < NCORES && c != core ==> final(ts).cleanup@[c] == #[trigger] old(
                ts,
            ).cleanup@[c],
{
    // If there is no active thread, this core is already surrendering.
    let mut current_thread: TCB = match swap_active(ts, core, None) {
        Some(tcb) => tcb,
        None => {
            proof {
                assert(ts.active@ =~= old(ts).active@);
            }
            return;
        },
    };
    // No interrupt mask is needed from here on: this core keeps running
    // this thread until the switch itself.
    let current_thread_info = current_thread.get_info();
    // The switch saves the outgoing stack pointer through that info; at
    // the model's sequential granularity, record the machine's stack
    // pointer into the outgoing block before it is enqueued.
    current_thread.set_info(TCBInfo::new(m.rsp));
    if run_again {
        ts.cleanup[core].add_task(CleanupAction::Requeue(current_thread));
    } else {
        ts.cleanup[core].add_task(CleanupAction::Discard(current_thread));
    }
    let ghost mid_active = ts.active@;
    let ghost mid_cleanup = ts.cleanup@;
    block(ts, core, current_thread_info, m);
    proof {
        assert forall|c: int| 0 <= c < NCORES && c != core implies ts.active@[c] == old(
            ts,
        ).active@[c] by {
            assert(ts.active@[c] == mid_active[c]);
        }
        assert forall|c: int| 0 <= c < NCORES && c != core implies ts.cleanup@[c] == old(
            ts,
        ).cleanup@[c] by {
            assert(ts.cleanup@[c] == mid_cleanup[c]);
            assert(mid_cleanup[c] == old(ts).cleanup@[c]);
        }
    }
}

/// Gives up the core and lets the thread run again later: it will return
/// to the ready queue once the switch is over.
pub fn surrender(ts: &mut ThreadState, core: usize, m: &mut MachineState)
    requires
        old(ts).wf(),
        core < NCORES,
    ensures
        final(ts).wf(),
        old(ts).active@[core as int] is None ==> final(ts).ready == old(ts).ready
            && final(ts).active@ == old(ts).active@ && final(ts).cleanup == old(ts).cleanup
            && *final(m) == *old(m),
        old(ts).active@[core as int] matches Some(cur) ==> {
            &&& old(ts).ready@.len() > 0 ==> surrender_post(
                *old(ts),
                *final(ts),
                core,
                cur,
                true,
                old(ts).ready@[0],
                *old(m),
                *final(m),
            )
            &&& old(ts).ready@.len() == 0 ==> exists|next: TCB|
                #[trigger] is_noop_thread(next) && surrender_post(
                    *old(ts),
                    *final(ts),
                    core,
                    cur,
                    true,
                    next,
                    *old(m),
                    *final(m),
                )
        },
        forall|c: int|
            0 <= c < NCORES && c != core ==> final(ts).active@[c] == #[trigger] old(
                ts,
            ).active@[c],
        forall|c: int|
            0 <= c < NCORES && c != core ==> final(ts).cleanup@[c] == #[trigger] old(
                ts,
            ).cleanup@[c],
        // The common case, spelled out: with no cleanup already pending,
        // the outgoing thread — its machine stack pointer saved — stands
        // at the back of the ready queue, and the former front of the
        // queue is active by the time any task-supplied code could run.
        old(ts).cleanup@[core as int].queue().len() == 0 && old(ts).ready@.len() > 0
            ==> (old(ts).active@[core as int] matches Some(cur) ==> {
            &&& final(ts).ready@ == old(ts).ready@.drop_first().push(
                cur.spec_set_info(TCBInfo { stack_pointer: old(m).rsp }),
            )
            &&& final(ts).active@[core as int] == Some(old(ts).ready@[0])
        }),
{
    surrender_help(ts, core, true, m);
    proof {
        if old(ts).cleanup@[core as int].queue().len() == 0 && old(
            ts,
        ).active@[core as int] is Some && old(ts).ready@.len() > 0 {
            let cur = old(ts).active@[core as int]->0;
            let saved = cur.spec_set_info(TCBInfo { stack_pointer: old(m).rsp });
            let next = old(ts).ready@[0];
            lemma_cleanup_ordering(old(ts).ready@.drop_first(), None, saved, next);
            assert(old(ts).cleanup@[core as int].queue().push(CleanupAction::Requeue(saved)).push(
                CleanupAction::MakeActive(next),
            ) =~= Seq::<CleanupAction>::empty().push(CleanupAction::Requeue(saved)).push(
                CleanupAction::MakeActive(next),
            ));
        }
    }
}

/// Gives up the core for good: the outgoing thread is dropped once the
/// switch is over.
pub fn stop(ts: &mut ThreadState, core: usize, m: &mut MachineState)
    requires
        old(ts).wf(),
        core < NCORES,
    ensures
        final(ts).wf(),
        old(ts).active@[core as int] is None ==> final(ts).ready == old(ts).ready
            && final(ts).active@ == old(ts).active@ && final(ts).cleanup == old(ts).cleanup
            && *final(m) == *old(m),
        old(ts).active@[core as int] matches Some(cur) ==> {
            &&& old(ts).ready@.len() > 0 ==> surrender_post(
                *old(ts),
                *final(ts),
                core,
                cur,
                false,
                old(ts).ready@[0],
                *old(m),
                *final(m),
            )
            &&& old(ts).ready@.len() == 0 ==> exists|next: TCB|
                #[trigger] is_noop_thread(next) && surrender_post(
                    *old(ts),
                    *final(ts),
                    core,
                    cur,
                    false,
                    next,
                    *old(m),
                    *final(m),
                )
        },
        forall|c: int|
            0 <= c < NCORES && c != core ==> final(ts).active@[c] == #[trigger] old(
                ts,
            ).active@[c],
        forall|c: int|
            0 <= c < NCORES && c != core ==> final(ts).cleanup@[c] == #[trigger] old(
                ts,
            ).cleanup@[c],
        // The common case, spelled out: with no cleanup already pending,
        // the outgoing thread is gone for good and the former front of
        // the ready queue is active.
        old(ts).cleanup@[core as int].queue().len() == 0 && old(ts).ready@.len() > 0
            ==> (old(ts).active@[core as int] matches Some(cur) ==> {
            &&& final(ts).ready@ == old(ts).ready@.drop_first()
            &&& final(ts).active@[core as int] == Some(old(ts).ready@[0])
        }),
{
    surrender_help(ts, core, false, m);
    proof {
        if old(ts).cleanup@[core as int].queue().len() == 0 && old(
            ts,
        ).active@[core as int] is Some && old(ts).ready@.len() > 0 {
            let cur = old(ts).active@[core as int]->0;
            let saved = cur.spec_set_info(TCBInfo { stack_pointer: old(m).rsp });
            let next = old(ts).ready@[0];
            lemma_cleanup_discard(old(ts).ready@.drop_first(), None, saved, next);
            assert(old(ts).cleanup@[core as int].queue().push(CleanupAction::Discard(saved)).push(
                CleanupAction::MakeActive(next),
            ) =~= Seq::<CleanupAction>::empty().push(CleanupAction::Discard(saved)).push(
                CleanupAction::MakeActive(next),
            ));
        }
    }
}

/// What the first instructions of a fresh thread do, on its own stack:
/// drain the cleanup queue left pending by the switch that entered it,
/// then take the work item out of the now-active thread and hand it to
/// the caller to run.  The caller runs the work and then calls [`stop`].
/// Entering with nothing to activate, or with a thread that carries no
/// work, is a fatal error.
pub fn thread_entry_point(ts: &mut ThreadState, core: usize) -> (w: usize)
    requires
        old(ts).wf(),
        core < NCORES,
        ({
            let drained = apply_actions(
                old(ts).ready@,
                old(ts).active@[core as int],
                old(ts).cleanup@[core as int].queue(),
            );
            drained.1 matches Some(t) && t.spec_work() is Some
        }),
    ensures
        final(ts).wf(),
        ({
            let drained = apply_actions(
                old(ts).ready@,
                old(ts).active@[core as int],
                old(ts).cleanup@[core as int].queue(),
            );
            &&& w == drained.1->0.spec_work()->0
            &&& final(ts).ready@ == drained.0
            &&& final(ts).active@[core as int] matches Some(t2) && t2.spec_info()
                == drained.1->0.spec_info() && t2.spec_work() is None
        }),
        final(ts).cleanup@[core as int].queue() == Seq::<CleanupAction>::empty(),
        forall|c: int|
            0 <= c < NCORES && c != core ==> final(ts).active@[c] == #[trigger] old(
                ts,
            ).active@[c],
        forall|c: int|
            0 <= c < NCORES && c != core ==> final(ts).cleanup@[c] == #[trigger] old(
                ts,
            ).cleanup@[c],
{
    cleanup(ts, core);
    let mut active = swap_active(ts, core, None).unwrap();
    let task = active.get_work();
    let _ = swap_active(ts, core, Some(active));
    task
}

} // verus!
