//! The simple cooperative/preemptive process scheduler: a two-tier
//! priority ready queue, one active slot, and processes built on bootstrap
//! stacks.
//!
//! In the running kernel the ready queue, the active slot and the
//! process-identifier counter are kernel-wide state; here they are bundled
//! into one [`Scheduler`] value passed by reference into every operation,
//! so that a unit test can run the scheduler on a private instance.

use vstd::prelude::*;

use std::collections::VecDeque;

use crate::context::Stack;
use crate::context::FIRST_ENTRY_ADDR;
use crate::context::ENTRY_SLOT;
use crate::context::fresh_stack_words;
use crate::context::context_switch;
use crate::context::STACK_WORDS;
use crate::machine::MachineState;

verus! {

broadcast use vstd::std_specs::vecdeque::group_vec_dequeue_axioms, crate::context::lemma_with_sp;

/// Scheduling priority: `High` processes are placed at the front of the
/// ready queue, `Low` processes at the back.  This gives `High` tasks
/// at-most-one-ahead preemption over contemporaneously ready `Low` tasks,
/// not starvation-freedom.
#[derive(Clone, Debug)]
pub enum Priority {
    High,
    Low,
}

/// A schedulable process: an identifier, a bootstrap execution context,
/// and a priority tier.
#[derive(Clone, Debug)]
pub struct Process {
    id: usize,
    context: Stack,
    priority: Priority,
}

/// The process-scheduler state: the ready queue, the active slot, and the
/// process-identifier counter.
pub struct Scheduler {
    /// Processes awaiting execution, front first.
    pub ready: VecDeque<Process>,
    /// The process currently executing on the core, if any.  While this is
    /// empty, the timer interrupt must abstain from preemption.
    pub active: Option<Process>,
    /// The last process identifier handed out.
    pub next_pid: usize,
}

impl Process {
    /// The process identifier.
    pub closed spec fn pid(self) -> usize {
        self.id
    }

    /// The priority tier.
    pub closed spec fn prio(self) -> Priority {
        self.priority
    }

    /// The execution context.
    pub closed spec fn ctx(self) -> Stack {
        self.context
    }

    /// The context's stack buffer is well formed.
    pub open spec fn wf(self) -> bool {
        self.ctx().wf()
    }

    /// A fresh `Low`-priority process with the next identifier and a fresh
    /// bootstrap context.
    pub fn new(s: &mut Scheduler) -> (p: Process)
        requires
            old(s).pid_counter() < usize::MAX,
        ensures
            p.pid() == old(s).pid_counter() + 1,
            p.prio() is Low,
            p.wf(),
            p.ctx().words() == fresh_stack_words(FIRST_ENTRY_ADDR),
            final(s).pid_counter() == old(s).pid_counter() + 1,
            final(s).ready == old(s).ready,
            final(s).active == old(s).active,
    {
        Process { id: new_pid(s), context: Stack::new(), priority: Priority::Low }
    }

    /// Writes the address this process resumes at on first entry.
    pub fn set_entry(&mut self, addr: usize)
        requires
            old(self).wf(),
        ensures
            final(self).wf(),
            final(self).pid() == old(self).pid(),
            final(self).prio() == old(self).prio(),
            final(self).ctx().words() == old(self).ctx().words().update(
                ENTRY_SLOT as int,
                addr as u64,
            ),
            final(self).ctx().sp() == old(self).ctx().sp(),
    {
        self.context.entry_at(addr);
    }

    /// A fresh process that enters the kernel task at address `addr` when
    /// first switched to.
    pub fn spawn_kernel_task(s: &mut Scheduler, addr: usize) -> (p: Process)
        requires
            old(s).pid_counter() < usize::MAX,
        ensures
            p.pid() == old(s).pid_counter() + 1,
            p.prio() is Low,
            p.wf(),
            p.ctx().words() == fresh_stack_words(FIRST_ENTRY_ADDR).update(
                ENTRY_SLOT as int,
                addr as u64,
            ),
            final(s).pid_counter() == old(s).pid_counter() + 1,
            final(s).ready == old(s).ready,
            final(s).active == old(s).active,
    {
        let mut p = Self::new(s);
        p.context.set_first_rip(addr);
        p
    }

    /// The process identifier.
    pub fn get_pid(&self) -> (r: usize)
        ensures
            r == self.pid(),
    {
        self.id
    }

    /// Whether the trampoline slot of this process's context holds an
    /// entry address; used defensively before switching, since entering a
    /// context without one is an undefined control transfer.
    pub fn has_entry(&self) -> (r: bool)
        requires
            self.wf(),
        ensures
            r == (self.ctx().words()[ENTRY_SLOT as int] != 0),
    {
        self.context.has_entry()
    }

    /// This process as a switch leaves it in the ready queue: the same
    /// identifier, priority and stack words, with the machine's stack
    /// pointer (the byte offset `rsp_bytes`) saved into its context.
    pub closed spec fn suspended(self, rsp_bytes: usize) -> Process {
        Process { context: self.ctx().with_sp(rsp_bytes / 8), ..self }
    }

    /// Moves the process to the given priority tier.
    pub fn set_priority(&mut self, priority: Priority)
        ensures
            final(self).prio() == priority,
            final(self).pid() == old(self).pid(),
            final(self).ctx() == old(self).ctx(),
    {
        self.priority = priority;
    }
}

impl Scheduler {
    /// The last process identifier handed out.
    pub open spec fn pid_counter(self) -> usize {
        self.next_pid
    }

    /// An idle scheduler: empty ready queue, no active process, no
    /// identifiers handed out yet.
    pub fn new() -> (s: Scheduler)
        ensures
            s.ready@ == Seq::<Process>::empty(),
            s.active is None,
            s.pid_counter() == 0,
    {
        Scheduler { ready: VecDeque::new(), active: None, next_pid: 0 }
    }
}

/// What [`Process::suspended`] changes: only the saved stack-pointer
/// index of the context; identity, priority and stack words stay.
pub broadcast proof fn lemma_suspended(p: Process, rsp_bytes: usize)
    ensures
        (#[trigger] p.suspended(rsp_bytes)).pid() == p.pid(),
        p.suspended(rsp_bytes).prio() == p.prio(),
        p.suspended(rsp_bytes).ctx() == p.ctx().with_sp(rsp_bytes / 8),
        p.wf() && rsp_bytes <= 8 * STACK_WORDS ==> p.suspended(rsp_bytes).wf(),
{
}

/// Hands out the next process identifier.  Identifiers start at 1, so 0 is
/// free to mean "no process" in [`my_pid`].
fn new_pid(s: &mut Scheduler) -> (r: usize)
    requires
        old(s).pid_counter() < usize::MAX,
    ensures
        r == old(s).pid_counter() + 1,
        final(s).pid_counter() == r,
        final(s).ready == old(s).ready,
        final(s).active == old(s).active,
{
    s.next_pid = s.next_pid + 1;
    s.next_pid
}

/// Where [`ready`] places a process: `High` priority at the front of the
/// queue, `Low` priority at the back.
pub open spec fn enqueue_spec(q: Seq<Process>, p: Process) -> Seq<Process> {
    if p.prio() is High {
        seq![p] + q
    } else {
        q.push(p)
    }
}

/// Places a process in the ready queue according to its priority tier.
/// A process whose identifier is not yet anywhere in the scheduler keeps
/// the identifiers distinct.
pub fn ready(s: &mut Scheduler, p: Process)
    ensures
        final(s).ready@ == enqueue_spec(old(s).ready@, p),
        final(s).active == old(s).active,
        final(s).pid_counter() == old(s).pid_counter(),
        distinct_ids(*old(s)) && !in_ready(*old(s), p.pid()) && !is_active(*old(s), p.pid())
            ==> distinct_ids(*final(s)),
{
    match p.priority {
        Priority::Low => s.ready.push_back(p),
        Priority::High => s.ready.push_front(p),
    }
}

/// Installs a process in the active slot, re-enabling preemption.  A
/// process whose identifier is not in the ready queue keeps the
/// identifiers distinct.
pub fn make_active(s: &mut Scheduler, p: Process)
    ensures
        final(s).active matches Some(q) && q == p,
        final(s).ready == old(s).ready,
        final(s).pid_counter() == old(s).pid_counter(),
        distinct_ids(*old(s)) && !in_ready(*old(s), p.pid()) ==> distinct_ids(*final(s)),
{
    s.active = Some(p);
}

/// Takes the next process off the front of the ready queue.  Scheduling
/// with an empty queue is a fatal precondition violation: a correctly
/// initialised kernel always keeps an idle process ready.
pub fn schedule(s: &mut Scheduler) -> (p: Process)
    requires
        old(s).ready@.len() > 0,
    ensures
        p == old(s).ready@[0],
        final(s).ready@ == old(s).ready@.drop_first(),
        final(s).active == old(s).active,
        final(s).pid_counter() == old(s).pid_counter(),
        distinct_ids(*old(s)) ==> distinct_ids(*final(s)) && !in_ready(*final(s), p.pid())
            && !is_active(*final(s), p.pid()),
{
    let p = s.ready.pop_front().unwrap();
    proof {
        assert(final(s).ready@ =~= old(s).ready@.drop_first());
    }
    p
}

/// The identifier of the active process, or 0 while no process is active.
pub fn my_pid(s: &Scheduler) -> (r: usize)
    ensures
        r == (if s.active is Some {
            s.active->0.pid()
        } else {
            0
        }),
{
    match &s.active {
        Some(p) => p.get_pid(),
        None => 0,
    }
}

/// Whether some process in the ready queue carries the identifier `id`.
pub open spec fn in_ready(s: Scheduler, id: usize) -> bool {
    exists|i: int| 0 <= i < s.ready@.len() && s.ready@[i].pid() == id
}

/// Whether the active slot holds the identifier `id`.
pub open spec fn is_active(s: Scheduler, id: usize) -> bool {
    s.active matches Some(p) && p.pid() == id
}

/// No identifier occurs twice in the scheduler: the ready queue holds
/// pairwise distinct identifiers and the active identifier is in none of
/// its slots.
pub open spec fn distinct_ids(s: Scheduler) -> bool {
    &&& forall|i: int, j: int|
        0 <= i < j < s.ready@.len() ==> s.ready@[i].pid() != s.ready@[j].pid()
    &&& (s.active matches Some(p) ==> forall|i: int|
        0 <= i < s.ready@.len() ==> s.ready@[i].pid() != p.pid())
}

/// Exclusivity: while no switch is in progress, an identifier is never
/// both active and in the ready queue.
pub proof fn lemma_exclusivity(s: Scheduler, id: usize)
    requires
        distinct_ids(s),
    ensures
        !(is_active(s, id) && in_ready(s, id)),
{
}

/// Hands the core from the active process to `p`: the outgoing process
/// returns to the ready queue according to its priority — with the
/// machine's stack pointer saved into its context, so it can later be
/// resumed where it stopped — `p` becomes active, and the bootstrap
/// switch moves the machine onto `p`'s stack, with the
/// privilege-transition stack pointed at it first.  Calling this with an
/// empty active slot, or with a process whose trampoline slot was zeroed
/// (see [`Stack::has_entry`]), is a fatal precondition violation:
/// switching into a context with no entry is an undefined control
/// transfer.
pub fn switch_to(s: &mut Scheduler, p: Process, m: &mut MachineState)
    requires
        old(s).active matches Some(c) && c.wf(),
        p.wf(),
        p.ctx().words()[ENTRY_SLOT as int] != 0,
        // The machine is executing on a bootstrap stack frame, as it is
        // whenever control last entered through this same primitive.
        old(m).rsp % 8 == 0,
        old(m).rsp <= 8 * STACK_WORDS,
    ensures
        final(s).ready@ == enqueue_spec(
            old(s).ready@,
            old(s).active->0.suspended(old(m).rsp),
        ),
        final(s).active matches Some(q) && q == p,
        final(s).pid_counter() == old(s).pid_counter(),
        *final(m) == (MachineState {
            privilege_stack: (p.ctx().sp() * 8) as usize,
            rsp: (p.ctx().sp() * 8) as usize,
            ..*old(m)
        }),
        distinct_ids(*old(s)) && !in_ready(*old(s), p.pid()) && !is_active(*old(s), p.pid())
            ==> distinct_ids(*final(s)),
{
    let mut current = s.active.take().unwrap();
    let mut p = p;

    let mut from_info = current.context.get_info();
    let mut to_info = p.context.get_info();

    context_switch(&mut from_info, &mut to_info, m);

    // The switch has recorded the suspended stack pointer in `from_info`;
    // save it into the outgoing context before the process is enqueued.
    current.context.save_sp(from_info);

    // Place the outgoing process back in the ready queue to run some more.
    ready(s, current);
    make_active(s, p);
}

/// The ready queue of a scheduler, as identifiers, front first.
pub open spec fn ready_pids(s: Scheduler) -> Seq<usize> {
    s.ready@.map_values(|p: Process| p.pid())
}

/// One cooperative hand-off, seen on identifiers alone: the front of the
/// ready queue becomes active and the outgoing identifier joins the back.
pub open spec fn fifo_step(q: Seq<usize>, a: usize) -> (Seq<usize>, usize) {
    (q.drop_first().push(a), q[0])
}

/// One scheduling decision followed by the hand-off: picks the process at
/// the front of the ready queue and switches to it.  On identifiers, one
/// call with a `Low`-tier outgoing process is exactly one [`fifo_step`];
/// [`lemma_fifo_fair`] turns that into the full-rotation guarantee.
pub fn schedule_and_then_switch(s: &mut Scheduler, m: &mut MachineState)
    requires
        old(s).active matches Some(c) && c.wf(),
        old(s).ready@.len() > 0,
        old(s).ready@[0].wf(),
        old(s).ready@[0].ctx().words()[ENTRY_SLOT as int] != 0,
        old(m).rsp % 8 == 0,
        old(m).rsp <= 8 * STACK_WORDS,
    ensures
        final(s).ready@ == enqueue_spec(
            old(s).ready@.drop_first(),
            old(s).active->0.suspended(old(m).rsp),
        ),
        final(s).active matches Some(q) && q == old(s).ready@[0],
        final(s).pid_counter() == old(s).pid_counter(),
        *final(m) == (MachineState {
            privilege_stack: (old(s).ready@[0].ctx().sp() * 8) as usize,
            rsp: (old(s).ready@[0].ctx().sp() * 8) as usize,
            ..*old(m)
        }),
        distinct_ids(*old(s)) ==> distinct_ids(*final(s)),
        old(s).active->0.prio() is Low ==> (ready_pids(*final(s)), final(s).active->0.pid())
            == fifo_step(ready_pids(*old(s)), old(s).active->0.pid()),
{
    let p = schedule(s);
    switch_to(s, p, m);
    proof {
        if old(s).active->0.prio() is Low {
            let cur = old(s).active->0;
            assert(ready_pids(*final(s)) =~= ready_pids(*old(s)).drop_first().push(cur.pid()));
        }
    }
}

/// The scheduler state — ready identifiers and active identifier — after
/// `k` consecutive hand-offs, each outgoing process re-entering the back
/// of the queue (the `Low` tier).
pub open spec fn fifo_trace(q: Seq<usize>, a: usize, k: nat) -> (Seq<usize>, usize)
    decreases k,
{
    if k == 0 {
        (q, a)
    } else {
        let prev = fifo_trace(q, a, (k - 1) as nat);
        fifo_step(prev.0, prev.1)
    }
}

/// After `k` hand-offs the queue holds, in order, the not-yet-visited
/// identifiers, then the originally active one, then those already
/// revisited — and the `k`-th hand-off activates the `k`-th queued
/// identifier.
pub proof fn lemma_fifo_trace(q: Seq<usize>, a: usize, k: nat)
    requires
        1 <= k <= q.len(),
    ensures
        fifo_trace(q, a, k).1 == q[k - 1],
        fifo_trace(q, a, k).0 == q.subrange(k as int, q.len() as int) + seq![a] + q.subrange(
            0,
            k - 1,
        ),
    decreases k,
{
    if k == 1 {
        assert(q.drop_first().push(a) =~= q.subrange(1, q.len() as int) + seq![a] + q.subrange(
            0,
            0,
        ));
    } else {
        lemma_fifo_trace(q, a, (k - 1) as nat);
        let prev = fifo_trace(q, a, (k - 1) as nat);
        assert(prev.0[0] == q[k - 1]);
        assert(prev.0.drop_first().push(prev.1) =~= q.subrange(k as int, q.len() as int)
            + seq![a] + q.subrange(0, k - 1));
    }
}

/// FIFO round-robin fairness: with `N` queued processes and no arrivals,
/// `N` consecutive hand-offs activate each queued identifier exactly
/// once, in queue order, before the rotation repeats.
pub proof fn lemma_fifo_fair(q: Seq<usize>, a: usize)
    requires
        q.len() >= 1,
    ensures
        forall|k: int|
            1 <= k <= q.len() ==> #[trigger] fifo_trace(q, a, k as nat).1 == q[k - 1],
{
    assert forall|k: int|
        1 <= k <= q.len() implies #[trigger] fifo_trace(q, a, k as nat).1 == q[k - 1] by {
        lemma_fifo_trace(q, a, k as nat);
    }
}

/// Priority ordering: a `High`-priority process entering the queue after a
/// `Low`-priority one still stands in front, so the next scheduling
/// decision selects it.
pub proof fn lemma_priority_ordering(q: Seq<Process>, lo: Process, hi: Process)
    requires
        lo.prio() is Low,
        hi.prio() is High,
    ensures
        enqueue_spec(enqueue_spec(q, lo), hi).len() > 0,
        enqueue_spec(enqueue_spec(q, lo), hi)[0] == hi,
{
}

} // verus!
