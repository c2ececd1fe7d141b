//! The process table: per-core running slots, a FIFO waiting queue, and the
//! round-robin scheduling pass.
//!
//! The table only decides. Saving and loading registers, masking interrupts
//! and reading the core number belong to the caller, which hands the core
//! number in and performs the context switch that a scheduling pass reports.

use vstd::prelude::*;
use crate::synchronization::{Mutex, SpinLock};

verus! {

/// Number of cores sharing the table.
pub const NUM_CORES: usize = 4;

/// Size in bytes of a task's stack.
pub const STACK_SIZE: usize = 65536;

/// Callee-saved registers, frame pointer, stack pointer and program counter
/// of a task that is not executing.
#[derive(Clone, Copy, Debug, PartialEq, Eq, Structural)]
pub struct CPUContext {
    pub x19: usize,
    pub x20: usize,
    pub x21: usize,
    pub x22: usize,
    pub x23: usize,
    pub x24: usize,
    pub x25: usize,
    pub x26: usize,
    pub x27: usize,
    pub x28: usize,
    pub fp: usize,
    pub sp: usize,
    pub pc: usize,
}

/// The all-zero context.
pub open spec fn zero_context() -> CPUContext {
    CPUContext {
        x19: 0,
        x20: 0,
        x21: 0,
        x22: 0,
        x23: 0,
        x24: 0,
        x25: 0,
        x26: 0,
        x27: 0,
        x28: 0,
        fp: 0,
        sp: 0,
        pc: 0,
    }
}

/// The context a fresh task starts from: the entry address in the register
/// that the trampoline reads, the trampoline as program counter and the top of
/// its own stack as stack pointer.
pub open spec fn bootstrap_context(entry: usize, trampoline: usize, stack_top: usize) -> CPUContext {
    CPUContext { x23: entry, pc: trampoline, sp: stack_top, ..zero_context() }
}

impl CPUContext {
    pub fn empty() -> (r: Self)
        ensures
            r == zero_context(),
    {
        CPUContext {
            x19: 0,
            x20: 0,
            x21: 0,
            x22: 0,
            x23: 0,
            x24: 0,
            x25: 0,
            x26: 0,
            x27: 0,
            x28: 0,
            fp: 0,
            sp: 0,
            pc: 0,
        }
    }

    /// Stores the entry address in the register the trampoline reads it from.
    pub fn set_entry(&mut self, entry: usize)
        ensures
            *final(self) == (CPUContext { x23: entry, ..*old(self) }),
    {
        self.x23 = entry;
    }

    pub fn set_pc(&mut self, pc: usize)
        ensures
            *final(self) == (CPUContext { pc: pc, ..*old(self) }),
    {
        self.pc = pc;
    }

    pub fn set_sp(&mut self, sp: usize)
        ensures
            *final(self) == (CPUContext { sp: sp, ..*old(self) }),
    {
        self.sp = sp;
    }
}

/// Life-cycle state of a task.
#[derive(Clone, Copy, Debug, PartialEq, Eq, Structural)]
pub enum TaskState {
    /// Placeholder of a blank control block; never seen on a live one.
    Unused,
    /// Reserved for blocking; nothing produces it.
    Sleeping,
    /// Executing on a core or eligible to be scheduled.
    Running,
    /// Returned from its entry function; waiting to be reclaimed.
    Zombie,
}

/// Memory for a task's stack, with the address just past its end.
pub struct TaskStack {
    pub memory: Vec<u8>,
    pub top: usize,
}

/// A process control block.
pub struct Process {
    pub ctx: CPUContext,
    pub state: TaskState,
    pub name: &'static str,
    pub pid: usize,
    /// `None` for a core's boot-time execution stream, which runs on the
    /// stack the core booted with.
    pub stack: Option<TaskStack>,
}

impl Process {
    /// A blank control block.
    pub fn empty() -> (r: Self)
        ensures
            r.ctx == zero_context(),
            r.state == TaskState::Unused,
            r.pid == 0,
            r.stack is None,
            r.name@ == Seq::<char>::empty(),
    {
        proof {
            reveal_strlit("");
        }
        Process { ctx: CPUContext::empty(), state: TaskState::Unused, name: "", pid: 0, stack: None }
    }
}

/// The control block that stands for a core's execution stream from before
/// the first switch.
pub open spec fn kernel_thread(pid: usize) -> Process {
    Process { ctx: zero_context(), state: TaskState::Running, name: "kthread", pid, stack: None }
}

/// The control block of a freshly created task.
pub open spec fn fresh_process(
    name: &'static str,
    pid: usize,
    entry: usize,
    trampoline: usize,
    stack: TaskStack,
) -> Process {
    Process {
        ctx: bootstrap_context(entry, trampoline, stack.top),
        state: TaskState::Running,
        name,
        pid,
        stack: Some(stack),
    }
}

/// The queue with every zombie taken out, the others in their order.
pub open spec fn live(s: Seq<Process>) -> Seq<Process>
    decreases s.len(),
{
    if s.len() == 0 {
        s
    } else if s.last().state == TaskState::Zombie {
        live(s.drop_last())
    } else {
        live(s.drop_last()).push(s.last())
    }
}

/// How many zombies the queue holds.
pub open spec fn zombie_count(s: Seq<Process>) -> nat
    decreases s.len(),
{
    if s.len() == 0 {
        0
    } else if s.last().state == TaskState::Zombie {
        zombie_count(s.drop_last()) + 1
    } else {
        zombie_count(s.drop_last())
    }
}

/// A switch that a scheduling pass decided on: the caller saves the current
/// registers into `prev_pid`'s context and loads `next_pid`'s.
#[derive(Clone, Copy, Debug, PartialEq, Eq, Structural)]
pub struct ContextSwitch {
    pub prev_pid: usize,
    pub next_pid: usize,
}

/// One empty slot per core.
pub open spec fn empty_slots() -> Seq<Option<Process>> {
    Seq::new(NUM_CORES as nat, |i: int| None::<Process>)
}

/// No two control blocks of `s` share a pid.
pub open spec fn distinct_pids(s: Seq<Process>) -> bool {
    forall|i: int, j: int| #![trigger s[i], s[j]] 0 <= i < j < s.len() ==> s[i].pid != s[j].pid
}

/// The abstract state of the table.
pub struct TableModel {
    /// Pids issued so far; the last one issued equals it.
    pub num_procs: nat,
    pub trampoline: usize,
    /// Tasks not running on any core, head first.
    pub waiting: Seq<Process>,
    /// Per core, the task executing there.
    pub running: Seq<Option<Process>>,
    /// Per core, a task that exited there and that a pass has switched away
    /// from. Its stack was still in use during that switch; the next pass,
    /// on any core, frees it.
    pub retired: Seq<Option<Process>>,
}

impl TableModel {
    pub open spec fn pid_in_range(self, p: Process) -> bool {
        1 <= p.pid <= self.num_procs
    }

    /// Slot lengths, pids issued by the counter, retired tasks are zombies,
    /// and every control block in exactly one place: no pid occurs twice
    /// across the queue, the running slots and the retired slots.
    pub open spec fn wf(self) -> bool {
        &&& self.running.len() == NUM_CORES
        &&& self.retired.len() == NUM_CORES
        &&& forall|i: int| 0 <= i < self.waiting.len() ==> self.pid_in_range(#[trigger] self.waiting[i])
        &&& forall|c: int|
            0 <= c < NUM_CORES && (#[trigger] self.running[c]) is Some ==> self.pid_in_range(self.running[c]->Some_0)
        &&& forall|c: int|
            0 <= c < NUM_CORES && (#[trigger] self.retired[c]) is Some ==> self.pid_in_range(self.retired[c]->Some_0)
                && self.retired[c]->Some_0.state == TaskState::Zombie
        &&& distinct_pids(self.waiting)
        &&& forall|c: int, i: int|
            #![trigger self.running[c], self.waiting[i]]
            0 <= c < NUM_CORES && 0 <= i < self.waiting.len() && self.running[c] is Some
                ==> self.running[c]->Some_0.pid != self.waiting[i].pid
        &&& forall|c: int, i: int|
            #![trigger self.retired[c], self.waiting[i]]
            0 <= c < NUM_CORES && 0 <= i < self.waiting.len() && self.retired[c] is Some
                ==> self.retired[c]->Some_0.pid != self.waiting[i].pid
        &&& forall|c: int, d: int|
            #![trigger self.running[c], self.running[d]]
            0 <= c < NUM_CORES && 0 <= d < NUM_CORES && c != d && self.running[c] is Some && self.running[d] is Some
                ==> self.running[c]->Some_0.pid != self.running[d]->Some_0.pid
        &&& forall|c: int, d: int|
            #![trigger self.retired[c], self.retired[d]]
            0 <= c < NUM_CORES && 0 <= d < NUM_CORES && c != d && self.retired[c] is Some && self.retired[d] is Some
                ==> self.retired[c]->Some_0.pid != self.retired[d]->Some_0.pid
        &&& forall|c: int, d: int|
            #![trigger self.running[c], self.retired[d]]
            0 <= c < NUM_CORES && 0 <= d < NUM_CORES && self.running[c] is Some && self.retired[d] is Some
                ==> self.running[c]->Some_0.pid != self.retired[d]->Some_0.pid
    }

    /// Whether core `c` has a running slot that holds a task.
    pub open spec fn core_ready(self, c: int) -> bool {
        0 <= c < NUM_CORES && self.running.len() == NUM_CORES && self.running[c] is Some
    }

    /// Installs a control block for core `c`'s boot-time execution stream.
    pub open spec fn init_core(self, c: int) -> TableModel {
        TableModel {
            num_procs: self.num_procs + 1,
            running: self.running.update(c, Some(kernel_thread((self.num_procs + 1) as usize))),
            ..self
        }
    }

    /// Appends a fresh task to the tail of the waiting queue.
    pub open spec fn new_process(
        self,
        name: &'static str,
        entry: usize,
        stack: TaskStack,
    ) -> TableModel {
        TableModel {
            num_procs: self.num_procs + 1,
            waiting: self.waiting.push(
                fresh_process(name, (self.num_procs + 1) as usize, entry, self.trampoline, stack),
            ),
            ..self
        }
    }

    /// One scheduling pass on core `c`. First reclamation: the retired tasks
    /// are freed and any zombie in the waiting queue is removed. Then, if a
    /// task is left in the queue, its head runs on `c`; the task that ran
    /// there goes to the tail of the queue, or, if it has exited, to `c`'s
    /// retired slot, never back into the queue.
    pub open spec fn schedule(self, c: int) -> TableModel {
        let w = live(self.waiting);
        let prev = self.running[c]->Some_0;
        if w.len() == 0 {
            TableModel { waiting: w, retired: empty_slots(), ..self }
        } else if prev.state == TaskState::Zombie {
            TableModel {
                waiting: w.drop_first(),
                running: self.running.update(c, Some(w[0])),
                retired: empty_slots().update(c, Some(prev)),
                ..self
            }
        } else {
            TableModel {
                waiting: w.drop_first().push(prev),
                running: self.running.update(c, Some(w[0])),
                retired: empty_slots(),
                ..self
            }
        }
    }

    /// The switch that a scheduling pass on core `c` performs, if any.
    pub open spec fn switch_of(self, c: int) -> Option<ContextSwitch> {
        let w = live(self.waiting);
        if w.len() == 0 {
            None
        } else {
            Some(ContextSwitch { prev_pid: self.running[c]->Some_0.pid, next_pid: w[0].pid })
        }
    }

    /// Marks the task running on core `c` as a zombie.
    pub open spec fn mark_zombie(self, c: int) -> TableModel {
        let p = self.running[c]->Some_0;
        TableModel {
            running: self.running.update(c, Some(Process { state: TaskState::Zombie, ..p })),
            ..self
        }
    }

    /// The task on core `c` has returned: it becomes a zombie and the core
    /// schedules.
    pub open spec fn exit(self, c: int) -> TableModel {
        self.mark_zombie(c).schedule(c)
    }
}

/// Every element of `live(s)` is a non-zombie element of `s`.
pub proof fn lemma_live_elements(s: Seq<Process>)
    ensures
        live(s).len() <= s.len(),
        live(s).len() + zombie_count(s) == s.len(),
        forall|i: int| 0 <= i < live(s).len() ==> s.contains(#[trigger] live(s)[i]),
        forall|i: int| 0 <= i < live(s).len() ==> (#[trigger] live(s)[i]).state != TaskState::Zombie,
    decreases s.len(),
{
    if s.len() > 0 {
        let d = s.drop_last();
        lemma_live_elements(d);
        assert forall|i: int| 0 <= i < live(s).len() implies s.contains(#[trigger] live(s)[i]) by {
            if i < live(d).len() {
                let j = choose|j: int| 0 <= j < d.len() && d[j] == live(d)[i];
                assert(s[j] == d[j]);
            } else {
                assert(s[s.len() - 1] == s.last());
            }
        }
    }
}

/// Without zombies, reclaiming changes nothing.
pub proof fn lemma_live_no_zombies(s: Seq<Process>)
    requires
        forall|i: int| 0 <= i < s.len() ==> (#[trigger] s[i]).state != TaskState::Zombie,
    ensures
        live(s) == s,
    decreases s.len(),
{
    if s.len() > 0 {
        let d = s.drop_last();
        assert forall|i: int| 0 <= i < d.len() implies (#[trigger] d[i]).state != TaskState::Zombie by {
            assert(d[i] == s[i]);
        }
        lemma_live_no_zombies(d);
        assert(s.last() == s[s.len() - 1]);
        assert(d.push(s.last()) =~= s);
    }
}

/// Reclaiming keeps pids distinct.
pub proof fn lemma_live_distinct(s: Seq<Process>)
    requires
        distinct_pids(s),
    ensures
        distinct_pids(live(s)),
    decreases s.len(),
{
    if s.len() > 0 {
        let d = s.drop_last();
        assert(distinct_pids(d)) by {
            assert forall|i: int, j: int| #![trigger d[i], d[j]] 0 <= i < j < d.len() implies d[i].pid != d[j].pid by {
                assert(d[i] == s[i] && d[j] == s[j]);
            }
        }
        lemma_live_distinct(d);
        lemma_live_elements(d);
        let l = live(s);
        if s.last().state != TaskState::Zombie {
            assert forall|i: int, j: int| #![trigger l[i], l[j]] 0 <= i < j < l.len() implies l[i].pid != l[j].pid by {
                if j == l.len() - 1 {
                    assert(l[j] == s[s.len() - 1]);
                    assert(d.contains(live(d)[i]));
                    let k = choose|k: int| 0 <= k < d.len() && d[k] == live(d)[i];
                    assert(s[k] == d[k]);
                } else {
                    assert(l[i] == live(d)[i] && l[j] == live(d)[j]);
                }
            }
        }
    }
}

/// Registering a core's execution stream in a free slot keeps the table well
/// formed.
pub proof fn lemma_wf_init_core(m: TableModel, c: int)
    requires
        m.wf(),
        0 <= c < NUM_CORES,
        m.running[c] is None,
        m.num_procs < usize::MAX,
    ensures
        m.init_core(c).wf(),
        m.init_core(c).core_ready(c),
{
    let r = m.init_core(c);
    assert forall|d: int| 0 <= d < NUM_CORES && (#[trigger] r.running[d]) is Some implies r.pid_in_range(r.running[d]->Some_0) by {
        if d != c {
            assert(r.running[d] == m.running[d]);
        }
    }
    assert forall|d: int, i: int|
        #![trigger r.running[d], r.waiting[i]]
        0 <= d < NUM_CORES && 0 <= i < r.waiting.len() && r.running[d] is Some implies r.running[d]->Some_0.pid
            != r.waiting[i].pid by {
        if d != c {
            assert(r.running[d] == m.running[d]);
        } else {
            assert(m.pid_in_range(m.waiting[i]));
        }
    }
    assert forall|d: int, e: int|
        #![trigger r.running[d], r.running[e]]
        0 <= d < NUM_CORES && 0 <= e < NUM_CORES && d != e && r.running[d] is Some && r.running[e] is Some implies r.running[d]->Some_0.pid
            != r.running[e]->Some_0.pid by {
        if d != c && e != c {
            assert(r.running[d] == m.running[d] && r.running[e] == m.running[e]);
        } else if d == c {
            assert(r.running[e] == m.running[e]);
            assert(m.pid_in_range(m.running[e]->Some_0));
        } else {
            assert(r.running[d] == m.running[d]);
            assert(m.pid_in_range(m.running[d]->Some_0));
        }
    }
    assert forall|d: int, e: int|
        #![trigger r.running[d], r.retired[e]]
        0 <= d < NUM_CORES && 0 <= e < NUM_CORES && r.running[d] is Some && r.retired[e] is Some implies r.running[d]->Some_0.pid
            != r.retired[e]->Some_0.pid by {
        if d != c {
            assert(r.running[d] == m.running[d]);
        } else {
            assert(m.pid_in_range(m.retired[e]->Some_0));
        }
    }
}

/// Creating a task keeps the table well formed.
pub proof fn lemma_wf_new_process(m: TableModel, name: &'static str, entry: usize, stack: TaskStack)
    requires
        m.wf(),
        m.num_procs < usize::MAX,
    ensures
        m.new_process(name, entry, stack).wf(),
{
    let r = m.new_process(name, entry, stack);
    let n = m.waiting.len() as int;
    assert forall|i: int| 0 <= i < r.waiting.len() implies r.pid_in_range(#[trigger] r.waiting[i]) by {
        if i < n {
            assert(r.waiting[i] == m.waiting[i]);
        }
    }
    assert forall|i: int, j: int| #![trigger r.waiting[i], r.waiting[j]] 0 <= i < j < r.waiting.len() implies r.waiting[i].pid
        != r.waiting[j].pid by {
        assert(r.waiting[i] == m.waiting[i]);
        if j < n {
            assert(r.waiting[j] == m.waiting[j]);
        } else {
            assert(m.pid_in_range(m.waiting[i]));
        }
    }
    assert forall|c: int, i: int|
        #![trigger r.running[c], r.waiting[i]]
        0 <= c < NUM_CORES && 0 <= i < r.waiting.len() && r.running[c] is Some implies r.running[c]->Some_0.pid
            != r.waiting[i].pid by {
        if i < n {
            assert(r.waiting[i] == m.waiting[i]);
        } else {
            assert(m.pid_in_range(m.running[c]->Some_0));
        }
    }
    assert forall|c: int, i: int|
        #![trigger r.retired[c], r.waiting[i]]
        0 <= c < NUM_CORES && 0 <= i < r.waiting.len() && r.retired[c] is Some implies r.retired[c]->Some_0.pid
            != r.waiting[i].pid by {
        if i < n {
            assert(r.waiting[i] == m.waiting[i]);
        } else {
            assert(m.pid_in_range(m.retired[c]->Some_0));
        }
    }
}

/// Marking the task on a core as a zombie keeps the table well formed.
pub proof fn lemma_wf_mark_zombie(m: TableModel, c: int)
    requires
        m.wf(),
        m.core_ready(c),
    ensures
        m.mark_zombie(c).wf(),
        m.mark_zombie(c).core_ready(c),
{
    let r = m.mark_zombie(c);
    assert forall|d: int| #[trigger] r.running[d] is Some && 0 <= d < NUM_CORES implies r.running[d]->Some_0.pid
        == m.running[d]->Some_0.pid && m.running[d] is Some by {}
}

/// A scheduling pass keeps the table well formed, and the core keeps a task.
pub proof fn lemma_wf_schedule(m: TableModel, c: int)
    requires
        m.wf(),
        m.core_ready(c),
    ensures
        m.schedule(c).wf(),
        m.schedule(c).core_ready(c),
{
    let w = live(m.waiting);
    lemma_live_elements(m.waiting);
    lemma_live_distinct(m.waiting);
    let r = m.schedule(c);
    let prev = m.running[c]->Some_0;
    assert forall|i: int| 0 <= i < w.len() implies exists|k: int| 0 <= k < m.waiting.len() && m.waiting[k] == #[trigger] w[i] by {
        assert(m.waiting.contains(w[i]));
    }
    if w.len() > 0 {
        let next = w[0];
        let k0 = choose|k: int| 0 <= k < m.waiting.len() && m.waiting[k] == w[0];
        assert(m.pid_in_range(next));
        assert(next.pid != prev.pid);
        let zombie = prev.state == TaskState::Zombie;
        let rest = w.drop_first();
        assert forall|i: int| 0 <= i < r.waiting.len() implies r.pid_in_range(#[trigger] r.waiting[i]) by {
            if i < rest.len() {
                assert(r.waiting[i] == w[i + 1]);
                let k = choose|k: int| 0 <= k < m.waiting.len() && m.waiting[k] == w[i + 1];
            }
        }
        assert forall|i: int, j: int| #![trigger r.waiting[i], r.waiting[j]] 0 <= i < j < r.waiting.len() implies r.waiting[i].pid
            != r.waiting[j].pid by {
            assert(r.waiting[i] == w[i + 1]);
            if j < rest.len() {
                assert(r.waiting[j] == w[j + 1]);
            } else {
                let k = choose|k: int| 0 <= k < m.waiting.len() && m.waiting[k] == w[i + 1];
                assert(m.running[c]->Some_0.pid != m.waiting[k].pid);
            }
        }
        assert forall|d: int, i: int|
            #![trigger r.running[d], r.waiting[i]]
            0 <= d < NUM_CORES && 0 <= i < r.waiting.len() && r.running[d] is Some implies r.running[d]->Some_0.pid
                != r.waiting[i].pid by {
            if i < rest.len() {
                assert(r.waiting[i] == w[i + 1]);
                let k = choose|k: int| 0 <= k < m.waiting.len() && m.waiting[k] == w[i + 1];
                if d != c {
                    assert(r.running[d] == m.running[d]);
                    assert(m.running[d]->Some_0.pid != m.waiting[k].pid);
                }
            } else {
                if d != c {
                    assert(r.running[d] == m.running[d]);
                }
            }
        }
        assert forall|d: int, i: int|
            #![trigger r.retired[d], r.waiting[i]]
            0 <= d < NUM_CORES && 0 <= i < r.waiting.len() && r.retired[d] is Some implies r.retired[d]->Some_0.pid
                != r.waiting[i].pid by {
            assert(d == c && zombie);
            assert(r.waiting[i] == w[i + 1]);
            let k = choose|k: int| 0 <= k < m.waiting.len() && m.waiting[k] == w[i + 1];
            assert(m.running[c]->Some_0.pid != m.waiting[k].pid);
        }
        assert forall|d: int| 0 <= d < NUM_CORES && (#[trigger] r.running[d]) is Some implies r.pid_in_range(r.running[d]->Some_0) by {
            if d != c {
                assert(r.running[d] == m.running[d]);
            }
        }
        assert forall|d: int, e: int|
            #![trigger r.running[d], r.running[e]]
            0 <= d < NUM_CORES && 0 <= e < NUM_CORES && d != e && r.running[d] is Some && r.running[e] is Some implies r.running[d]->Some_0.pid
                != r.running[e]->Some_0.pid by {
            if d == c {
                assert(r.running[e] == m.running[e]);
                assert(m.running[e]->Some_0.pid != m.waiting[k0].pid);
            } else if e == c {
                assert(r.running[d] == m.running[d]);
                assert(m.running[d]->Some_0.pid != m.waiting[k0].pid);
            } else {
                assert(r.running[d] == m.running[d] && r.running[e] == m.running[e]);
            }
        }
        assert forall|d: int, e: int|
            #![trigger r.running[d], r.retired[e]]
            0 <= d < NUM_CORES && 0 <= e < NUM_CORES && r.running[d] is Some && r.retired[e] is Some implies r.running[d]->Some_0.pid
                != r.retired[e]->Some_0.pid by {
            assert(e == c);
            if d != c {
                assert(r.running[d] == m.running[d]);
            }
        }
        assert forall|d: int| 0 <= d < NUM_CORES && (#[trigger] r.retired[d]) is Some implies r.pid_in_range(r.retired[d]->Some_0)
            && r.retired[d]->Some_0.state == TaskState::Zombie by {
            assert(d == c);
        }
    }
}

/// Appends `p` to the tail of the queue.
pub fn add_proc(list: &mut Vec<Process>, p: Process)
    ensures
        final(list)@ == old(list)@.push(p),
{
    list.push(p);
}

/// Takes the head off the queue.
pub fn get_first(list: &mut Vec<Process>) -> (r: Option<Process>)
    ensures
        old(list)@.len() == 0 ==> r is None && final(list)@ == old(list)@,
        old(list)@.len() > 0 ==> r == Some(old(list)@[0]) && final(list)@ == old(list)@.drop_first(),
{
    if list.len() == 0 {
        None
    } else {
        Some(list.remove(0))
    }
}

/// Removes every zombie from the queue, keeping the order of the others, and
/// returns how many it removed.
pub fn remove_zombies(list: &mut Vec<Process>) -> (r: usize)
    ensures
        final(list)@ == live(old(list)@),
        r == zombie_count(old(list)@),
{
    let ghost orig = list@;
    let ghost total = list.len();
    let mut i: usize = 0;
    let mut removed: usize = 0;
    let ghost mut k: int = 0;
    proof {
        assert(orig.take(0) =~= Seq::<Process>::empty());
        assert(orig.skip(0) =~= orig);
        assert(live(orig.take(0)) + orig.skip(0) =~= orig);
    }
    while i < list.len()
        invariant
            0 <= k <= orig.len(),
            orig.len() == total,
            i as int == live(orig.take(k)).len(),
            list@ == live(orig.take(k)) + orig.skip(k),
            removed as int == zombie_count(orig.take(k)),
            removed as int + i as int == k,
        decreases list.len() - i,
    {
        proof {
            assert(list@[i as int] == orig[k]);
            let t = orig.take(k + 1);
            assert(t.drop_last() =~= orig.take(k));
            assert(t.last() == orig[k]);
            lemma_live_elements(orig.take(k));
        }
        if list[i].state == TaskState::Zombie {
            let _gone = list.remove(i);
            removed = removed + 1;
            proof {
                assert(list@ =~= live(orig.take(k + 1)) + orig.skip(k + 1));
            }
        } else {
            i = i + 1;
            proof {
                assert(list@ =~= live(orig.take(k + 1)) + orig.skip(k + 1));
            }
        }
        proof {
            k = k + 1;
        }
    }
    proof {
        assert(orig.take(k) =~= orig);
        assert(list@ =~= live(orig));
    }
    removed
}


/// What a core's running slot holds, for a report.
#[derive(Clone, Copy, Debug)]
pub struct ProcessInfo {
    pub pid: usize,
    pub name: &'static str,
    pub sp: usize,
    pub state: TaskState,
}

pub open spec fn info_of(p: Process) -> ProcessInfo {
    ProcessInfo { pid: p.pid, name: p.name, sp: p.ctx.sp, state: p.state }
}

/// A snapshot of the table for display: each core's running task, then the
/// waiting queue from head to tail.
pub struct TableReport {
    pub running: Vec<Option<ProcessInfo>>,
    pub waiting: Vec<ProcessInfo>,
}

impl TableReport {
    pub open spec fn describes(&self, m: TableModel) -> bool {
        &&& self.running@.len() == m.running.len()
        &&& forall|c: int|
            0 <= c < m.running.len() ==> #[trigger] self.running@[c] == match m.running[c] {
                Some(p) => Some(info_of(p)),
                None => None,
            }
        &&& self.waiting@.len() == m.waiting.len()
        &&& forall|i: int| 0 <= i < m.waiting.len() ==> #[trigger] self.waiting@[i] == info_of(m.waiting[i])
    }
}

fn info(p: &Process) -> (r: ProcessInfo)
    ensures
        r == info_of(*p),
{
    ProcessInfo { pid: p.pid, name: p.name, sp: p.ctx.sp, state: p.state }
}

/// The table's data, to be accessed only with its lock held.
pub struct PTableInner {
    pub num_procs: usize,
    pub trampoline: usize,
    pub head: Vec<Process>,
    pub running: Vec<Option<Process>>,
    pub retired: Vec<Option<Process>>,
}

impl PTableInner {
    pub open spec fn model(&self) -> TableModel {
        TableModel {
            num_procs: self.num_procs as nat,
            trampoline: self.trampoline,
            waiting: self.head@,
            running: self.running@,
            retired: self.retired@,
        }
    }

    /// An empty table; fresh tasks will start at `trampoline`.
    pub fn new(trampoline: usize) -> (r: Self)
        ensures
            r.model().wf(),
            r.model().num_procs == 0,
            r.model().trampoline == trampoline,
            r.model().waiting.len() == 0,
            r.model().running == empty_slots(),
            r.model().retired == empty_slots(),
    {
        let r = PTableInner {
            num_procs: 0,
            trampoline,
            head: Vec::new(),
            running: vec![None, None, None, None],
            retired: vec![None, None, None, None],
        };
        proof {
            assert(r.running@ =~= empty_slots());
            assert(r.retired@ =~= empty_slots());
        }
        r
    }

    /// Installs the control block of core `core`'s boot-time execution
    /// stream in its (empty) running slot, with the next pid.
    pub fn init_core_inner(&mut self, core: usize)
        requires
            old(self).model().wf(),
            core < NUM_CORES,
            old(self).model().running[core as int] is None,
            old(self).num_procs < usize::MAX,
        ensures
            final(self).model() == old(self).model().init_core(core as int),
            final(self).model().wf(),
            final(self).model().core_ready(core as int),
    {
        let pid = self.num_procs + 1;
        let init_proc = Process {
            ctx: CPUContext::empty(),
            state: TaskState::Running,
            name: "kthread",
            pid,
            stack: None,
        };
        self.running.set(core, Some(init_proc));
        self.num_procs = pid;
        proof {
            assert(self.model().running =~= old(self).model().init_core(core as int).running);
            lemma_wf_init_core(old(self).model(), core as int);
        }
    }

    /// Appends a task that will start at `entry` on `stack` to the tail of the
    /// waiting queue, with the next pid.
    pub fn new_process_inner(&mut self, name: &'static str, entry: usize, stack: TaskStack)
        requires
            old(self).model().wf(),
            old(self).num_procs < usize::MAX,
            stack.memory@.len() == STACK_SIZE,
        ensures
            final(self).model() == old(self).model().new_process(name, entry, stack),
            final(self).model().wf(),
    {
        let mut ctx = CPUContext::empty();
        ctx.set_entry(entry);
        ctx.set_pc(self.trampoline);
        ctx.set_sp(stack.top);
        let pid = self.num_procs + 1;
        let new_proc = Process { ctx, state: TaskState::Running, name, pid, stack: Some(stack) };
        self.num_procs = pid;
        add_proc(&mut self.head, new_proc);
        proof {
            lemma_wf_new_process(old(self).model(), name, entry, stack);
        }
    }

    /// One scheduling pass on core `core`. Returns the switch the caller must
    /// perform, if any.
    pub fn schedule_inner(&mut self, core: usize) -> (r: Option<ContextSwitch>)
        requires
            old(self).model().wf(),
            old(self).model().core_ready(core as int),
        ensures
            final(self).model() == old(self).model().schedule(core as int),
            r == old(self).model().switch_of(core as int),
            final(self).model().wf(),
            final(self).model().core_ready(core as int),
    {
        let ghost m = self.model();
        proof {
            lemma_wf_schedule(m, core as int);
        }
        remove_zombies(&mut self.head);
        self.retired = vec![None, None, None, None];
        proof {
            assert(self.retired@ =~= empty_slots());
        }
        match get_first(&mut self.head) {
            None => None,
            Some(next) => {
                let next_pid = next.pid;
                let mut prev = Some(next);
                std::mem::swap(&mut self.running[core], &mut prev);
                match prev {
                    Some(prev) => {
                        let prev_pid = prev.pid;
                        if prev.state == TaskState::Zombie {
                            self.retired.set(core, Some(prev));
                        } else {
                            add_proc(&mut self.head, prev);
                        }
                        proof {
                            let post = m.schedule(core as int);
                            assert(self.model().running =~= post.running);
                            assert(self.model().waiting =~= post.waiting);
                            assert(self.model().retired =~= post.retired);
                        }
                        Some(ContextSwitch { prev_pid, next_pid })
                    },
                    None => {
                        proof {
                            assert(false);
                        }
                        None
                    },
                }
            },
        }
    }

    /// Marks the task running on core `core` as a zombie.
    pub fn exit_current_process(&mut self, core: usize)
        requires
            old(self).model().wf(),
            old(self).model().core_ready(core as int),
        ensures
            final(self).model() == old(self).model().mark_zombie(core as int),
            final(self).model().wf(),
            final(self).model().core_ready(core as int),
    {
        let mut slot: Option<Process> = None;
        std::mem::swap(&mut self.running[core], &mut slot);
        match slot {
            Some(mut p) => {
                p.state = TaskState::Zombie;
                let mut back = Some(p);
                std::mem::swap(&mut self.running[core], &mut back);
                proof {
                    assert(self.model().running =~= old(self).model().mark_zombie(core as int).running);
                    lemma_wf_mark_zombie(old(self).model(), core as int);
                }
            },
            None => {},
        }
    }

    /// The table's contents, for display.
    pub fn print(&self) -> (r: TableReport)
        ensures
            r.describes(self.model()),
    {
        let mut running: Vec<Option<ProcessInfo>> = Vec::new();
        let mut c: usize = 0;
        while c < self.running.len()
            invariant
                c <= self.running@.len(),
                running@.len() == c,
                forall|j: int| 0 <= j < c ==> #[trigger] running@[j] == match self.running@[j] {
                    Some(p) => Some(info_of(p)),
                    None => None,
                },
            decreases self.running.len() - c,
        {
            match &self.running[c] {
                Some(p) => running.push(Some(info(p))),
                None => running.push(None),
            }
            c = c + 1;
        }
        let mut waiting: Vec<ProcessInfo> = Vec::new();
        let mut i: usize = 0;
        while i < self.head.len()
            invariant
                i <= self.head@.len(),
                waiting@.len() == i,
                forall|j: int| 0 <= j < i ==> #[trigger] waiting@[j] == info_of(self.head@[j]),
            decreases self.head.len() - i,
        {
            waiting.push(info(&self.head[i]));
            i = i + 1;
        }
        TableReport { running, waiting }
    }
}

/// The shared process table: its data behind one spin lock.
///
/// Every operation takes the lock, which its caller has waited for: the lock
/// must be free when the operation starts. A scheduling pass that decides on
/// a switch returns with the lock still held: the task switched to releases
/// it (a fresh task in its trampoline through [`PTable::unlock`], a resumed
/// one when its own pass ends). Every other operation releases it.
pub struct PTable {
    inner: SpinLock<PTableInner>,
}

impl PTable {
    /// The abstract state of the table.
    pub closed spec fn model(&self) -> TableModel {
        self.inner.value().model()
    }

    /// Whether the table's lock is held.
    pub closed spec fn is_locked(&self) -> bool {
        self.inner.is_locked()
    }

    /// An empty table with a free lock; fresh tasks will start at
    /// `trampoline`.
    pub fn new(trampoline: usize) -> (r: Self)
        ensures
            !r.is_locked(),
            r.model().wf(),
            r.model().num_procs == 0,
            r.model().trampoline == trampoline,
            r.model().waiting.len() == 0,
            r.model().running == empty_slots(),
            r.model().retired == empty_slots(),
    {
        PTable { inner: SpinLock::new(PTableInner::new(trampoline)) }
    }

    /// Read access to the table's data.
    pub fn table(&self) -> (r: &PTableInner)
        ensures
            r.model() == self.model(),
    {
        self.inner.get_data()
    }

    /// Whether core `core` has a task in its running slot.
    pub fn is_core_ready(&self, core: usize) -> (r: bool)
        requires
            self.model().wf(),
        ensures
            r == self.model().core_ready(core as int),
    {
        let t = self.inner.get_data();
        core < t.running.len() && t.running[core].is_some()
    }

    /// Whether the table's lock is held.
    pub fn is_held(&self) -> (r: bool)
        ensures
            r == self.is_locked(),
    {
        self.inner.is_held()
    }

    /// Whether another pid can still be issued.
    pub fn can_issue_pid(&self) -> (r: bool)
        ensures
            r == (self.model().num_procs < usize::MAX),
    {
        self.inner.get_data().num_procs < usize::MAX
    }

    /// Registers core `core`'s boot-time execution stream in its running
    /// slot, which must still be empty.
    pub fn init_core(&mut self, core: usize)
        requires
            old(self).model().wf(),
            !old(self).is_locked(),
            core < NUM_CORES,
            old(self).model().running[core as int] is None,
            old(self).model().num_procs < usize::MAX,
        ensures
            final(self).model() == old(self).model().init_core(core as int),
            final(self).model().wf(),
            final(self).model().core_ready(core as int),
            !final(self).is_locked(),
    {
        self.inner.try_lock();
        let table = self.inner.get_data_mut();
        table.init_core_inner(core);
        self.inner.unlock();
    }

    /// Creates a task that will start at `entry` on `stack`, at the tail of
    /// the waiting queue.
    pub fn new_process(&mut self, name: &'static str, entry: usize, stack: TaskStack)
        requires
            old(self).model().wf(),
            !old(self).is_locked(),
            old(self).model().num_procs < usize::MAX,
            stack.memory@.len() == STACK_SIZE,
        ensures
            final(self).model() == old(self).model().new_process(name, entry, stack),
            final(self).model().wf(),
            !final(self).is_locked(),
    {
        self.inner.try_lock();
        let table = self.inner.get_data_mut();
        table.new_process_inner(name, entry, stack);
        self.inner.unlock();
    }

    /// A scheduling pass on core `core`. On a switch the lock stays held for
    /// the task switched to; otherwise it is released.
    pub fn schedule(&mut self, core: usize) -> (r: Option<ContextSwitch>)
        requires
            old(self).model().wf(),
            !old(self).is_locked(),
            old(self).model().core_ready(core as int),
        ensures
            final(self).model() == old(self).model().schedule(core as int),
            r == old(self).model().switch_of(core as int),
            final(self).is_locked() == (r is Some),
            final(self).model().wf(),
            final(self).model().core_ready(core as int),
    {
        self.inner.try_lock();
        let table = self.inner.get_data_mut();
        let switch = table.schedule_inner(core);
        if switch.is_none() {
            self.inner.unlock();
        }
        switch
    }

    /// The task on core `core` has returned from its entry function: it
    /// becomes a zombie and the core schedules. If the pass switches away,
    /// the zombie goes to the core's retired slot, since its stack is in use
    /// until that switch is complete; the next pass frees it.
    pub fn exit(&mut self, core: usize) -> (r: Option<ContextSwitch>)
        requires
            old(self).model().wf(),
            !old(self).is_locked(),
            old(self).model().core_ready(core as int),
        ensures
            final(self).model() == old(self).model().exit(core as int),
            r == old(self).model().mark_zombie(core as int).switch_of(core as int),
            final(self).is_locked() == (r is Some),
            final(self).model().wf(),
            final(self).model().core_ready(core as int),
    {
        self.inner.try_lock();
        let table = self.inner.get_data_mut();
        table.exit_current_process(core);
        self.inner.unlock();
        self.schedule(core)
    }

    /// The table's contents, for display.
    pub fn print(&mut self) -> (r: TableReport)
        requires
            !old(self).is_locked(),
        ensures
            r.describes(old(self).model()),
            final(self).model() == old(self).model(),
            !final(self).is_locked(),
    {
        self.inner.try_lock();
        let report = self.inner.get_data().print();
        self.inner.unlock();
        report
    }

    /// Releases the lock that a scheduling pass left held.
    pub fn unlock(&mut self)
        requires
            old(self).is_locked(),
        ensures
            !final(self).is_locked(),
            final(self).model() == old(self).model(),
    {
        self.inner.unlock();
    }
}

} // verus!
