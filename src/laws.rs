//! Facts about sequences of table operations, proved over the table model.

use vstd::prelude::*;
use crate::scheduler::{
    empty_slots, lemma_live_elements, lemma_live_no_zombies, lemma_wf_init_core, lemma_wf_new_process, lemma_wf_schedule, live,
    zombie_count, Process, TableModel, TaskStack, TaskState, NUM_CORES,
};

verus! {

/// A request to create a task: its name, entry address and stack.
pub struct TaskRequest {
    pub name: &'static str,
    pub entry: usize,
    pub stack: TaskStack,
}

/// The table after creating the requested tasks one after the other.
pub open spec fn create_all(m: TableModel, reqs: Seq<TaskRequest>) -> TableModel
    decreases reqs.len(),
{
    if reqs.len() == 0 {
        m
    } else {
        let r = reqs.last();
        create_all(m, reqs.drop_last()).new_process(r.name, r.entry, r.stack)
    }
}

/// Creating a task keeps the table well formed, and the pid it issues is
/// larger than every pid issued before it.
pub proof fn lemma_new_pid_is_largest(m: TableModel, name: &'static str, entry: usize, stack: TaskStack)
    requires
        m.wf(),
        m.num_procs < usize::MAX,
    ensures
        ({
            let m1 = m.new_process(name, entry, stack);
            &&& m1.wf()
            &&& m1.num_procs == m.num_procs + 1
            &&& m1.waiting.last().pid == m1.num_procs
            &&& forall|i: int| 0 <= i < m.waiting.len() ==> #[trigger] m.waiting[i].pid < m1.waiting.last().pid
            &&& forall|c: int|
                0 <= c < NUM_CORES && (#[trigger] m.running[c]) is Some ==> m.running[c]->Some_0.pid
                    < m1.waiting.last().pid
        }),
{
    lemma_wf_new_process(m, name, entry, stack);
}

/// No operation lowers the pid counter: initialising a core and creating a
/// task each issue the next pid, scheduling and exiting issue none. So every
/// pid issued so far, whether its task still exists or was reclaimed, is at
/// most the counter, and the next pid exceeds them all.
pub proof fn lemma_pid_counter_monotonic(m: TableModel, c: int, name: &'static str, entry: usize, stack: TaskStack)
    ensures
        m.init_core(c).num_procs == m.num_procs + 1,
        m.new_process(name, entry, stack).num_procs == m.num_procs + 1,
        m.schedule(c).num_procs == m.num_procs,
        m.exit(c).num_procs == m.num_procs,
{
}

/// One operation on the table.
pub enum TableOp {
    InitCore(int),
    NewProcess(TaskRequest),
    Schedule(int),
    Exit(int),
}

/// Whether the operation issues a pid.
pub open spec fn issues_pid(op: TableOp) -> bool {
    op is InitCore || op is NewProcess
}

/// The table after one operation.
pub open spec fn apply(m: TableModel, op: TableOp) -> TableModel {
    match op {
        TableOp::InitCore(c) => m.init_core(c),
        TableOp::NewProcess(r) => m.new_process(r.name, r.entry, r.stack),
        TableOp::Schedule(c) => m.schedule(c),
        TableOp::Exit(c) => m.exit(c),
    }
}

/// The table after the operations, in order.
pub open spec fn run(m: TableModel, ops: Seq<TableOp>) -> TableModel
    decreases ops.len(),
{
    if ops.len() == 0 {
        m
    } else {
        apply(run(m, ops.drop_last()), ops.last())
    }
}

/// The pid counter before operation `i` of the run.
pub open spec fn counter_before(m: TableModel, ops: Seq<TableOp>, i: int) -> nat {
    run(m, ops.take(i)).num_procs
}

proof fn lemma_run_step(m: TableModel, ops: Seq<TableOp>, i: int)
    requires
        0 <= i < ops.len(),
    ensures
        run(m, ops.take(i + 1)) == apply(run(m, ops.take(i)), ops[i]),
        counter_before(m, ops, i + 1) == counter_before(m, ops, i) + if issues_pid(ops[i]) { 1nat } else { 0nat },
{
    assert(ops.take(i + 1).drop_last() =~= ops.take(i));
    assert(ops.take(i + 1).last() == ops[i]);
}

proof fn lemma_counter_monotone(m: TableModel, ops: Seq<TableOp>, i: int, j: int)
    requires
        0 <= i <= j <= ops.len(),
    ensures
        counter_before(m, ops, i) <= counter_before(m, ops, j),
        counter_before(m, ops, j) <= m.num_procs + j,
    decreases j,
{
    if j == 0 {
        assert(ops.take(0) =~= Seq::<TableOp>::empty());
    } else {
        lemma_run_step(m, ops, j - 1);
        if i < j {
            lemma_counter_monotone(m, ops, i, j - 1);
        } else {
            lemma_counter_monotone(m, ops, j - 1, j - 1);
        }
    }
}

/// Over any run of operations, creations mixed with core initialisation,
/// scheduling and exits: the pid counter never decreases; each operation
/// that issues a pid issues the counter's next value (the created task
/// carries it); so every issued pid is larger than all pids issued earlier
/// in the run, whether or not their tasks were reclaimed since.
pub proof fn lemma_pids_increase_over_any_run(m: TableModel, ops: Seq<TableOp>)
    requires
        m.num_procs + ops.len() <= usize::MAX,
    ensures
        forall|i: int, j: int|
            0 <= i <= j <= ops.len() ==> #[trigger] counter_before(m, ops, i) <= #[trigger] counter_before(m, ops, j),
        forall|i: int|
            0 <= i < ops.len() && issues_pid(#[trigger] ops[i]) ==> counter_before(m, ops, i + 1) == counter_before(m, ops, i) + 1,
        forall|i: int|
            0 <= i < ops.len() && (#[trigger] ops[i]) is NewProcess ==> run(m, ops.take(i + 1)).waiting.last().pid
                == counter_before(m, ops, i) + 1,
        forall|i: int, j: int|
            0 <= i < j < ops.len() && issues_pid(#[trigger] ops[i]) && issues_pid(#[trigger] ops[j])
                ==> counter_before(m, ops, i) + 1 < counter_before(m, ops, j) + 1,
{
    assert forall|i: int, j: int| 0 <= i <= j <= ops.len() implies #[trigger] counter_before(m, ops, i)
        <= #[trigger] counter_before(m, ops, j) by {
        lemma_counter_monotone(m, ops, i, j);
    }
    assert forall|i: int| 0 <= i < ops.len() && issues_pid(#[trigger] ops[i]) implies counter_before(m, ops, i + 1)
        == counter_before(m, ops, i) + 1 by {
        lemma_run_step(m, ops, i);
    }
    assert forall|i: int| 0 <= i < ops.len() && (#[trigger] ops[i]) is NewProcess implies run(m, ops.take(i + 1)).waiting.last().pid
        == counter_before(m, ops, i) + 1 by {
        lemma_run_step(m, ops, i);
        lemma_counter_monotone(m, ops, i, i);
    }
    assert forall|i: int, j: int|
        0 <= i < j < ops.len() && issues_pid(#[trigger] ops[i]) && issues_pid(#[trigger] ops[j]) implies counter_before(m, ops, i) + 1
        < counter_before(m, ops, j) + 1 by {
        lemma_run_step(m, ops, i);
        lemma_counter_monotone(m, ops, i + 1, j);
    }
}

/// Over any sequence of creations the issued pids strictly increase, each
/// above every pid issued before the sequence, and the queue keeps what it
/// held, followed by the new tasks in the order they were created.
pub proof fn lemma_pids_increase(m: TableModel, reqs: Seq<TaskRequest>)
    requires
        m.wf(),
        m.num_procs + reqs.len() <= usize::MAX,
    ensures
        ({
            let r = create_all(m, reqs);
            &&& r.wf()
            &&& r.num_procs == m.num_procs + reqs.len()
            &&& r.waiting.len() == m.waiting.len() + reqs.len()
            &&& r.waiting.subrange(0, m.waiting.len() as int) == m.waiting
            &&& forall|i: int| 0 <= i < reqs.len() ==> #[trigger] r.waiting[m.waiting.len() + i].pid == m.num_procs + i + 1
            &&& forall|i: int, j: int|
                0 <= i < j < reqs.len() ==> #[trigger] r.waiting[m.waiting.len() + i].pid
                    < #[trigger] r.waiting[m.waiting.len() + j].pid
            &&& forall|k: int, i: int|
                0 <= k < m.waiting.len() && 0 <= i < reqs.len() ==> #[trigger] m.waiting[k].pid
                    < #[trigger] r.waiting[m.waiting.len() + i].pid
        }),
    decreases reqs.len(),
{
    if reqs.len() > 0 {
        let d = reqs.drop_last();
        lemma_pids_increase(m, d);
        let p = create_all(m, d);
        let q = reqs.last();
        lemma_new_pid_is_largest(p, q.name, q.entry, q.stack);
        let r = create_all(m, reqs);
        assert(r.waiting.subrange(0, m.waiting.len() as int) =~= p.waiting.subrange(0, m.waiting.len() as int));
        assert forall|i: int| 0 <= i < reqs.len() implies #[trigger] r.waiting[m.waiting.len() + i].pid == m.num_procs + i + 1 by {
            if i < d.len() {
                assert(r.waiting[m.waiting.len() + i] == p.waiting[m.waiting.len() + i]);
            }
        }
        assert forall|k: int| 0 <= k < m.waiting.len() implies 1 <= #[trigger] m.waiting[k].pid <= m.num_procs by {}
    }
}

/// The table after initialising the given cores one after the other.
pub open spec fn init_all(m: TableModel, cores: Seq<int>) -> TableModel
    decreases cores.len(),
{
    if cores.len() == 0 {
        m
    } else {
        init_all(m, cores.drop_last()).init_core(cores.last())
    }
}

/// Once every core has been initialised, each exactly once and each in an
/// empty slot, every running slot holds a task (with pairwise distinct
/// pids, by well-formedness) and the waiting queue is as it was.
pub proof fn lemma_init_every_core(m: TableModel, cores: Seq<int>)
    requires
        m.wf(),
        m.num_procs + cores.len() <= usize::MAX,
        cores.no_duplicates(),
        forall|i: int| 0 <= i < cores.len() ==> 0 <= #[trigger] cores[i] < NUM_CORES,
        forall|i: int| 0 <= i < cores.len() ==> m.running[#[trigger] cores[i]] is None,
        forall|c: int| 0 <= c < NUM_CORES ==> cores.contains(c),
    ensures
        ({
            let r = init_all(m, cores);
            &&& r.wf()
            &&& r.waiting == m.waiting
            &&& forall|c: int| 0 <= c < NUM_CORES ==> #[trigger] r.running[c] is Some
        }),
{
    lemma_init_prefix(m, cores);
}

proof fn lemma_init_prefix(m: TableModel, cores: Seq<int>)
    requires
        m.wf(),
        m.num_procs + cores.len() <= usize::MAX,
        cores.no_duplicates(),
        forall|i: int| 0 <= i < cores.len() ==> 0 <= #[trigger] cores[i] < NUM_CORES,
        forall|i: int| 0 <= i < cores.len() ==> m.running[#[trigger] cores[i]] is None,
    ensures
        ({
            let r = init_all(m, cores);
            &&& r.wf()
            &&& r.waiting == m.waiting
            &&& r.num_procs == m.num_procs + cores.len()
            &&& forall|c: int| 0 <= c < NUM_CORES && !cores.contains(c) ==> #[trigger] r.running[c] == m.running[c]
            &&& forall|c: int| 0 <= c < NUM_CORES && cores.contains(c) ==> #[trigger] r.running[c] is Some
        }),
    decreases cores.len(),
{
    if cores.len() > 0 {
        let d = cores.drop_last();
        let c0 = cores.last();
        assert(c0 == cores[cores.len() - 1]);
        assert forall|i: int| 0 <= i < d.len() implies 0 <= #[trigger] d[i] < NUM_CORES && m.running[d[i]] is None by {
            assert(d[i] == cores[i]);
        }
        assert forall|i: int| 0 <= i < d.len() implies m.running[#[trigger] d[i]] is None by {
            assert(d[i] == cores[i]);
        }
        assert(d.no_duplicates()) by {
            assert forall|i: int, j: int| 0 <= i < d.len() && 0 <= j < d.len() && i != j implies d[i] != d[j] by {
                assert(d[i] == cores[i] && d[j] == cores[j]);
            }
        }
        assert(!d.contains(c0)) by {
            if d.contains(c0) {
                let j = choose|j: int| 0 <= j < d.len() && d[j] == c0;
                assert(cores[j] == c0);
            }
        }
        lemma_init_prefix(m, d);
        let p = init_all(m, d);
        assert(p.running[c0] == m.running[c0]);
        lemma_wf_init_core(p, c0);
        let r = init_all(m, cores);
        assert forall|c: int| 0 <= c < NUM_CORES && !cores.contains(c) implies #[trigger] r.running[c] == m.running[c] by {
            assert(c != c0);
            if d.contains(c) {
                let j = choose|j: int| 0 <= j < d.len() && d[j] == c;
                assert(cores[j] == c);
            }
        }
        assert forall|c: int| 0 <= c < NUM_CORES && cores.contains(c) implies #[trigger] r.running[c] is Some by {
            if c != c0 {
                let j = choose|j: int| 0 <= j < cores.len() && cores[j] == c;
                assert(j != cores.len() - 1);
                assert(d[j] == c);
                assert(d.contains(c));
            }
        }
    }
}

proof fn lemma_no_zombies_count(s: Seq<Process>)
    requires
        forall|i: int| 0 <= i < s.len() ==> (#[trigger] s[i]).state != TaskState::Zombie,
    ensures
        zombie_count(s) == 0,
    decreases s.len(),
{
    if s.len() > 0 {
        let d = s.drop_last();
        assert forall|i: int| 0 <= i < d.len() implies (#[trigger] d[i]).state != TaskState::Zombie by {
            assert(d[i] == s[i]);
        }
        lemma_no_zombies_count(d);
        assert(s.last() == s[s.len() - 1]);
    }
}

proof fn lemma_count_push(s: Seq<Process>, p: Process)
    ensures
        zombie_count(s.push(p)) == zombie_count(s) + if p.state == TaskState::Zombie { 1nat } else { 0nat },
{
    assert(s.push(p).drop_last() =~= s);
}

/// Reclamation, each exited task exactly once. A scheduling pass on core `c`
/// removes every zombie of the waiting queue (exactly the zombies) and puts
/// none back: a task that exited on `c` and is switched away from goes to
/// `c`'s retired slot, never to the queue or a running slot. The next pass,
/// on any core `c2`, frees every retired task: afterwards its pid occurs
/// nowhere in the table, so no later pass can find it again.
pub proof fn lemma_pass_reclaims_zombies(m: TableModel, c: int, c2: int)
    requires
        m.wf(),
        m.core_ready(c),
        m.schedule(c).core_ready(c2),
    ensures
        live(m.waiting).len() + zombie_count(m.waiting) == m.waiting.len(),
        zombie_count(m.schedule(c).waiting) == 0,
        m.switch_of(c) is Some && m.running[c]->Some_0.state == TaskState::Zombie ==> m.schedule(c).retired[c] == Some(
            m.running[c]->Some_0,
        ),
        ({
            let m1 = m.schedule(c);
            let m2 = m1.schedule(c2);
            forall|d: int|
                0 <= d < NUM_CORES && (#[trigger] m1.retired[d]) is Some ==> {
                    let z = m1.retired[d]->Some_0.pid;
                    &&& forall|i: int| 0 <= i < m2.waiting.len() ==> (#[trigger] m2.waiting[i]).pid != z
                    &&& forall|e: int|
                        0 <= e < NUM_CORES && (#[trigger] m2.running[e]) is Some ==> m2.running[e]->Some_0.pid != z
                    &&& forall|e: int|
                        0 <= e < NUM_CORES && (#[trigger] m2.retired[e]) is Some ==> m2.retired[e]->Some_0.pid != z
                }
        }),
{
    let w = live(m.waiting);
    lemma_live_elements(m.waiting);
    lemma_wf_schedule(m, c);
    let m1 = m.schedule(c);
    assert forall|i: int| 0 <= i < m1.waiting.len() implies (#[trigger] m1.waiting[i]).state != TaskState::Zombie by {
        if w.len() > 0 && i < w.len() - 1 {
            assert(m1.waiting[i] == w[i + 1]);
        }
    }
    lemma_no_zombies_count(m1.waiting);
    let w1 = live(m1.waiting);
    lemma_live_elements(m1.waiting);
    let m2 = m1.schedule(c2);
    assert forall|d: int|
        0 <= d < NUM_CORES && (#[trigger] m1.retired[d]) is Some implies {
            let z = m1.retired[d]->Some_0.pid;
            &&& forall|i: int| 0 <= i < m2.waiting.len() ==> (#[trigger] m2.waiting[i]).pid != z
            &&& forall|e: int|
                0 <= e < NUM_CORES && (#[trigger] m2.running[e]) is Some ==> m2.running[e]->Some_0.pid != z
            &&& forall|e: int|
                0 <= e < NUM_CORES && (#[trigger] m2.retired[e]) is Some ==> m2.retired[e]->Some_0.pid != z
        } by {
        let z = m1.retired[d]->Some_0.pid;
        assert forall|i: int| 0 <= i < m2.waiting.len() implies (#[trigger] m2.waiting[i]).pid != z by {
            if w1.len() > 0 && i < w1.len() - 1 {
                assert(m2.waiting[i] == w1[i + 1]);
                assert(m1.waiting.contains(w1[i + 1]));
                let k = choose|k: int| 0 <= k < m1.waiting.len() && m1.waiting[k] == w1[i + 1];
                assert(m1.retired[d]->Some_0.pid != m1.waiting[k].pid);
            } else if w1.len() > 0 {
                assert(m2.waiting[i] == m1.running[c2]->Some_0);
                assert(m1.running[c2]->Some_0.pid != m1.retired[d]->Some_0.pid);
            } else {
                assert(m2.waiting[i] == w1[i]);
            }
        }
        assert forall|e: int| 0 <= e < NUM_CORES && (#[trigger] m2.running[e]) is Some implies m2.running[e]->Some_0.pid != z by {
            if w1.len() > 0 && e == c2 {
                assert(m1.waiting.contains(w1[0]));
                let k = choose|k: int| 0 <= k < m1.waiting.len() && m1.waiting[k] == w1[0];
                assert(m1.retired[d]->Some_0.pid != m1.waiting[k].pid);
            } else {
                assert(m2.running[e] == m1.running[e]);
                assert(m1.running[e]->Some_0.pid != m1.retired[d]->Some_0.pid);
            }
        }
        assert forall|e: int| 0 <= e < NUM_CORES && (#[trigger] m2.retired[e]) is Some implies m2.retired[e]->Some_0.pid != z by {
            assert(e == c2);
            assert(m2.retired[e] == Some(m1.running[c2]->Some_0));
            assert(m1.running[c2]->Some_0.pid != m1.retired[d]->Some_0.pid);
        }
    }
}

/// The table after `k` scheduling passes on core `c`.
pub open spec fn schedule_n(m: TableModel, c: int, k: nat) -> TableModel
    decreases k,
{
    if k == 0 {
        m
    } else {
        schedule_n(m, c, (k - 1) as nat).schedule(c)
    }
}

/// The cycle of a core: its waiting queue followed by its running task.
pub open spec fn rotation(cycle: Seq<Process>, k: int) -> Seq<Process> {
    cycle.subrange(k, cycle.len() as int) + cycle.subrange(0, k)
}

proof fn lemma_rotation_step(cycle: Seq<Process>, k: int)
    requires
        0 <= k < cycle.len(),
    ensures
        rotation(cycle, k + 1) =~= rotation(cycle, k).drop_first().push(rotation(cycle, k)[0]),
        rotation(cycle, k)[0] == cycle[k],
{
    let r = rotation(cycle, k);
    assert(r[0] == cycle[k]);
}

/// Round robin: with no zombies and no arrivals, repeated passes on core `c`
/// run the queued tasks in their queue order and then the task that was
/// running, each once, after which the table is back where it started; the
/// order therefore repeats for ever.
pub proof fn lemma_round_robin(m: TableModel, c: int)
    requires
        m.wf(),
        m.core_ready(c),
        m.running[c]->Some_0.state != TaskState::Zombie,
        forall|i: int| 0 <= i < m.waiting.len() ==> (#[trigger] m.waiting[i]).state != TaskState::Zombie,
        m.retired == empty_slots(),
    ensures
        ({
            let cycle = m.waiting.push(m.running[c]->Some_0);
            &&& forall|k: nat|
                1 <= k <= cycle.len() ==> (#[trigger] schedule_n(m, c, k)).running[c] == Some(cycle[k - 1])
            &&& schedule_n(m, c, cycle.len()) == m
        }),
{
    let cycle = m.waiting.push(m.running[c]->Some_0);
    let n = cycle.len();
    assert forall|k: nat| k <= n implies {
        let t = #[trigger] schedule_n(m, c, k);
        &&& t.waiting == rotation(cycle, k as int).drop_last()
        &&& t.running == m.running.update(c, Some(rotation(cycle, k as int).last()))
        &&& t.num_procs == m.num_procs
        &&& t.trampoline == m.trampoline
        &&& t.retired == m.retired
    } by {
        lemma_round_robin_steps(m, c, k);
    }
    assert forall|k: nat| 1 <= k <= n implies (#[trigger] schedule_n(m, c, k)).running[c] == Some(cycle[k - 1]) by {
        lemma_round_robin_steps(m, c, k);
        let r = rotation(cycle, k as int);
        assert(r.last() == r[n - 1]);
        if k < n {
            assert(r[n - 1] == cycle.subrange(0, k as int)[k - 1]);
        } else {
            assert(r[n - 1] == cycle[n - 1]);
        }
    }
    lemma_round_robin_steps(m, c, n);
    let t = schedule_n(m, c, n);
    assert(rotation(cycle, n as int) =~= cycle);
    assert(t.waiting =~= m.waiting);
    assert(t.running =~= m.running);
}

proof fn lemma_round_robin_steps(m: TableModel, c: int, k: nat)
    requires
        m.wf(),
        m.core_ready(c),
        m.running[c]->Some_0.state != TaskState::Zombie,
        forall|i: int| 0 <= i < m.waiting.len() ==> (#[trigger] m.waiting[i]).state != TaskState::Zombie,
        m.retired == empty_slots(),
        k <= m.waiting.len() + 1,
    ensures
        ({
            let cycle = m.waiting.push(m.running[c]->Some_0);
            let t = schedule_n(m, c, k);
            &&& t.waiting == rotation(cycle, k as int).drop_last()
            &&& t.running == m.running.update(c, Some(rotation(cycle, k as int).last()))
            &&& t.num_procs == m.num_procs
            &&& t.trampoline == m.trampoline
            &&& t.retired == m.retired
        }),
    decreases k,
{
    let cycle = m.waiting.push(m.running[c]->Some_0);
    let n = cycle.len();
    if k == 0 {
        assert(rotation(cycle, 0) =~= cycle);
        assert(cycle.drop_last() =~= m.waiting);
        assert(m.running.update(c, Some(cycle.last())) =~= m.running);
    } else {
        let j = (k - 1) as nat;
        lemma_round_robin_steps(m, c, j);
        let t = schedule_n(m, c, j);
        let r = rotation(cycle, j as int);
        lemma_rotation_step(cycle, j as int);
        assert forall|i: int| 0 <= i < r.len() implies (#[trigger] r[i]).state != TaskState::Zombie by {
            if i < n - j {
                assert(r[i] == cycle[j + i]);
            } else {
                assert(r[i] == cycle[i - (n - j)]);
            }
            assert(cycle[n - 1] == m.running[c]->Some_0);
        }
        assert forall|i: int| 0 <= i < t.waiting.len() implies (#[trigger] t.waiting[i]).state != TaskState::Zombie by {
            assert(t.waiting[i] == r[i]);
        }
        lemma_live_no_zombies(t.waiting);
        assert(t.running[c] == Some(r.last()));
        let t1 = t.schedule(c);
        let r1 = rotation(cycle, k as int);
        if t.waiting.len() == 0 {
            assert(n == 1);
            assert(r1 =~= r);
            assert(t1.waiting =~= r1.drop_last());
        } else {
            assert(t1.waiting =~= r1.drop_last());
            assert(r1.last() == r[0]);
            assert(t1.running =~= m.running.update(c, Some(r1.last())));
        }
    }
}

/// A task whose entry function returns at once goes through one switch in,
/// one exit that makes it a zombie and switches back (the zombie goes to the
/// core's retired slot, not to the queue), and one reclamation by the next
/// pass; afterwards the table holds exactly the control blocks (and stacks)
/// it held before, and only the pid counter has moved.
pub proof fn lemma_bootstrap_round_trip(m: TableModel, c: int, name: &'static str, entry: usize, stack: TaskStack)
    requires
        m.wf(),
        m.core_ready(c),
        m.running[c]->Some_0.state != TaskState::Zombie,
        m.waiting.len() == 0,
        m.retired == empty_slots(),
        m.num_procs < usize::MAX,
    ensures
        ({
            let m1 = m.new_process(name, entry, stack);
            let m2 = m1.schedule(c);
            let m3 = m2.exit(c);
            let m4 = m3.schedule(c);
            let t = m1.waiting[0];
            &&& m1.switch_of(c) == Some(crate::scheduler::ContextSwitch { prev_pid: m.running[c]->Some_0.pid, next_pid: t.pid })
            &&& m2.running[c] == Some(t)
            &&& m2.mark_zombie(c).switch_of(c) == Some(crate::scheduler::ContextSwitch { prev_pid: t.pid, next_pid: m.running[c]->Some_0.pid })
            &&& m3.waiting.len() == 0
            &&& m3.running[c] == m.running[c]
            &&& m3.retired[c] == Some(Process { state: TaskState::Zombie, ..t })
            &&& m3.switch_of(c) is None
            &&& m4 == TableModel { num_procs: m.num_procs + 1, ..m }
        }),
{
    let m1 = m.new_process(name, entry, stack);
    let t = m1.waiting[0];
    assert(m1.waiting =~= seq![t]);
    lemma_live_no_zombies(m1.waiting);
    let m2 = m1.schedule(c);
    assert(m2.waiting =~= seq![m.running[c]->Some_0]);
    let z = m2.mark_zombie(c);
    assert(z.waiting == m2.waiting);
    lemma_live_no_zombies(z.waiting);
    let m3 = m2.exit(c);
    assert(m3.waiting =~= Seq::<Process>::empty());
    assert(live(Seq::<Process>::empty()) == Seq::<Process>::empty());
    let m4 = m3.schedule(c);
    assert(m3.running =~= m.running);
    assert(m4.running =~= m.running);
    assert(m4.waiting =~= m.waiting);
}

/// Two cores creating a task each: a core works on the table only while it
/// holds the lock, which admits one holder at a time, so the two creations
/// can only take effect one after the other, in either order. Either way the table stays well formed,
/// keeps what it queued, and holds both new tasks at its tail with distinct
/// pids above every earlier one.
pub proof fn lemma_concurrent_creation(m: TableModel, a: TaskRequest, b: TaskRequest)
    requires
        m.wf(),
        m.num_procs + 2 <= usize::MAX,
    ensures
        ({
            let ab = m.new_process(a.name, a.entry, a.stack).new_process(b.name, b.entry, b.stack);
            let ba = m.new_process(b.name, b.entry, b.stack).new_process(a.name, a.entry, a.stack);
            let n = m.waiting.len() as int;
            &&& ab.wf() && ba.wf()
            &&& ab.waiting.len() == n + 2 && ba.waiting.len() == n + 2
            &&& ab.waiting.subrange(0, n) == m.waiting && ba.waiting.subrange(0, n) == m.waiting
            &&& ab.waiting[n].name == a.name && ab.waiting[n + 1].name == b.name
            &&& ba.waiting[n].name == b.name && ba.waiting[n + 1].name == a.name
            &&& ab.waiting[n].pid != ab.waiting[n + 1].pid && ba.waiting[n].pid != ba.waiting[n + 1].pid
            &&& forall|i: int| 0 <= i < n ==> #[trigger] m.waiting[i].pid < ab.waiting[n].pid && m.waiting[i].pid < ba.waiting[n].pid
            &&& ab.running == m.running && ba.running == m.running
        }),
{
    let n = m.waiting.len() as int;
    let reqs_ab = seq![a, b];
    let reqs_ba = seq![b, a];
    assert(reqs_ab.drop_last() =~= seq![a]);
    assert(reqs_ab.drop_last().drop_last() =~= Seq::<TaskRequest>::empty());
    assert(reqs_ba.drop_last() =~= seq![b]);
    assert(reqs_ba.drop_last().drop_last() =~= Seq::<TaskRequest>::empty());
    lemma_pids_increase(m, reqs_ab);
    lemma_pids_increase(m, reqs_ba);
    assert(create_all(m, Seq::<TaskRequest>::empty()) == m);
    assert(create_all(m, seq![a]) == m.new_process(a.name, a.entry, a.stack));
    assert(create_all(m, seq![b]) == m.new_process(b.name, b.entry, b.stack));
    assert(create_all(m, reqs_ab) == m.new_process(a.name, a.entry, a.stack).new_process(b.name, b.entry, b.stack));
    assert(create_all(m, reqs_ba) == m.new_process(b.name, b.entry, b.stack).new_process(a.name, a.entry, a.stack));
    assert forall|i: int| 0 <= i < n implies #[trigger] m.waiting[i].pid < create_all(m, reqs_ab).waiting[n].pid && m.waiting[i].pid < create_all(m, reqs_ba).waiting[n].pid by {
        assert(create_all(m, reqs_ab).waiting[n + 0].pid > m.waiting[i].pid);
        assert(create_all(m, reqs_ba).waiting[n + 0].pid > m.waiting[i].pid);
    }
    assert(create_all(m, reqs_ab).waiting[n + 0].pid < create_all(m, reqs_ab).waiting[n + 1].pid);
    assert(create_all(m, reqs_ba).waiting[n + 0].pid < create_all(m, reqs_ba).waiting[n + 1].pid);
}

} // verus!
