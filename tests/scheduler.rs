use rpi_kernel::scheduler::{
    add_proc, get_first, remove_zombies, CPUContext, ContextSwitch, PTable, PTableInner, Process,
    TaskStack, TaskState, NUM_CORES, STACK_SIZE,
};
use rpi_kernel::synchronization::{Mutex, SpinLock};

const TRAMPOLINE: usize = 0x8_0000;

#[derive(Clone, Copy, PartialEq, Debug)]
enum Step {
    Acquire,
    Create,
    Release,
    Done,
}

fn stack(top: usize) -> TaskStack {
    TaskStack { memory: vec![0u8; STACK_SIZE], top }
}

fn proc_with(pid: usize, state: TaskState) -> Process {
    let mut p = Process::empty();
    p.pid = pid;
    p.state = state;
    p
}

fn waiting_pids(t: &PTable) -> Vec<usize> {
    t.table().head.iter().map(|p| p.pid).collect()
}

fn running_pid(t: &PTable, core: usize) -> Option<usize> {
    t.table().running[core].as_ref().map(|p| p.pid)
}

#[test]
fn new_table_is_empty() {
    let t = PTable::new(TRAMPOLINE);
    assert_eq!(t.table().num_procs, 0);
    assert!(t.table().head.is_empty());
    assert_eq!(t.table().running.len(), NUM_CORES);
    for c in 0..NUM_CORES {
        assert!(!t.is_core_ready(c));
    }
}

#[test]
fn empty_context_is_zero_and_setters_touch_one_field() {
    let mut ctx = CPUContext::empty();
    assert_eq!(ctx, CPUContext { x19: 0, x20: 0, x21: 0, x22: 0, x23: 0, x24: 0, x25: 0, x26: 0, x27: 0, x28: 0, fp: 0, sp: 0, pc: 0 });
    ctx.set_entry(7);
    ctx.set_pc(8);
    ctx.set_sp(9);
    assert_eq!((ctx.x23, ctx.pc, ctx.sp, ctx.x19, ctx.fp), (7, 8, 9, 0, 0));
}

#[test]
fn new_process_prepares_bootstrap_context() {
    let mut t = PTable::new(TRAMPOLINE);
    t.new_process("t", 0x1234, stack(0x9_0000));
    let p = &t.table().head[0];
    assert_eq!(p.pid, 1);
    assert_eq!(p.name, "t");
    assert_eq!(p.state, TaskState::Running);
    assert_eq!(p.ctx.x23, 0x1234);
    assert_eq!(p.ctx.pc, TRAMPOLINE);
    assert_eq!(p.ctx.sp, 0x9_0000);
    assert_eq!(p.stack.as_ref().unwrap().memory.len(), STACK_SIZE);
}

#[test]
fn pids_strictly_increase() {
    let mut t = PTable::new(TRAMPOLINE);
    t.init_core(0);
    let mut last = 0;
    for i in 0..5 {
        t.new_process("task", i, stack(0x1000));
        let pid = t.table().head.last().unwrap().pid;
        assert!(pid > last);
        assert!(pid > running_pid(&t, 0).unwrap());
        last = pid;
    }
    assert_eq!(waiting_pids(&t), vec![2, 3, 4, 5, 6]);
}

#[test]
fn init_every_core_fills_running_slots() {
    let mut t = PTable::new(TRAMPOLINE);
    t.new_process("early", 1, stack(0x1000));
    for c in 0..NUM_CORES {
        t.init_core(c);
    }
    for c in 0..NUM_CORES {
        assert!(t.is_core_ready(c));
        assert_eq!(t.table().running[c].as_ref().unwrap().name, "kthread");
    }
    assert_eq!(waiting_pids(&t), vec![1]);
    assert_eq!(running_pid(&t, 3), Some(5));
}

#[test]
fn zombie_is_reclaimed_exactly_once() {
    let mut list = vec![
        proc_with(1, TaskState::Running),
        proc_with(2, TaskState::Zombie),
        proc_with(3, TaskState::Running),
        proc_with(4, TaskState::Zombie),
    ];
    assert_eq!(remove_zombies(&mut list), 2);
    assert_eq!(list.iter().map(|p| p.pid).collect::<Vec<_>>(), vec![1, 3]);
    assert_eq!(remove_zombies(&mut list), 0);
    assert_eq!(list.len(), 2);
}

#[test]
fn exited_task_is_retired_then_freed_by_next_pass_on_any_core() {
    let mut t = PTable::new(TRAMPOLINE);
    t.init_core(0);
    t.init_core(1);
    t.new_process("a", 1, stack(0x1000));
    t.new_process("b", 2, stack(0x2000));
    assert_eq!(t.schedule(0), Some(ContextSwitch { prev_pid: 1, next_pid: 3 }));
    t.unlock();
    // a exits on core 0: it goes to core 0's retired slot, not to the queue.
    assert_eq!(t.exit(0), Some(ContextSwitch { prev_pid: 3, next_pid: 4 }));
    t.unlock();
    assert_eq!(waiting_pids(&t), vec![1]);
    assert_eq!(t.table().retired[0].as_ref().map(|p| (p.pid, p.state)), Some((3, TaskState::Zombie)));
    // The next pass, on core 1, frees it.
    assert_eq!(t.schedule(1), Some(ContextSwitch { prev_pid: 2, next_pid: 1 }));
    t.unlock();
    assert!(t.table().retired.iter().all(|r| r.is_none()));
    assert_eq!(waiting_pids(&t), vec![2]);
    let everywhere: Vec<usize> = t
        .table()
        .head
        .iter()
        .map(|p| p.pid)
        .chain(t.table().running.iter().flatten().map(|p| p.pid))
        .collect();
    assert!(!everywhere.contains(&3));
}

#[test]
fn exit_with_empty_queue_keeps_zombie_running_until_a_switch() {
    let mut t = PTable::new(TRAMPOLINE);
    t.init_core(0);
    assert_eq!(t.exit(0), None);
    assert_eq!(t.table().running[0].as_ref().unwrap().state, TaskState::Zombie);
    t.new_process("b", 2, stack(0x2000));
    assert_eq!(t.schedule(0), Some(ContextSwitch { prev_pid: 1, next_pid: 2 }));
    t.unlock();
    assert!(t.table().head.is_empty());
    assert_eq!(t.table().retired[0].as_ref().unwrap().pid, 1);
}

#[test]
fn round_robin_visits_in_cyclic_order() {
    let mut t = PTable::new(TRAMPOLINE);
    t.init_core(0);
    t.new_process("A", 1, stack(0x1000));
    t.new_process("B", 2, stack(0x2000));
    t.new_process("C", 3, stack(0x3000));
    let mut seen = Vec::new();
    for _ in 0..8 {
        let sw = t.schedule(0).unwrap();
        t.unlock();
        seen.push(t.table().running[0].as_ref().unwrap().name);
        assert_eq!(sw.next_pid, running_pid(&t, 0).unwrap());
    }
    assert_eq!(seen, vec!["A", "B", "C", "kthread", "A", "B", "C", "kthread"]);
}

#[test]
fn task_that_returns_at_once_leaves_no_trace() {
    let mut t = PTable::new(TRAMPOLINE);
    t.init_core(0);
    assert_eq!(t.schedule(0), None);
    t.new_process("t", 0x42, stack(0x5000));
    assert_eq!(t.schedule(0), Some(ContextSwitch { prev_pid: 1, next_pid: 2 }));
    t.unlock();
    assert_eq!(t.exit(0), Some(ContextSwitch { prev_pid: 2, next_pid: 1 }));
    t.unlock();
    assert!(t.table().head.is_empty());
    assert_eq!(t.table().retired[0].as_ref().map(|p| (p.pid, p.state)), Some((2, TaskState::Zombie)));
    assert_eq!(t.schedule(0), None);
    assert!(t.table().head.is_empty());
    assert!(t.table().retired.iter().all(|r| r.is_none()));
    assert_eq!(running_pid(&t, 0), Some(1));
    assert_eq!(t.table().num_procs, 2);
}

#[test]
fn scheduling_with_empty_queue_keeps_current_task() {
    let mut t = PTable::new(TRAMPOLINE);
    t.init_core(2);
    assert_eq!(t.schedule(2), None);
    assert!(!t.is_held());
    assert_eq!(running_pid(&t, 2), Some(1));
}

#[test]
fn shell_occupies_core_zero() {
    let mut t = PTable::new(TRAMPOLINE);
    t.init_core(0);
    t.init_core(1);
    t.new_process("shell", 0x7777, stack(0x6000));
    assert_eq!(t.schedule(0), Some(ContextSwitch { prev_pid: 1, next_pid: 3 }));
    t.unlock();
    assert_eq!(t.table().running[0].as_ref().unwrap().name, "shell");
    // The kernel thread of core 0 is queued; core 1 picks it up.
    assert_eq!(t.schedule(1), Some(ContextSwitch { prev_pid: 2, next_pid: 1 }));
    t.unlock();
    assert_eq!(t.schedule(1), Some(ContextSwitch { prev_pid: 1, next_pid: 2 }));
    t.unlock();
    assert_eq!(t.table().running[0].as_ref().unwrap().name, "shell");
}

#[test]
fn switch_leaves_table_locked_until_released() {
    let mut t = PTable::new(TRAMPOLINE);
    t.init_core(0);
    t.new_process("a", 1, stack(0x1000));
    assert!(!t.is_held());
    assert!(t.schedule(0).is_some());
    assert!(t.is_held());
    t.unlock();
    assert!(!t.is_held());
    t.new_process("b", 2, stack(0x2000));
    assert_eq!(waiting_pids(&t), vec![1, 3]);
    assert!(!t.is_held());
}

#[test]
fn print_reports_slots_and_queue() {
    let mut t = PTable::new(TRAMPOLINE);
    t.init_core(1);
    t.new_process("x", 5, stack(0xAB00));
    let report = t.print();
    assert_eq!(report.running.len(), NUM_CORES);
    assert!(report.running[0].is_none());
    let k = report.running[1].unwrap();
    assert_eq!((k.pid, k.name, k.sp), (1, "kthread", 0));
    assert_eq!(report.waiting.len(), 1);
    assert_eq!((report.waiting[0].pid, report.waiting[0].name, report.waiting[0].sp), (2, "x", 0xAB00));
}

#[test]
fn queue_helpers_keep_fifo_order() {
    let mut list = Vec::new();
    assert!(get_first(&mut list).is_none());
    add_proc(&mut list, proc_with(1, TaskState::Running));
    add_proc(&mut list, proc_with(2, TaskState::Running));
    assert_eq!(get_first(&mut list).unwrap().pid, 1);
    assert_eq!(get_first(&mut list).unwrap().pid, 2);
    assert!(list.is_empty());
}

#[test]
fn blank_process_is_unused() {
    let p = Process::empty();
    assert_eq!(p.state, TaskState::Unused);
    assert_eq!(p.pid, 0);
    assert_eq!(p.name, "");
    assert!(p.stack.is_none());
}

#[test]
fn interleaved_creation_from_two_cores() {
    // Each core's creation is: acquire, create, release. Try every way of
    // interleaving the two cores' steps; an acquire that finds the lock held
    // fails and is retried later.
    let schedules: Vec<Vec<usize>> = {
        let mut all = Vec::new();
        for mask in 0u32..(1 << 8) {
            let order: Vec<usize> = (0..8).map(|i| ((mask >> i) & 1) as usize).collect();
            all.push(order);
        }
        all
    };
    for order in schedules {
        let mut lock = SpinLock::new(PTableInner::new(TRAMPOLINE));
        let mut step = [Step::Acquire, Step::Acquire];
        let names = ["from core 0", "from core 1"];
        let mut turns = order.into_iter().chain((0..64).map(|i| i % 2));
        while step != [Step::Done, Step::Done] {
            let core = match turns.next() {
                Some(c) => c,
                None => break,
            };
            match step[core] {
                Step::Acquire => {
                    if lock.try_lock() {
                        step[core] = Step::Create;
                    }
                }
                Step::Create => {
                    lock.get_data_mut().new_process_inner(names[core], core, stack(0x1000 * (core + 1)));
                    step[core] = Step::Release;
                }
                Step::Release => {
                    lock.unlock();
                    step[core] = Step::Done;
                }
                Step::Done => {}
            }
        }
        assert_eq!(step, [Step::Done, Step::Done]);
        let table = lock.get_data();
        assert_eq!(table.head.len(), 2);
        let mut names_seen: Vec<&str> = table.head.iter().map(|p| p.name).collect();
        names_seen.sort();
        assert_eq!(names_seen, vec!["from core 0", "from core 1"]);
        assert_ne!(table.head[0].pid, table.head[1].pid);
        assert_eq!(table.num_procs, 2);
        assert!(!lock.is_held());
    }
}
