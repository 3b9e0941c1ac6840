use kfs::errno::ErrNo;
use kfs::memory::paging::bitmap::Bitmaps;
use kfs::memory::paging::page_directory::PageDirectory;
use kfs::proc::_exit;
use kfs::proc::process::{Process, ProcessTree, Status};
use kfs::proc::signal::{get_signal_type, Signal, SignalHandler, SignalType};
use kfs::memory::TypeZone;
use kfs::proc::task::{NextTask, Registers, Task, TaskStatus};
use kfs::syscalls::exit::{
    sys_wait4, w_coredump, w_exitcode, w_exitstatus, w_ifcontinued, w_ifexited, w_ifsignaled, w_ifstopped,
    w_stopcode, w_stopsig, w_termsig, waitpid_step, can_wait, WaitStep, WNOHANG,
};
use kfs::proc::paging::{KernelLayout, PagingFrames};
use kfs::syscalls::process::sys_fork;
use kfs::syscalls::signal::{sys_kill, sys_signal};
use std::collections::VecDeque;
use kfs::syscalls::mmap::sys_mmap;
use kfs::syscalls::timer::{sys_getpid, sys_getppid, sys_getuid};

/// The kernel's page directory and frame bitmap, as processes are made.
struct Memory {
    pd: PageDirectory,
    physmap: Bitmaps,
}

fn frames() -> PagingFrames {
    PagingFrames { directory: 0x50_0000, heap_table: 0x51_0000, stack_table: 0x52_0000, kstack_table: 0x53_0000 }
}

fn kernel_layout() -> KernelLayout {
    KernelLayout { kernel_base: 0xc000_0000, kstack_addr: 0xff00_0000, task_stack: 0xff00_1000 }
}

/// A tree with process 0 running, with a kernel stack, a stack and a heap.
fn boot_memory() -> (ProcessTree, VecDeque<Task>, Memory) {
    let mut mem = Memory { pd: PageDirectory::new(0x3000, 3), physmap: Bitmaps::new() };
    let mut tree = ProcessTree::new();
    let mut init = Process::new();
    init.state = Status::Run;
    init.setup_kernel_stack(3, &mut mem.pd, &mut mem.physmap);
    init.setup_stack(0x4000, 3, false, &mut mem.pd, &mut mem.physmap);
    init.setup_heap(0x4000, 3, false, &mut mem.pd, &mut mem.physmap);
    tree.insert(init);
    let mut tasks = VecDeque::new();
    tasks.push_back(Task::new());
    (tree, tasks, mem)
}

fn with_init() -> (ProcessTree, VecDeque<Task>, Memory) {
    boot_memory()
}

/// Forks the running process.
fn fork(tree: &mut ProcessTree, tasks: &mut VecDeque<Task>, mem: &mut Memory) -> i32 {
    sys_fork(tree, tasks, &mut mem.pd, &mut mem.physmap, frames(), kernel_layout()).0
}

fn schedule(tasks: &mut VecDeque<Task>) {
    let t = tasks.pop_front().unwrap();
    tasks.push_back(t);
}

#[test]
fn subprocess_count() {
    let (mut tree, mut tasks, mut mem) = with_init();
    let c1 = fork(&mut tree, &mut tasks, &mut mem);
    let c2 = fork(&mut tree, &mut tasks, &mut mem);
    schedule(&mut tasks);
    assert_eq!(tasks[0].process, c1);
    let g = fork(&mut tree, &mut tasks, &mut mem);
    assert_eq!((c1, c2, g), (1, 2, 3));
    assert_eq!(tree.procs[&0].get_nb_subprocess(&tree), 3);
    assert_eq!(tree.procs[&1].get_nb_subprocess(&tree), 1);
    assert_eq!(tree.procs[&3].get_nb_subprocess(&tree), 0);
    assert_eq!(Process::get_nb_process(&tree), 4);
    assert_eq!(Process::new().get_nb_subprocess(&tree), 0);
}

#[test]
fn fork_registers_child() {
    let (mut tree, mut tasks, mut mem) = with_init();
    tree.procs.get_mut(&0).unwrap().owner = 7;
    let pid = fork(&mut tree, &mut tasks, &mut mem);
    assert_eq!(pid, 1);
    assert_eq!(tree.next_pid, 2);
    assert_eq!(tree.procs[&0].childs, vec![1]);
    let child = Process::search_from_pid(&tree, 1).unwrap();
    assert_eq!(child.parent, Some(0));
    assert_eq!(child.owner, 7);
    assert_eq!(child.state, Status::Run);
    assert_eq!(sys_getppid(child), 0);
    assert_eq!(tasks.len(), 2);
    assert_eq!(tasks[1].state, TaskStatus::Running);
    assert_eq!(tasks[1].process, 1);
    assert!(Process::search_from_pid(&tree, 9).is_err());
}

#[test]
fn exit_then_wait() {
    let (mut tree, mut tasks, mut mem) = with_init();
    let pid = fork(&mut tree, &mut tasks, &mut mem);
    schedule(&mut tasks);
    assert_eq!(_exit(&mut tree, &mut tasks, 42), pid);
    assert_eq!(tree.procs[&pid].state, Status::Zombie);
    assert_eq!(tasks.len(), 1);
    match waitpid_step(&mut tree, &mut tasks, pid, 0) {
        WaitStep::Reaped(sender, status) => {
            assert_eq!(sender, pid);
            assert!(w_ifexited(status));
            assert_eq!(w_exitstatus(status), 42);
        },
        other => panic!("unexpected {:?}", other),
    }
    assert_eq!(Process::get_nb_process(&tree), 1);
    assert!(tree.procs[&0].childs.is_empty());
    assert_eq!(waitpid_step(&mut tree, &mut tasks, pid, 0), WaitStep::NoChild);
}

#[test]
fn kill_then_wait() {
    let (mut tree, mut tasks, mut mem) = with_init();
    let pid = fork(&mut tree, &mut tasks, &mut mem);
    assert_eq!(Process::get_nb_process(&tree), 2);
    assert_eq!(sys_kill(&mut tree, &mut tasks, pid, 9), 0);
    assert_eq!(tasks.len(), 1);
    match waitpid_step(&mut tree, &mut tasks, pid, 0) {
        WaitStep::Reaped(sender, status) => {
            assert_eq!(sender, pid);
            assert!(w_ifsignaled(status));
            assert_eq!(w_exitstatus(status), 9);
        },
        other => panic!("unexpected {:?}", other),
    }
    assert_eq!(Process::get_nb_process(&tree), 1);
}

#[test]
fn kill_errors_and_plain_signals() {
    let (mut tree, mut tasks, mut mem) = with_init();
    let pid = fork(&mut tree, &mut tasks, &mut mem);
    assert_eq!(sys_kill(&mut tree, &mut tasks, 5, 9), -3);
    assert_eq!(sys_kill(&mut tree, &mut tasks, pid, 0), 0);
    assert_eq!(sys_kill(&mut tree, &mut tasks, pid, 40), -22);
    assert_eq!(sys_kill(&mut tree, &mut tasks, pid, 15), 0);
    assert_eq!(tree.procs[&pid].signals, vec![Signal::new(0, SignalType::SigTerm, 0)]);
    assert_eq!(tree.procs[&pid].state, Status::Run);
}

#[test]
fn wait_without_news() {
    let (mut tree, mut tasks, mut mem) = with_init();
    let pid = fork(&mut tree, &mut tasks, &mut mem);
    assert_eq!(waitpid_step(&mut tree, &mut tasks, pid, WNOHANG), WaitStep::NoHang);
    assert_eq!(waitpid_step(&mut tree, &mut tasks, -1, 0), WaitStep::Blocked);
    assert_eq!(tasks[0].state, TaskStatus::Interruptible);
    assert_eq!(waitpid_step(&mut tree, &mut tasks, 8, 0), WaitStep::NoChild);
}

#[test]
fn zombie_children_go_to_grandparent() {
    let (mut tree, mut tasks, mut mem) = with_init();
    let p = fork(&mut tree, &mut tasks, &mut mem);
    schedule(&mut tasks);
    let a = fork(&mut tree, &mut tasks, &mut mem);
    let b = fork(&mut tree, &mut tasks, &mut mem);
    Signal::send_to_process(tree.procs.get_mut(&p).unwrap(), a, SignalType::SigChld, 5);
    Signal::send_to_process(tree.procs.get_mut(&p).unwrap(), a, SignalType::SigInt, 0);
    Process::zombify(&mut tree, p, 0x100);
    assert_eq!(tree.procs[&0].childs, vec![p, b, a]);
    assert_eq!(tree.procs[&a].parent, Some(0));
    assert_eq!(tree.procs[&b].parent, Some(0));
    assert!(tree.procs[&p].childs.is_empty());
    assert!(tree.procs[&p].signals.is_empty());
    assert_eq!(
        tree.procs[&0].signals,
        vec![Signal::new(a, SignalType::SigChld, 5), Signal::new(p, SignalType::SigChld, 0x100)]
    );
    Process::remove(&mut tree, p);
    assert_eq!(tree.procs[&0].childs, vec![b, a]);
    assert!(Process::search_from_pid(&tree, p).is_err());
}

#[test]
fn tasks_of_a_process_removed() {
    let mut tasks = VecDeque::new();
    for pid in [1, 2, 1, 3] {
        let mut t = Task::new();
        t.process = pid;
        tasks.push_back(t);
    }
    Task::remove_task_from_process(&mut tasks, 1);
    assert_eq!(tasks.iter().map(|t| t.process).collect::<Vec<_>>(), vec![2, 3]);
    assert_eq!(Task::get_running_task(&tasks).process, 2);
}

#[test]
fn signal_types() {
    assert_eq!(get_signal_type(9).unwrap(), SignalType::SigKill);
    assert_eq!(get_signal_type(17).unwrap(), SignalType::SigChld);
    assert_eq!(get_signal_type(10).unwrap(), SignalType::SigUsr1);
    assert_eq!(get_signal_type(12).unwrap(), SignalType::SigUsr2);
    assert_eq!(get_signal_type(0).unwrap_err(), ErrNo::Inval);
    assert_eq!(get_signal_type(33).unwrap_err(), ErrNo::Inval);
    assert_eq!(SignalType::SigRTMin.number(), 32);
}

#[test]
fn signals_sent_and_taken() {
    let mut p = Process::new();
    Signal::send_to_process(&mut p, 4, SignalType::SigChld, 7);
    Signal::send_to_process(&mut p, 5, SignalType::SigChld, 8);
    assert_eq!(p.signals[0], Signal { sender: 4, sigtype: SignalType::SigChld, wstatus: 7 });
    assert_eq!(p.get_signal(SignalType::SigInt).unwrap_err(), ErrNo::EAGAIN);
    assert_eq!(p.get_signal(SignalType::SigChld).unwrap(), Signal::new(4, SignalType::SigChld, 7));
    assert_eq!(p.signals.len(), 1);
    assert_eq!(p.signals[0].sender, 5);
}

#[test]
fn signals_sent_by_pid() {
    let mut tree = ProcessTree::new();
    for pid in 1..4 {
        let mut p = Process::new();
        p.pid = pid;
        tree.insert(p);
    }
    assert_eq!(Signal::send_to_pid(&mut tree, 3, 1, SignalType::SigTerm, 0), Ok(3));
    assert_eq!(tree.procs[&3].signals.len(), 1);
    assert_eq!(tree.procs[&3].signals[0].sigtype, SignalType::SigTerm);
    assert_eq!(tree.procs[&1].signals.len(), 0);
    assert_eq!(Signal::send_to_pid(&mut tree, 9, 1, SignalType::SigTerm, 0), Err(ErrNo::ESRCH));
    assert_eq!(ErrNo::ESRCH.number(), 3);
}

#[test]
fn signals_from_a_pid() {
    let mut tree = ProcessTree::new();
    for pid in 1..3 {
        let mut p = Process::new();
        p.pid = pid;
        tree.insert(p);
    }
    let mut p = Process::new();
    Signal::send_to_process(&mut p, 2, SignalType::SigChld, 1);
    Signal::send_to_process(&mut p, 1, SignalType::SigChld, 2);
    assert_eq!(p.get_signal_from_pid(&tree, 5, SignalType::SigChld), Err(ErrNo::ESRCH));
    assert_eq!(p.get_signal_from_pid(&tree, 1, SignalType::SigInt), Err(ErrNo::EAGAIN));
    assert_eq!(p.get_signal_from_pid(&tree, 1, SignalType::SigChld), Ok(Signal::new(1, SignalType::SigChld, 2)));
    assert_eq!(p.signals, vec![Signal::new(2, SignalType::SigChld, 1)]);
    tree.insert(p);
    assert_eq!(
        Process::get_signal_running_process(&mut tree, 0, -1, SignalType::SigChld),
        Ok(Signal::new(2, SignalType::SigChld, 1))
    );
    assert_eq!(Process::get_signal_running_process(&mut tree, 0, 7, SignalType::SigChld), Err(ErrNo::ESRCH));
}

#[test]
fn signal_handlers_replace_older() {
    let mut p = Process::new();
    assert_eq!(sys_signal(2, 0x1000, &mut p), 0x1000);
    sys_signal(3, 0x2000, &mut p);
    sys_signal(2, 0x3000, &mut p);
    assert_eq!(p.signal_handlers.len(), 2);
    assert_eq!(p.signal_handlers[0].signal, 3);
    assert_eq!(p.signal_handlers[1].signal, 2);
    assert_eq!(p.signal_handlers[1].handler, 0x3000);
}

#[test]
fn identity_syscalls() {
    let mut p = Process::new();
    p.pid = 5;
    p.owner = 7;
    p.parent = Some(1);
    assert_eq!(sys_getpid(&p), 5);
    assert_eq!(sys_getuid(&p), 7);
    assert_eq!(sys_getppid(&p), 1);
    p.parent = None;
    assert_eq!(sys_getppid(&p), -1);
    assert_eq!(sys_wait4(-1, 0, 0, 0), 0);
    assert_eq!(Task::new().state, TaskStatus::Running);
}

#[test]
fn wait_statuses() {
    let s = w_exitcode(2, 0);
    assert_eq!(s, 0x200);
    assert!(w_ifexited(s));
    assert_eq!(w_exitstatus(s), 2);
    let t = w_stopcode(9);
    assert_eq!(t, 0x97f);
    assert!(w_ifstopped(t));
    assert_eq!(w_stopsig(t), 9);
    assert_eq!(w_termsig(9), 9);
    assert!(w_ifsignaled(9));
    assert!(!w_ifsignaled(0));
    assert_eq!(w_coredump(0x80), 0x80);
    assert!(w_ifcontinued(0xffff));
}

#[test]
fn mmap_adds_zone() {
    let mut physmap = Bitmaps::new();
    let mut pd = PageDirectory::new(0x3000, 3);
    let mut p = Process::new();
    let mz = sys_mmap(0, 0x2000, 0, 3, -1, 0, &mut p, &mut pd, &mut physmap).unwrap();
    assert_eq!(mz.size, 0x2000);
    assert_eq!(p.mem_map.len(), 1);
    assert_eq!(physmap.used, 3);
}

#[test]
fn process_zones() {
    let mut physmap = Bitmaps::new();
    let mut pd = PageDirectory::new(0x3000, 3);
    let mut p = Process::new();
    p.setup_stack(0x2000, 3, false, &mut pd, &mut physmap);
    p.setup_heap(0x1000, 3, false, &mut pd, &mut physmap);
    p.setup_kernel_stack(3, &mut pd, &mut physmap);
    assert_eq!(p.stack.name, "stack");
    assert_eq!(p.heap.name, "heap");
    assert_eq!(p.kernel_stack.size, 0x1000);
    assert_eq!(physmap.used, 5);
}

#[test]
fn signals_reach_handlers() {
    let mut p = Process::new();
    sys_signal(2, 0x4000, &mut p);
    Signal::send_to_process(&mut p, 1, SignalType::SigChld, 0);
    Signal::send_to_process(&mut p, 1, SignalType::SigInt, 0);
    let mut task = Task::new();
    assert_eq!(task.do_signal(&mut p), Some(SignalHandler { signal: 2, handler: 0x4000 }));
    assert_eq!(task.state, TaskStatus::Uninterruptible);
    assert_eq!(p.signals, vec![Signal::new(1, SignalType::SigChld, 0)]);
    assert_eq!(task.do_signal(&mut p), None);
    assert_eq!(task.state, TaskStatus::Uninterruptible);
}

#[test]
fn waiting_task_woken_by_child_signal() {
    let (mut tree, mut tasks, mut mem) = with_init();
    tasks[0].state = TaskStatus::Interruptible;
    assert_eq!(Task::find_task(&mut tasks, &mut tree), NextTask::Skip);
    Signal::send_to_process(tree.procs.get_mut(&0).unwrap(), 1, SignalType::SigChld, 0);
    assert_eq!(Task::find_task(&mut tasks, &mut tree), NextTask::Run);
    assert_eq!(tasks[0].state, TaskStatus::Running);
    assert_eq!(tree.procs[&0].signals.len(), 1);
}

fn consistent(tree: &ProcessTree) -> bool {
    tree.procs.iter().all(|(k, p)| match p.parent {
        Some(pp) => pp != *k && tree.procs.get(&pp).map_or(false, |q| q.childs.contains(k)),
        None => true,
    })
}

#[test]
fn tree_stays_consistent() {
    let (mut tree, mut tasks, mut mem) = with_init();
    let a = fork(&mut tree, &mut tasks, &mut mem);
    schedule(&mut tasks);
    let b = fork(&mut tree, &mut tasks, &mut mem);
    let c = fork(&mut tree, &mut tasks, &mut mem);
    assert!(consistent(&tree));
    assert_eq!(Process::get_nb_process(&tree), 4);
    Process::zombify(&mut tree, a, 0);
    assert!(consistent(&tree));
    assert!(tree.procs.values().all(|p| p.parent != Some(a)));
    Process::remove(&mut tree, a);
    assert!(consistent(&tree));
    assert_eq!(Process::get_nb_process(&tree), 3);
    assert_eq!(tree.procs[&b].parent, Some(0));
    assert_eq!(tree.procs[&c].parent, Some(0));
}

#[test]
fn removal_and_zombie_checks() {
    let (mut tree, mut tasks, mut mem) = with_init();
    let pid = fork(&mut tree, &mut tasks, &mut mem);
    assert!(tree.can_remove(pid));
    assert!(tree.can_zombify(pid));
    // the first process has no parent
    assert!(!tree.can_remove(0));
    assert!(!tree.can_zombify(0));
    assert!(!tree.can_remove(99));
    assert!(!tree.can_zombify(99));
    // a parent that does not list the child
    tree.procs.get_mut(&0).unwrap().childs.clear();
    assert!(!tree.can_remove(pid));
    assert!(tree.can_zombify(pid));
    // a child that lists its own parent
    tree.procs.get_mut(&pid).unwrap().childs.push(0);
    assert!(!tree.can_zombify(pid));
}

#[test]
fn wait_checks() {
    let (mut tree, mut tasks, mut mem) = with_init();
    let pid = fork(&mut tree, &mut tasks, &mut mem);
    assert!(can_wait(&tree, &tasks, pid));
    assert!(can_wait(&tree, &tasks, -1));
    assert!(!can_wait(&tree, &tasks, 0));
    assert!(!can_wait(&tree, &tasks, -2));
    assert!(!can_wait(&tree, &VecDeque::new(), pid));
    schedule(&mut tasks);
    _exit(&mut tree, &mut tasks, 1);
    assert!(can_wait(&tree, &tasks, pid));
    // the child's parent no longer lists it: it could not be removed
    tree.procs.get_mut(&0).unwrap().childs.clear();
    assert!(!can_wait(&tree, &tasks, pid));
}

#[test]
fn fork_gives_child_registers_and_zones() {
    let (mut tree, mut tasks, mut mem) = with_init();
    tasks[0].regs = Registers { esp: 0x1234, eip: 0x5678, cr3: 0x3000, ds: 0x10, eax: 7, int_no: 3 };
    let used = mem.physmap.used_frames();
    let (pid, dir) = sys_fork(&mut tree, &mut tasks, &mut mem.pd, &mut mem.physmap, frames(), kernel_layout());
    assert_eq!(tasks[1].regs, Registers { esp: 0x1234, eip: 0x5678, cr3: 0x50_0000, ds: 0x10, eax: 0, int_no: u32::MAX });
    let child = &tree.procs[&pid];
    let parent = &tree.procs[&0];
    assert_eq!(child.kernel_stack.size, 0x1000);
    assert_eq!(child.stack.size, parent.stack.size);
    assert_eq!(child.heap.size, parent.heap.size);
    assert_eq!(child.stack.type_zone, TypeZone::Stack);
    assert_eq!(child.heap.type_zone, TypeZone::Heap);
    assert_ne!(child.stack.offset, parent.stack.offset);
    assert_ne!(child.heap.offset, parent.heap.offset);
    assert!(mem.physmap.used_frames() >= used + 9);
    assert_eq!(dir.get_entry(1023).value, 0x50_0007);
    assert_eq!(dir.get_entry(2).value, 0x51_0000 | 3 | 4 | 1);
}
