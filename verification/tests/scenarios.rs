use kfs::proc::process::{Process, ProcessTree, Status};
use kfs::proc::signal::SignalHandler;
use kfs::memory::TypeZone;
use kfs::proc::args::args_layout;
use kfs::proc::task::{NextTask, Registers, Task};
use kfs::proc::{_exit, exec_fn};
use kfs::syscalls::exit::{w_exitstatus, w_ifexited, w_ifsignaled, waitpid_step, WaitStep};
use kfs::syscalls::signal::{sys_kill, sys_signal};
use kfs::syscalls::timer::{sys_getpid, sys_getppid};
use std::collections::VecDeque;
use kfs::memory::paging::bitmap::Bitmaps;
use kfs::memory::paging::page_directory::PageDirectory;

/// The kernel's page directory and frame bitmap, as processes are made.
struct Memory {
    pd: PageDirectory,
    physmap: Bitmaps,
}

/// Process 0 runs, with a kernel stack, a stack and a heap.
fn boot() -> (ProcessTree, VecDeque<Task>, Memory) {
    let mut mem = Memory { pd: PageDirectory::new(0x3000, 3), physmap: Bitmaps::new() };
    let mut tree = ProcessTree::new();
    let mut init = Process::new();
    init.state = Status::Run;
    init.setup_kernel_stack(3, &mut mem.pd, &mut mem.physmap);
    init.setup_stack(0x4000, 3, false, &mut mem.pd, &mut mem.physmap);
    init.setup_heap(0x4000, 3, false, &mut mem.pd, &mut mem.physmap);
    tree.insert(init);
    let mut tasks = VecDeque::new();
    tasks.push_back(Task::new());
    (tree, tasks, mem)
}

/// The address the tasks of functions started by `exec_fn` begin at.
const ENTRY: u32 = 0x0010_2000;

/// Starts the kernel function `name`, whose arguments have sizes `args`.
fn exec(tree: &mut ProcessTree, tasks: &mut VecDeque<Task>, mem: &mut Memory, name: &str, args: &[usize]) -> i32 {
    exec_fn(tree, tasks, name, &args.to_vec(), ENTRY, &mut mem.pd, &mut mem.physmap)
}

/// Lets the scheduler turn until the task of `pid` runs.
fn run_as(tasks: &mut VecDeque<Task>, pid: i32) {
    while tasks[0].process != pid {
        let t = tasks.pop_front().unwrap();
        tasks.push_back(t);
    }
}

/// Process `pid` returns `status` from its function.
fn exit_as(tree: &mut ProcessTree, tasks: &mut VecDeque<Task>, pid: i32, status: i32) {
    run_as(tasks, pid);
    assert_eq!(_exit(tree, tasks, status), pid);
}

/// Process `waiter` waits for `pid` and gets its status.
fn wait_as(tree: &mut ProcessTree, tasks: &mut VecDeque<Task>, waiter: i32, pid: i32) -> (i32, i32) {
    run_as(tasks, waiter);
    match waitpid_step(tree, tasks, pid, 0) {
        WaitStep::Reaped(sender, status) => (sender, status),
        other => panic!("unexpected {:?}", other),
    }
}

#[test]
fn test_exec_fn_no_args() {
    let (mut tree, mut tasks, mut mem) = boot();
    assert_eq!(Process::get_nb_process(&tree), 1);
    let pid = exec(&mut tree, &mut tasks, &mut mem, "simple_exec", &[]);
    assert_eq!(Process::get_nb_process(&tree), 2);
    assert_eq!(tree.procs[&pid].exe, "simple_exec");
    exit_as(&mut tree, &mut tasks, pid, 2);
    let (ret, wstatus) = wait_as(&mut tree, &mut tasks, 0, pid);
    assert_eq!(ret, pid);
    assert!(w_ifexited(wstatus));
    assert_eq!(w_exitstatus(wstatus), 2);
    assert_eq!(Process::get_nb_process(&tree), 1);
}

#[test]
fn test_simple_multiple_process() {
    let (mut tree, mut tasks, mut mem) = boot();
    let mut pids = [0; 3];
    pids[0] = exec(&mut tree, &mut tasks, &mut mem, "simple_exec", &[]);
    assert_eq!(Process::get_nb_process(&tree), 2);
    pids[1] = exec(&mut tree, &mut tasks, &mut mem, "add", &[4, 4]);
    assert_eq!(Process::get_nb_process(&tree), 3);
    pids[2] = exec(&mut tree, &mut tasks, &mut mem, "add", &[4, 4]);
    assert_eq!(Process::get_nb_process(&tree), 4);
    exit_as(&mut tree, &mut tasks, pids[0], 2);
    exit_as(&mut tree, &mut tasks, pids[1], 3);
    exit_as(&mut tree, &mut tasks, pids[2], 3);
    for (i, pid) in pids.iter().enumerate() {
        wait_as(&mut tree, &mut tasks, 0, *pid);
        assert_eq!(Process::get_nb_process(&tree), 3 - i);
    }
}

#[test]
fn test_subprocess() {
    let (mut tree, mut tasks, mut mem) = boot();
    let pid = exec(&mut tree, &mut tasks, &mut mem, "create_subprocess", &[]);
    run_as(&mut tasks, pid);
    let sub = exec(&mut tree, &mut tasks, &mut mem, "create_subprocess", &[]);
    exit_as(&mut tree, &mut tasks, sub, 0);
    let (ret, _) = wait_as(&mut tree, &mut tasks, pid, -1);
    assert_eq!(ret, sub);
    exit_as(&mut tree, &mut tasks, pid, 0);
    let (ret, _) = wait_as(&mut tree, &mut tasks, 0, pid);
    assert_eq!(ret, pid);
    assert_eq!(Process::get_nb_process(&tree), 1);
}

#[test]
fn test_sigkill() {
    let (mut tree, mut tasks, mut mem) = boot();
    let pid = exec(&mut tree, &mut tasks, &mut mem, "sub_fn", &[]);
    assert_eq!(Process::get_nb_process(&tree), 2);
    assert_ne!(sys_kill(&mut tree, &mut tasks, 666, 0), 0);
    assert_eq!(sys_kill(&mut tree, &mut tasks, pid, 0), 0);
    assert_eq!(sys_kill(&mut tree, &mut tasks, pid, 9), 0);
    let (_, wstatus) = wait_as(&mut tree, &mut tasks, 0, pid);
    assert!(w_ifsignaled(wstatus));
    assert_eq!(w_exitstatus(wstatus), 9);
    assert_eq!(Process::get_nb_process(&tree), 1);
}

#[test]
fn test_simple_signal() {
    let (mut tree, mut tasks, mut mem) = boot();
    let pid = exec(&mut tree, &mut tasks, &mut mem, "sub_fn", &[]);
    sys_signal(8, 0x1234, tree.procs.get_mut(&pid).unwrap());
    assert_eq!(sys_kill(&mut tree, &mut tasks, pid, 8), 0);
    run_as(&mut tasks, pid);
    assert_eq!(Task::find_task(&mut tasks, &mut tree), NextTask::Handle(SignalHandler { signal: 8, handler: 0x1234 }));
    // the handler exits with 42
    exit_as(&mut tree, &mut tasks, pid, 42);
    let (_, wstatus) = wait_as(&mut tree, &mut tasks, 0, pid);
    assert!(w_ifexited(wstatus));
    assert_eq!(w_exitstatus(wstatus), 42);
    assert_eq!(Process::get_nb_process(&tree), 1);
}

#[test]
fn test_pid() {
    let (mut tree, mut tasks, mut mem) = boot();
    assert_eq!(sys_getpid(&tree.procs[&0]), 0);
    assert_eq!(sys_getppid(&tree.procs[&0]), -1);
    let pid = exec(&mut tree, &mut tasks, &mut mem, "sub_test_pid", &[]);
    assert_eq!(sys_getppid(&tree.procs[&pid]), 0);
    run_as(&mut tasks, pid);
    let child = exec(&mut tree, &mut tasks, &mut mem, "subsub_test_pid", &[]);
    assert_eq!(sys_getppid(&tree.procs[&child]), pid);
    assert_eq!(sys_getpid(&tree.procs[&child]), pid + 1);
}

#[test]
fn exec_starts_below_its_arguments() {
    let (mut tree, mut tasks, mut mem) = boot();
    tasks[0].regs.cr3 = 0x3000;
    tasks[0].regs.ds = 0x10;
    let pid = exec(&mut tree, &mut tasks, &mut mem, "add_diff_type", &[4, 4, 8]);
    let stack = &tree.procs[&pid].stack;
    let top = stack.offset + stack.size as u32;
    assert_eq!(stack.size, 0x4000);
    assert_eq!(tasks[1].regs, Registers { esp: top - 20 - 8, eip: ENTRY, cr3: 0x3000, ds: 0x10, eax: 0, int_no: 0 });
    assert_eq!(tree.procs[&pid].kernel_stack.size, 0x1000);
    assert_eq!(tree.procs[&pid].heap.type_zone, TypeZone::Unassigned);
}

#[test]
fn args_layout_words_and_half_words() {
    let l = args_layout(0x1000, &vec![4, 2, 8]);
    assert_eq!(l.esp, 0xfe6);
    assert_eq!(l.func_at, 0xfea);
    assert_eq!(l.writes, vec![(0xfee, 4), (0xff2, 2), (0xff4, 4), (0xff8, 4)]);
    let l = args_layout(0x1000, &vec![]);
    assert_eq!(l.esp, 0xff4);
    assert_eq!(l.func_at, 0xff8);
    assert!(l.writes.is_empty());
}
