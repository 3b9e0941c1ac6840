//! Processes, their signals and their tasks.

use vstd::prelude::*;

pub mod args;
pub mod lifecycle;
pub mod paging;
pub mod process;
pub mod signal;
pub mod task;

use std::collections::VecDeque;

use crate::proc::process::{zombifiable, zombified, Pid, Process, ProcessTree};
use crate::proc::task::Task;
use crate::syscalls::exit::w_exitcode;
use crate::memory::paging::bitmap::Bitmaps;
use crate::memory::paging::page_directory::PageDirectory;
use crate::memory::{MemoryZone, VirtAddr};
use crate::proc::args::{arg_size_ok, args_esp, args_layout, sizes_total};
use crate::proc::task::{Registers, TaskStatus};
use crate::syscalls::process::{child_zones_fit, child_zones_made, lemma_spawned_wf, make_child_zones, spawned};

verus! {

/// A process or user identifier.
pub type Id = i32;

/// The registers of a task that starts a function with arguments of sizes
/// `sizes` on stack `stack`, at `entry`, from a task with registers `r`:
/// the stack pointer below the arguments (see `args_esp`), the directory
/// and data segment of `r`, and nothing else.
pub open spec fn exec_registers(r: Registers, stack: MemoryZone, sizes: Seq<usize>, entry: VirtAddr) -> Registers {
    Registers {
        esp: args_esp(stack.offset + stack.size, sizes) as u32,
        eip: entry,
        cr3: r.cr3,
        ds: r.ds,
        eax: 0,
        int_no: 0,
    }
}

/// Makes a process that runs a kernel function, named `name`, with
/// arguments of sizes `args_size`: a child of the running process (that of
/// the first task of `tasks`) with the next pid, in the tree and among the
/// parent's children. Its kernel stack and stack are made like the
/// parent's in `pd`, and it has no heap (see `child_zones_made`). A task
/// of it goes after the others, starting at `entry` with its stack
/// pointer below the arguments (see `exec_registers`); placing the
/// arguments and the function on its stack (see `args_layout`) is left to
/// the caller. Gives its pid.
pub fn exec_fn(
    tree: &mut ProcessTree,
    tasks: &mut VecDeque<Task>,
    name: &str,
    args_size: &Vec<usize>,
    entry: VirtAddr,
    pd: &mut PageDirectory,
    physmap: &mut Bitmaps,
) -> (res: Pid)
    requires
        old(tree).wf(),
        old(tasks)@.len() > 0,
        old(tree).procs@.contains_key(old(tasks)@[0].process),
        old(tree).next_pid < i32::MAX,
        old(pd).wf(),
        old(physmap).wf(),
        child_zones_fit(old(pd)@, old(physmap)@, old(tree).procs@[old(tasks)@[0].process], false),
        forall|i: int| 0 <= i < args_size@.len() ==> arg_size_ok(#[trigger] args_size@[i]),
        sizes_total(args_size@) + 12 <= old(tree).procs@[old(tasks)@[0].process].stack.size,
    ensures
        final(tree).wf(),
        res == old(tree).next_pid,
        !old(tree).procs@.contains_key(res),
        final(tree).next_pid == old(tree).next_pid + 1,
        spawned(old(tree).procs@, final(tree).procs@, old(tasks)@[0].process, res, name@),
        final(pd).wf(),
        final(physmap).wf(),
        child_zones_made(
            old(pd)@,
            old(physmap)@,
            old(tree).procs@[old(tasks)@[0].process],
            final(tree).procs@[res],
            false,
            final(pd)@,
            final(physmap)@,
        ),
        final(tasks)@ == old(tasks)@.push(
            Task {
                state: TaskStatus::Running,
                process: res,
                regs: exec_registers(old(tasks)@[0].regs, final(tree).procs@[res].stack, args_size@, entry),
            },
        ),
{
    broadcast use vstd::std_specs::btree::group_btree_axioms;
    let running = Process::get_running_process(tasks);
    let regs = Task::get_running_task(tasks).regs;
    let mut parent = tree.procs.remove(&running).unwrap();
    let mut child = Process::new();
    let mut next = tree.next_pid;
    child.init(&parent, &mut next);
    tree.next_pid = next;
    child.exe = name.to_owned();
    let pid = child.pid;
    make_child_zones(&mut child, &parent, false, pd, physmap);
    let top = child.stack.offset + child.stack.size as u32;
    let layout = args_layout(top, args_size);
    let mut task = Task::new();
    task.process = pid;
    task.regs.esp = layout.esp;
    task.regs.eip = entry;
    task.regs.cr3 = regs.cr3;
    task.regs.ds = regs.ds;
    parent.childs.push(pid);
    tree.procs.insert(running, parent);
    tree.procs.insert(pid, child);
    tasks.push_back(task);
    assert(tree.procs@.dom() =~= old(tree).procs@.dom().insert(pid));
    proof {
        lemma_spawned_wf(old(tree).procs@, tree.procs@, running, pid, name@);
    }
    pid
}

/// Ends the running task (the first of `tasks`) with exit code `status`:
/// its process becomes a zombie whose status carries `status` as exit
/// code. Gives the pid of that process; what runs next is the
/// scheduler's choice.
pub fn _exit(tree: &mut ProcessTree, tasks: &mut VecDeque<Task>, status: i32) -> (res: Pid)
    requires
        old(tree).wf(),
        old(tasks)@.len() > 0,
        zombifiable(old(tree).procs@, old(tasks)@[0].process),
    ensures
        final(tree).wf(),
        res == old(tasks)@[0].process,
        final(tasks)@ == old(tasks)@.subrange(1, old(tasks)@.len() as int),
        final(tree).next_pid == old(tree).next_pid,
        zombified(old(tree).procs@, final(tree).procs@, res, (status << 8i32) | 0),
{
    let task = tasks.pop_front().unwrap();
    let pid = task.process;
    Process::zombify(tree, pid, w_exitcode(status, 0));
    pid
}

} // verus!
