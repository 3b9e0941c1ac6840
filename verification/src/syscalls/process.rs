//! Creating processes.

use std::collections::VecDeque;

use vstd::prelude::*;

use crate::memory::paging::bitmap::{Bitmaps, PAGE_NUMBER};
use crate::memory::paging::page_directory::{frames_pre, PageDirectory};
use crate::memory::{MemoryZone, TypeZone};
use crate::proc::paging::{layout_ok, paging_of, KernelLayout, PagingFrames};
use crate::proc::process::{
    lemma_zone_fits, same_but_zones, same_core, tree_wf, zone_can_be_made, zone_made, Pid, Process, ProcessTree, Status,
};
use crate::proc::task::{Registers, Task, TaskStatus};

verus! {

/// A page directory and its tables.
pub type DirectoryView = (Seq<u32>, Seq<Seq<u32>>);

/// `child` is a new process with pid `pid` made from `parent`, running
/// executable `exe`: running, with the parent's owner, and no children,
/// signals, handlers or other zones yet.
pub open spec fn made_from(parent: Process, child: Process, pid: Pid, exe: Seq<char>) -> bool {
    &&& child.pid == pid
    &&& child.exe@ == exe
    &&& child.state == Status::Run
    &&& child.parent == Some(parent.pid)
    &&& child.owner == parent.owner
    &&& child.childs@.len() == 0
    &&& child.signals@.len() == 0
    &&& child.signal_handlers@.len() == 0
    &&& child.mem_map@.len() == 0
}

/// `f` is `m` after process `running` made child `res` running `exe`: the
/// child is in `f` under `res`, listed last among the children of
/// `running` (unless it took its place), and nothing else changed.
pub open spec fn spawned(m: Map<Pid, Process>, f: Map<Pid, Process>, running: Pid, res: Pid, exe: Seq<char>) -> bool {
    &&& f.dom() == m.dom().insert(res)
    &&& made_from(m[running], f[res], res, exe)
    &&& forall|k: Pid| k != res && k != running && m.contains_key(k) ==> #[trigger] f[k] == m[k]
    &&& res != running ==> {
        &&& same_core(m[running], f[running])
        &&& f[running].state == m[running].state
        &&& f[running].parent == m[running].parent
        &&& f[running].signals@ == m[running].signals@
        &&& f[running].childs@ == m[running].childs@.push(res)
    }
}

/// `f` is `m` after process `running` made child `res`, a copy of itself.
pub open spec fn forked(m: Map<Pid, Process>, f: Map<Pid, Process>, running: Pid, res: Pid) -> bool {
    spawned(m, f, running, res, m[running].exe@)
}

/// The kernel stack, the stack and (with `heap`) the heap of a child of
/// `parent`, with the sizes and flags of the parent's, can be made one
/// after the other from directory `pd` with used frames `used`, whatever
/// frames each of them takes.
pub open spec fn child_zones_fit(pd: DirectoryView, used: Set<int>, parent: Process, heap: bool) -> bool {
    &&& frames_pre(pd, PAGE_NUMBER - used.len(), 1)
    &&& forall|pd1: DirectoryView, u1: Set<int>, k: MemoryZone|
        #[trigger] zone_made(pd, used, TypeZone::Stack, 0x1000, parent.kernel_stack.flags, false, pd1, u1, k) ==> {
            &&& zone_can_be_made(pd1, u1, PAGE_NUMBER - u1.len(), parent.stack.size, parent.stack.kphys)
            &&& heap ==> forall|pd2: DirectoryView, u2: Set<int>, s: MemoryZone|
                #[trigger] zone_made(pd1, u1, TypeZone::Stack, parent.stack.size, parent.stack.flags, parent.stack.kphys, pd2, u2, s)
                    ==> zone_can_be_made(pd2, u2, PAGE_NUMBER - u2.len(), parent.heap.size, parent.heap.kphys)
        }
}

/// `child`'s kernel stack, stack and (with `heap`) heap were made in that
/// order from directory `pd` with used frames `used`, with the sizes and
/// flags of `parent`'s, leaving directory `npd` and used frames `nused`;
/// without `heap` its heap is unassigned.
pub open spec fn child_zones_made(
    pd: DirectoryView,
    used: Set<int>,
    parent: Process,
    child: Process,
    heap: bool,
    npd: DirectoryView,
    nused: Set<int>,
) -> bool {
    exists|pd1: DirectoryView, u1: Set<int>, pd2: DirectoryView, u2: Set<int>|
        #![trigger zone_made(pd, used, TypeZone::Stack, 0x1000, parent.kernel_stack.flags, false, pd1, u1, child.kernel_stack), zone_made(pd1, u1, TypeZone::Stack, parent.stack.size, parent.stack.flags, parent.stack.kphys, pd2, u2, child.stack)]
        {
            &&& zone_made(pd, used, TypeZone::Stack, 0x1000, parent.kernel_stack.flags, false, pd1, u1, child.kernel_stack)
            &&& zone_made(pd1, u1, TypeZone::Stack, parent.stack.size, parent.stack.flags, parent.stack.kphys, pd2, u2, child.stack)
            &&& heap ==> zone_made(pd2, u2, TypeZone::Heap, parent.heap.size, parent.heap.flags, parent.heap.kphys, npd, nused, child.heap)
            &&& !heap ==> npd == pd2 && nused == u2 && child.heap.type_zone == TypeZone::Unassigned
        }
}

/// The registers of a child made by fork from a task with registers `r`:
/// the same, but for the directory `cr3`, 0 in `eax` (what fork gives
/// back in the child) and no interrupt.
pub open spec fn fork_registers(r: Registers, cr3: u32) -> Registers {
    Registers { esp: r.esp, eip: r.eip, cr3, ds: r.ds, eax: 0, int_no: u32::MAX }
}

/// Makes the kernel stack and the stack of `child`, and its heap with
/// `heap`, from those of `parent`.
pub(crate) fn make_child_zones(child: &mut Process, parent: &Process, heap: bool, pd: &mut PageDirectory, physmap: &mut Bitmaps)
    requires
        old(pd).wf(),
        old(physmap).wf(),
        child_zones_fit(old(pd)@, old(physmap)@, *parent, heap),
        old(child).heap.type_zone == TypeZone::Unassigned,
    ensures
        final(pd).wf(),
        final(physmap).wf(),
        child_zones_made(old(pd)@, old(physmap)@, *parent, *final(child), heap, final(pd)@, final(physmap)@),
        final(child).stack.offset + final(child).stack.size <= u32::MAX,
        same_but_zones(*old(child), *final(child)),
{
    let ghost pd0 = pd@;
    let ghost u0 = physmap@;
    child.setup_kernel_stack(parent.kernel_stack.flags, pd, physmap);
    let ghost pd1 = pd@;
    let ghost u1 = physmap@;
    assert(zone_made(pd0, u0, TypeZone::Stack, 0x1000, parent.kernel_stack.flags, false, pd1, u1, child.kernel_stack));
    child.setup_stack(parent.stack.size, parent.stack.flags, parent.stack.kphys, pd, physmap);
    let ghost pd2 = pd@;
    let ghost u2 = physmap@;
    proof {
        lemma_zone_fits(pd1, u1, TypeZone::Stack, parent.stack.size, parent.stack.flags, parent.stack.kphys, pd2, u2, child.stack);
    }
    assert(zone_made(pd1, u1, TypeZone::Stack, parent.stack.size, parent.stack.flags, parent.stack.kphys, pd2, u2, child.stack));
    if heap {
        child.setup_heap(parent.heap.size, parent.heap.flags, parent.heap.kphys, pd, physmap);
    }
    assert(zone_made(pd0, u0, TypeZone::Stack, 0x1000, parent.kernel_stack.flags, false, pd1, u1, child.kernel_stack));
}

/// Makes a child of the running process (that of the first task of
/// `tasks`), a copy of it: it takes the next pid, goes into the tree under
/// it and among the parent's children; its kernel stack, stack and heap
/// are made like the parent's in `pd` (see `child_zones_made`), and its
/// page directory, at `frames`, maps them (see `paging_of`). A task of it
/// goes after the others, with the running task's registers but for its
/// directory, 0 in `eax` and no interrupt (see `fork_registers`). Gives
/// its pid and its page directory. Copying the parent's memory into the
/// child's zones is left to the caller.
pub fn sys_fork(
    tree: &mut ProcessTree,
    tasks: &mut VecDeque<Task>,
    pd: &mut PageDirectory,
    physmap: &mut Bitmaps,
    frames: PagingFrames,
    layout: KernelLayout,
) -> (res: (Pid, PageDirectory))
    requires
        old(tree).wf(),
        old(tasks)@.len() > 0,
        old(tree).procs@.contains_key(old(tasks)@[0].process),
        old(tree).next_pid < i32::MAX,
        old(pd).wf(),
        old(physmap).wf(),
        layout_ok(layout),
        child_zones_fit(old(pd)@, old(physmap)@, old(tree).procs@[old(tasks)@[0].process], true),
    ensures
        final(tree).wf(),
        res.0 == old(tree).next_pid,
        !old(tree).procs@.contains_key(res.0),
        final(tree).next_pid == old(tree).next_pid + 1,
        forked(old(tree).procs@, final(tree).procs@, old(tasks)@[0].process, res.0),
        final(pd).wf(),
        final(physmap).wf(),
        child_zones_made(
            old(pd)@,
            old(physmap)@,
            old(tree).procs@[old(tasks)@[0].process],
            final(tree).procs@[res.0],
            true,
            final(pd)@,
            final(physmap)@,
        ),
        res.1.wf(),
        res.1@ == paging_of(old(tree).procs@[old(tasks)@[0].process], final(tree).procs@[res.0], final(pd)@, frames, layout),
        final(tasks)@ == old(tasks)@.push(
            Task { state: TaskStatus::Running, process: res.0, regs: fork_registers(old(tasks)@[0].regs, frames.directory) },
        ),
{
    broadcast use vstd::std_specs::btree::group_btree_axioms;
    let running = Process::get_running_process(tasks);
    let regs = Task::get_running_task(tasks).regs;
    let mut parent = tree.procs.remove(&running).unwrap();
    let mut child = Process::new();
    let mut next = tree.next_pid;
    child.init(&parent, &mut next);
    tree.next_pid = next;
    let pid = child.pid;
    make_child_zones(&mut child, &parent, true, pd, physmap);
    let page_dir = child.setup_pagination(&parent, pd, frames, layout);
    parent.childs.push(pid);
    tree.procs.insert(running, parent);
    tree.procs.insert(pid, child);
    let mut task = Task::new();
    task.process = pid;
    task.regs = regs;
    task.regs.int_no = u32::MAX;
    task.regs.cr3 = frames.directory;
    task.regs.eax = 0;
    tasks.push_back(task);
    assert(tree.procs@.dom() =~= old(tree).procs@.dom().insert(pid));
    proof {
        lemma_spawned_wf(old(tree).procs@, tree.procs@, running, pid, old(tree).procs@[running].exe@);
    }
    (pid, page_dir)
}

/// A process made under the next pid keeps the tree well-formed, with the
/// next pid one further.
pub proof fn lemma_spawned_wf(m: Map<Pid, Process>, f: Map<Pid, Process>, running: Pid, res: Pid, exe: Seq<char>)
    requires
        tree_wf(m, res),
        res < i32::MAX,
        m.contains_key(running),
        spawned(m, f, running, res, exe),
    ensures
        !m.contains_key(res),
        tree_wf(f, (res + 1) as Pid),
{
    assert forall|k: Pid| #[trigger] f.contains_key(k) implies f[k].pid == k && k < res + 1 by {
        if k != res {
            assert(m.contains_key(k));
            if k != running {
                assert(f[k] == m[k]);
            }
        }
    }
}

} // verus!
