//! Waiting for children, and the encoding of wait statuses.

use vstd::prelude::*;

use std::collections::VecDeque;

use crate::errno::ErrNo;
use crate::proc::process::{removable, removed, signal_taken, wanted, Pid, Process, ProcessTree};
use crate::proc::signal::{Signal, SignalType};
use crate::proc::task::{Task, TaskStatus};

verus! {

/// Return at once when no child has changed state.
pub const WNOHANG: u32 = 0x01;

/// Report stopped children too.
pub const WUNTRACED: u32 = 0x02;

/// The status of a continued child.
pub const W_CONTINUED: i32 = 0xffff;

/// The flag of a status whose process dumped core.
pub const WCOREFLAG: i32 = 0x80;

/// An elapsed time.
#[derive(Debug, Clone, Copy)]
pub struct Timeval {
    pub tv_sec: usize,
    pub tv_usec: usize,
}

/// The resources a process used.
#[derive(Debug, Clone, Copy)]
pub struct RUsage {
    pub ru_utime: Timeval,
    pub ru_stime: Timeval,
    pub ru_maxrss: usize,
    pub ru_ixrss: usize,
    pub ru_idrss: usize,
    pub ru_isrss: usize,
    pub ru_minflt: usize,
    pub ru_majflt: usize,
    pub ru_nswap: usize,
    pub ru_inblock: usize,
    pub ru_oublock: usize,
    pub ru_msgsnd: usize,
    pub ru_msgrcv: usize,
    pub ru_nsignals: usize,
    pub ru_nvcsw: usize,
    pub ru_nivcsw: usize,
}

/// Waiting on a child with its resource use is not supported: it returns
/// 0 at once, as with `WNOHANG` and no child changed.
pub fn sys_wait4(pid: Pid, wstatus: usize, options: u32, rusage: usize) -> (res: Pid)
    ensures
        res == 0,
{
    0
}

/// What one pass of a wait for a child ends with.
#[derive(Debug, Clone, Copy, PartialEq, Eq, Structural)]
pub enum WaitStep {
    /// A child's `SigChld` was taken: its pid and the status it carries;
    /// the child has left the tree.
    Reaped(Pid, i32),
    /// There is no such child: the wait gives -10 (`ECHILD`).
    NoChild,
    /// No child has changed and `WNOHANG` was asked: the wait gives 0.
    NoHang,
    /// No child has changed: the running task now waits, and the wait
    /// tries again once it is scheduled.
    Blocked,
}

/// What a pass of waiting needs: a running task whose process is in the
/// tree, a wait on one child or on any (-1), and, for each `SigChld` of the
/// running process from a sender still in the tree, a sender that can
/// leave it.
pub open spec fn wait_ready(m: Map<Pid, Process>, tasks: Seq<Task>, pid: Pid) -> bool {
    &&& tasks.len() > 0
    &&& m.contains_key(tasks[0].process)
    &&& pid == -1 || pid > 0
    &&& forall|i: int|
        #![trigger m[tasks[0].process].signals@[i]]
        0 <= i < m[tasks[0].process].signals@.len() && ({
            let s = m[tasks[0].process].signals@[i];
            s.sigtype == SignalType::SigChld && m.contains_key(s.sender)
        }) ==> removable(m, m[tasks[0].process].signals@[i].sender)
}

/// Whether a pass of waiting on `pid` can be made (see `wait_ready`).
pub fn can_wait(tree: &ProcessTree, tasks: &VecDeque<Task>, pid: Pid) -> (res: bool)
    ensures
        res == wait_ready(tree.procs@, tasks@, pid),
{
    broadcast use vstd::std_specs::btree::group_btree_axioms;
    if tasks.len() == 0 || !(pid == -1 || pid > 0) {
        return false;
    }
    let running = Task::get_running_task(tasks).process;
    let process = match tree.procs.get(&running) {
        None => return false,
        Some(p) => p,
    };
    let mut i: usize = 0;
    while i < process.signals.len()
        invariant
            tasks@.len() > 0,
            running == tasks@[0].process,
            tree.procs@.contains_key(running),
            *process == tree.procs@[running],
            i <= process.signals@.len(),
            forall|k: int|
                #![trigger process.signals@[k]]
                0 <= k < i && ({
                    let s = process.signals@[k];
                    s.sigtype == SignalType::SigChld && tree.procs@.contains_key(s.sender)
                }) ==> removable(tree.procs@, process.signals@[k].sender),
        decreases process.signals@.len() - i,
    {
        let s = process.signals[i];
        if s.sigtype == SignalType::SigChld && tree.procs.contains_key(&s.sender) && !tree.can_remove(s.sender) {
            proof {
                assert(tree.procs@[tasks@[0].process].signals@[i as int] == s);
            }
            return false;
        }
        i += 1;
    }
    true
}

/// One pass of waiting, for the running process (that of the first task
/// of `tasks`), on child `pid` (-1: any child): it takes the oldest
/// `SigChld` signal from that child (from any child for -1) and removes
/// the child from the tree when it is there.
pub fn waitpid_step(tree: &mut ProcessTree, tasks: &mut VecDeque<Task>, pid: Pid, options: u32) -> (res: WaitStep)
    requires
        old(tree).wf(),
        wait_ready(old(tree).procs@, old(tasks)@, pid),
    ensures
        final(tree).wf(),
        final(tree).next_pid == old(tree).next_pid,
        ({
            let m = old(tree).procs@;
            let running = old(tasks)@[0].process;
            match res {
                WaitStep::Reaped(sender, wstatus) => {
                    &&& final(tasks)@ == old(tasks)@
                    &&& exists|mid: Map<Pid, Process>|
                        {
                            &&& #[trigger] signal_taken(
                                m,
                                mid,
                                running,
                                pid,
                                SignalType::SigChld,
                                Ok(Signal { sender, sigtype: SignalType::SigChld, wstatus }),
                            )
                            &&& mid.contains_key(sender) ==> removed(mid, final(tree).procs@, sender)
                            &&& !mid.contains_key(sender) ==> final(tree).procs@ == mid
                        }
                },
                WaitStep::NoChild => {
                    &&& final(tasks)@ == old(tasks)@
                    &&& signal_taken(m, final(tree).procs@, running, pid, SignalType::SigChld, Err(ErrNo::ESRCH))
                },
                WaitStep::NoHang => {
                    &&& options & WNOHANG != 0
                    &&& final(tasks)@ == old(tasks)@
                    &&& signal_taken(m, final(tree).procs@, running, pid, SignalType::SigChld, Err(ErrNo::EAGAIN))
                },
                WaitStep::Blocked => {
                    &&& options & WNOHANG == 0
                    &&& final(tasks)@ == old(tasks)@.update(
                        0,
                        Task { state: TaskStatus::Interruptible, process: running, regs: old(tasks)@[0].regs },
                    )
                    &&& signal_taken(m, final(tree).procs@, running, pid, SignalType::SigChld, Err(ErrNo::EAGAIN))
                },
            }
        }),
{
    broadcast use vstd::std_specs::btree::group_btree_axioms;
    let ghost m = tree.procs@;
    let running = Process::get_running_process(tasks);
    let taken = Process::get_signal_running_process(tree, running, pid, SignalType::SigChld);
    match taken {
        Ok(signal) => {
            let ghost mid = tree.procs@;
            proof {
                let olds = m[running].signals@;
                let sel = if pid == -1 { None } else { Some(pid) };
                let i = choose|i: int| {
                    &&& 0 <= i < olds.len()
                    &&& #[trigger] olds[i] == signal
                    &&& wanted(signal, sel, SignalType::SigChld)
                    &&& forall|j: int| 0 <= j < i ==> !wanted(#[trigger] olds[j], sel, SignalType::SigChld)
                    &&& mid[running].signals@ == olds.remove(i)
                };
                assert(olds[i] == signal);
                assert(signal.sigtype == SignalType::SigChld);
                if mid.contains_key(signal.sender) {
                    assert(removable(m, signal.sender));
                    let pp = m[signal.sender].parent.unwrap();
                    assert(mid[signal.sender].parent == m[signal.sender].parent);
                    assert(mid[pp].childs@ == m[pp].childs@);
                }
            }
            if tree.procs.contains_key(&signal.sender) {
                Process::remove(tree, signal.sender);
            }
            proof {
                let s = Signal { sender: signal.sender, sigtype: SignalType::SigChld, wstatus: signal.wstatus };
                assert(s == signal);
                assert(signal_taken(m, mid, running, pid, SignalType::SigChld, Ok(s)));
                assert(mid.contains_key(signal.sender) ==> removed(mid, tree.procs@, signal.sender));
                assert(!mid.contains_key(signal.sender) ==> tree.procs@ == mid);
                assert({
                    &&& signal_taken(m, mid, running, pid, SignalType::SigChld, Ok(s))
                    &&& mid.contains_key(s.sender) ==> removed(mid, tree.procs@, s.sender)
                    &&& !mid.contains_key(s.sender) ==> tree.procs@ == mid
                });
            }
            WaitStep::Reaped(signal.sender, signal.wstatus)
        },
        Err(ErrNo::ESRCH) => WaitStep::NoChild,
        Err(_) => {
            if options & WNOHANG != 0 {
                WaitStep::NoHang
            } else {
                let mut task = tasks.pop_front().unwrap();
                task.state = TaskStatus::Interruptible;
                tasks.push_front(task);
                assert(tasks@ =~= old(tasks)@.update(0, Task { state: TaskStatus::Interruptible, process: running, regs: old(tasks)@[0].regs }));
                WaitStep::Blocked
            }
        },
    }
}

/// The fields of a status word.
proof fn lemma_status_bits(x: i32)
    by (bit_vector)
    ensures
        0 <= (x & 0xff00i32) >> 8i32 < 256,
        0 <= x & 0x7fi32 < 128,
{
}

/// The exit code of a status: its bits 15-8.
pub fn w_exitstatus(status: i32) -> (res: i32)
    ensures
        res == (status & 0xff00) >> 8,
        0 <= res < 256,
{
    let r = (status & 0xff00) >> 8;
    proof {
        lemma_status_bits(status);
    }
    r
}

/// The signal that ended a process: bits 6-0 of its status.
pub fn w_termsig(status: i32) -> (res: i32)
    ensures
        res == status & 0x7f,
        0 <= res < 128,
{
    proof {
        lemma_status_bits(status);
    }
    status & 0x7f
}

/// The signal that stopped a process: the exit code bits.
pub fn w_stopsig(status: i32) -> (res: i32)
    ensures
        res == (status & 0xff00) >> 8,
{
    w_exitstatus(status)
}

/// Whether the process exited: no terminating signal.
pub fn w_ifexited(status: i32) -> (res: bool)
    ensures
        res == (status & 0x7f == 0),
{
    w_termsig(status) == 0
}

/// Whether a signal ended the process: `((status & 0x7f) + 1) >> 1` is
/// positive, that is bits 6-0 are not 0.
pub fn w_ifsignaled(status: i32) -> (res: bool)
    ensures
        res == ((((status & 0x7f) + 1) as i32 >> 1i32) > 0),
{
    let t = status & 0x7f;
    proof {
        lemma_status_bits(status);
    }
    ((t + 1) >> 1) > 0
}

/// Whether the process is stopped: low byte 0x7f.
pub fn w_ifstopped(status: i32) -> (res: bool)
    ensures
        res == (status & 0xff == 0x7f),
{
    (status & 0xff) == 0x7f
}

/// Whether the process was continued.
pub fn w_ifcontinued(status: i32) -> (res: bool)
    ensures
        res == (status == W_CONTINUED),
{
    status == W_CONTINUED
}

/// The core dump flag of a status.
pub fn w_coredump(status: i32) -> (res: i32)
    ensures
        res == status & WCOREFLAG,
{
    status & WCOREFLAG
}

/// The status of a process that exited with `ret` after signal `sig`:
/// `ret` shifted into bits 15-8 and up, `sig` or-ed in.
pub fn w_exitcode(ret: i32, sig: i32) -> (res: i32)
    ensures
        res == (ret << 8i32) | sig,
{
    (ret << 8) | sig
}

/// The status of a process stopped by `sig`: `sig` shifted into bits 15-8
/// and up, 0x7f in the low bits.
pub fn w_stopcode(sig: i32) -> (res: i32)
    ensures
        res == (sig << 8i32) | 0x7f,
{
    (sig << 8) | 0x7f
}

/// The status of a process that exited with code `code` (0 to 255)
/// reads as exited, with that code.
pub proof fn lemma_exit_status_round_trip(code: i32)
    by (bit_vector)
    requires
        0 <= code < 256,
    ensures
        ((code << 8i32) | 0i32) & 0x7fi32 == 0,
        (((code << 8i32) | 0i32) & 0xff00i32) >> 8i32 == code,
{
}

/// The status of a process stopped by signal `sig` (0 to 255) reads as
/// stopped, by that signal.
pub proof fn lemma_stop_status_round_trip(sig: i32)
    by (bit_vector)
    requires
        0 <= sig < 256,
    ensures
        ((sig << 8i32) | 0x7fi32) & 0xffi32 == 0x7f,
        (((sig << 8i32) | 0x7fi32) & 0xff00i32) >> 8i32 == sig,
{
}

} // verus!
