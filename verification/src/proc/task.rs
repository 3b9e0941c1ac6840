//! Tasks: what the scheduler runs, in turn, the running one first.

use std::collections::VecDeque;

use vstd::prelude::*;

use crate::proc::process::{lemma_tree_wf_kept, same_core, Pid, Process, ProcessTree};
use crate::proc::signal::{signal_number, SignalHandler, SignalType};

verus! {

/// The scheduling state of a task.
#[derive(Debug, Clone, Copy, PartialEq, Eq, Structural)]
pub enum TaskStatus {
    /// Runs normally.
    Running,
    /// In a signal handler: not signalled again.
    Uninterruptible,
    /// Waits for a change (a child to wait for).
    Interruptible,
}

/// The registers of a task that the kernel sets before it runs: its stack
/// pointer, its next instruction, its page directory, its data segment,
/// the value it finds in `eax`, and the interrupt it was stopped by
/// (`u32::MAX` for a task that has not run yet).
#[derive(Debug, Clone, Copy, PartialEq, Eq, Structural)]
pub struct Registers {
    pub esp: u32,
    pub eip: u32,
    pub cr3: u32,
    pub ds: u32,
    pub eax: u32,
    pub int_no: u32,
}

/// Registers that are all zero.
pub open spec fn zero_registers() -> Registers {
    Registers { esp: 0, eip: 0, cr3: 0, ds: 0, eax: 0, int_no: 0 }
}

impl Registers {
    /// Registers that are all zero.
    pub fn new() -> (res: Self)
        ensures
            res == zero_registers(),
    {
        Registers { esp: 0, eip: 0, cr3: 0, ds: 0, eax: 0, int_no: 0 }
    }
}

/// A task: its state, the pid of its process and its registers.
#[derive(Debug, Clone, Copy, PartialEq, Eq, Structural)]
pub struct Task {
    pub state: TaskStatus,
    pub process: Pid,
    pub regs: Registers,
}

/// The tasks of `s` that do not run process `pid`, in order.
pub open spec fn tasks_without(s: Seq<Task>, pid: Pid) -> Seq<Task>
    decreases s.len(),
{
    if s.len() == 0 {
        Seq::empty()
    } else if s.last().process == pid {
        tasks_without(s.drop_last(), pid)
    } else {
        tasks_without(s.drop_last(), pid).push(s.last())
    }
}

/// What looking at the signals of a task's process comes to.
pub enum SignalScan {
    /// A signal that kills the task was found: not handled yet.
    Kill,
    /// No signal to handle: the task ends in this state.
    Done(TaskStatus),
    /// Signal `index` is handled by `handler`.
    Handle(int, SignalHandler),
}

/// The first handler of `handlers` for signal number `number`.
pub open spec fn handler_for(handlers: Seq<SignalHandler>, number: i32) -> Option<SignalHandler> {
    if exists|i: int| 0 <= i < handlers.len() && handlers[i].signal == number {
        let i = choose|i: int|
            0 <= i < handlers.len() && handlers[i].signal == number && forall|j: int|
                0 <= j < i ==> handlers[j].signal != number;
        Some(handlers[i])
    } else {
        None
    }
}

/// Looking at signals `i` on of `sigs` for a task in state `state`: a kill
/// signal stops the look unless the task is in a handler; a running task
/// handles the first signal it has a handler for; a waiting task runs
/// again on a `SigChld`.
pub open spec fn scan_signals(state: TaskStatus, sigs: Seq<crate::proc::signal::Signal>, handlers: Seq<SignalHandler>, i: nat) -> SignalScan
    decreases sigs.len() - i,
{
    if i >= sigs.len() {
        SignalScan::Done(state)
    } else if state != TaskStatus::Uninterruptible && sigs[i as int].sigtype == SignalType::SigKill {
        SignalScan::Kill
    } else if state == TaskStatus::Running {
        match handler_for(handlers, signal_number(sigs[i as int].sigtype)) {
            Some(h) => SignalScan::Handle(i as int, h),
            None => scan_signals(state, sigs, handlers, i + 1),
        }
    } else if state == TaskStatus::Interruptible && sigs[i as int].sigtype == SignalType::SigChld {
        scan_signals(TaskStatus::Running, sigs, handlers, i + 1)
    } else {
        scan_signals(state, sigs, handlers, i + 1)
    }
}

/// What the scheduler does with the first task.
#[derive(Debug, Clone, Copy, PartialEq, Eq, Structural)]
pub enum NextTask {
    /// Run the task.
    Run,
    /// Run `handler` for signal `signal` in the task.
    Handle(SignalHandler),
    /// The task waits: put it last and look at the next one.
    Skip,
}

impl Task {
    /// A running task of the process with pid 0, its registers all zero.
    pub fn new() -> (res: Self)
        ensures
            res == (Task { state: TaskStatus::Running, process: 0, regs: zero_registers() }),
    {
        Task { state: TaskStatus::Running, process: 0, regs: Registers::new() }
    }

    /// The running task: the first of `tasks`.
    pub fn get_running_task(tasks: &VecDeque<Task>) -> (res: &Task)
        requires
            tasks@.len() > 0,
        ensures
            *res == tasks@[0],
    {
        &tasks[0]
    }

    /// Takes the tasks of process `pid` out of `tasks`; the others keep
    /// their order.
    pub fn remove_task_from_process(tasks: &mut VecDeque<Task>, pid: Pid)
        ensures
            final(tasks)@ == tasks_without(old(tasks)@, pid),
    {
        let len = tasks.len();
        let mut i: usize = 0;
        proof {
            assert(old(tasks)@.take(0) =~= Seq::<Task>::empty());
            assert(old(tasks)@.skip(0) =~= old(tasks)@);
        }
        while i < len
            invariant
                len == old(tasks)@.len(),
                i <= len,
                tasks@ == old(tasks)@.skip(i as int) + tasks_without(old(tasks)@.take(i as int), pid),
            decreases len - i,
        {
            let ghost before = tasks@;
            let task = tasks.pop_front().unwrap();
            proof {
                assert(task == old(tasks)@[i as int]);
                assert(old(tasks)@.take(i + 1).drop_last() =~= old(tasks)@.take(i as int));
                assert(old(tasks)@.take(i + 1).last() == task);
                assert(tasks@ =~= old(tasks)@.skip(i + 1) + tasks_without(old(tasks)@.take(i as int), pid));
            }
            if task.process != pid {
                tasks.push_back(task);
            }
            i += 1;
            proof {
                assert(tasks@ =~= old(tasks)@.skip(i as int) + tasks_without(old(tasks)@.take(i as int), pid));
            }
        }
        proof {
            assert(old(tasks)@.take(len as int) =~= old(tasks)@);
            assert(tasks@ =~= tasks_without(old(tasks)@, pid));
        }
    }

    /// Deals with the pending signals of `process`, whose task this is. A
    /// running task gets the handler of the first signal it has a handler
    /// for: that signal is taken out and the task is then in a handler. A
    /// waiting task wakes up on a `SigChld`.
    pub fn do_signal(&mut self, process: &mut Process) -> (res: Option<SignalHandler>)
        requires
            !(scan_signals(old(self).state, old(process).signals@, old(process).signal_handlers@, 0) is Kill),
        ensures
            final(self).process == old(self).process,
            same_core(*old(process), *final(process)),
            final(process).state == old(process).state,
            final(process).parent == old(process).parent,
            final(process).childs@ == old(process).childs@,
            match scan_signals(old(self).state, old(process).signals@, old(process).signal_handlers@, 0) {
                SignalScan::Done(state) => res is None && final(self).state == state && final(process).signals@
                    == old(process).signals@,
                SignalScan::Handle(i, h) => res == Some(h) && final(self).state == TaskStatus::Uninterruptible
                    && final(process).signals@ == old(process).signals@.remove(i),
                SignalScan::Kill => false,
            },
    {
        let len = process.signals.len();
        let mut i: usize = 0;
        while i < len
            invariant
                i <= len == process.signals@.len(),
                *process == *old(process),
                self.process == old(self).process,
                scan_signals(self.state, process.signals@, process.signal_handlers@, i as nat) == scan_signals(
                    old(self).state,
                    old(process).signals@,
                    old(process).signal_handlers@,
                    0,
                ),
                !(scan_signals(old(self).state, old(process).signals@, old(process).signal_handlers@, 0) is Kill),
            decreases len - i,
        {
            let sigtype = process.signals[i].sigtype;
            if self.state != TaskStatus::Uninterruptible && sigtype == SignalType::SigKill {
                assert(scan_signals(self.state, process.signals@, process.signal_handlers@, i as nat) is Kill);
                assert(false);
            } else if self.state == TaskStatus::Running {
                let number = sigtype.number();
                let mut k: usize = 0;
                while k < process.signal_handlers.len()
                    invariant
                        i < len == process.signals@.len(),
                        *process == *old(process),
                        self.process == old(self).process,
                        self.state == TaskStatus::Running,
                        sigtype == process.signals@[i as int].sigtype,
                        sigtype != SignalType::SigKill,
                        number == signal_number(sigtype),
                        scan_signals(self.state, process.signals@, process.signal_handlers@, i as nat) == scan_signals(
                            old(self).state,
                            old(process).signals@,
                            old(process).signal_handlers@,
                            0,
                        ),
                        k <= process.signal_handlers@.len(),
                        forall|j: int| 0 <= j < k ==> process.signal_handlers@[j].signal != number,
                    decreases process.signal_handlers@.len() - k,
                {
                    let handler = process.signal_handlers[k];
                    if handler.signal == number {
                        proof {
                            let c = choose|c: int|
                                0 <= c < process.signal_handlers@.len() && process.signal_handlers@[c].signal == number
                                    && forall|j: int| 0 <= j < c ==> process.signal_handlers@[j].signal != number;
                            assert(c == k) by {
                                if c < k {
                                    assert(process.signal_handlers@[c].signal != number);
                                }
                                if c > k {
                                    assert(process.signal_handlers@[k as int].signal == number);
                                }
                            }
                            assert(handler_for(process.signal_handlers@, number) == Some(handler));
                            assert(scan_signals(self.state, process.signals@, process.signal_handlers@, i as nat)
                                == SignalScan::Handle(i as int, handler));
                        }
                        process.signals.remove(i);
                        self.state = TaskStatus::Uninterruptible;
                        return Some(handler);
                    }
                    k += 1;
                }
                assert(handler_for(process.signal_handlers@, number) is None);
            } else if self.state == TaskStatus::Interruptible && sigtype == SignalType::SigChld {
                self.state = TaskStatus::Running;
            }
            i += 1;
        }
        None
    }

    /// One look of the scheduler at the first task of `tasks`, whose
    /// process is in `tree`: its signals are looked at first (see
    /// `do_signal`); then it runs, or handles a signal, unless it waits.
    pub fn find_task(tasks: &mut VecDeque<Task>, tree: &mut ProcessTree) -> (res: NextTask)
        requires
            old(tasks)@.len() > 0,
            old(tree).procs@.contains_key(old(tasks)@[0].process),
            old(tree).procs@[old(tasks)@[0].process].signals@.len() > 0 ==> !(scan_signals(
                old(tasks)@[0].state,
                old(tree).procs@[old(tasks)@[0].process].signals@,
                old(tree).procs@[old(tasks)@[0].process].signal_handlers@,
                0,
            ) is Kill),
        ensures
            final(tasks)@.len() == old(tasks)@.len(),
            final(tasks)@[0].process == old(tasks)@[0].process,
            final(tasks)@.subrange(1, final(tasks)@.len() as int) == old(tasks)@.subrange(1, old(tasks)@.len() as int),
            final(tree).next_pid == old(tree).next_pid,
            old(tree).wf() ==> final(tree).wf(),
            final(tree).procs@.dom() == old(tree).procs@.dom(),
            forall|k: Pid| k != old(tasks)@[0].process && old(tree).procs@.contains_key(k) ==> #[trigger] final(tree).procs@[k]
                == old(tree).procs@[k],
            ({
                let t = old(tasks)@[0];
                let p = old(tree).procs@[t.process];
                let f = final(tree).procs@[t.process];
                &&& same_core(p, f)
                &&& f.state == p.state
                &&& f.parent == p.parent
                &&& f.childs@ == p.childs@
                &&& p.signals@.len() == 0 ==> f.signals@ == p.signals@ && final(tasks)@[0] == t && res == (
                    if t.state != TaskStatus::Interruptible {
                        NextTask::Run
                    } else {
                        NextTask::Skip
                    })
                &&& p.signals@.len() > 0 ==> match scan_signals(t.state, p.signals@, p.signal_handlers@, 0) {
                    SignalScan::Done(state) => f.signals@ == p.signals@ && final(tasks)@[0].state == state && res == (
                        if state != TaskStatus::Interruptible {
                            NextTask::Run
                        } else {
                            NextTask::Skip
                        }),
                    SignalScan::Handle(i, h) => f.signals@ == p.signals@.remove(i) && final(tasks)@[0].state
                        == TaskStatus::Uninterruptible && res == NextTask::Handle(h),
                    SignalScan::Kill => false,
                }
            }),
    {
        broadcast use vstd::std_specs::btree::group_btree_axioms;
        let mut task = tasks.pop_front().unwrap();
        let pid = task.process;
        let mut process = tree.procs.remove(&pid).unwrap();
        let mut res = NextTask::Skip;
        let mut handled = false;
        if process.signals.len() > 0 {
            match task.do_signal(&mut process) {
                Some(h) => {
                    res = NextTask::Handle(h);
                    handled = true;
                },
                None => {},
            }
        }
        if !handled && task.state != TaskStatus::Interruptible {
            res = NextTask::Run;
        }
        tree.procs.insert(pid, process);
        tasks.push_front(task);
        assert(tree.procs@.dom() =~= old(tree).procs@.dom());
        proof {
            if old(tree).wf() {
                lemma_tree_wf_kept(old(tree).procs@, tree.procs@, tree.next_pid);
            }
        }
        assert(tasks@.subrange(1, tasks@.len() as int) =~= old(tasks)@.subrange(1, old(tasks)@.len() as int));
        res
    }
}

} // verus!
