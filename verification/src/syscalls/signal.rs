//! Installing signal handlers and sending signals.

use vstd::prelude::*;

use std::collections::VecDeque;

use crate::errno::ErrNo;
use crate::proc::process::{signalled, zombifiable, zombified, Pid, Process, ProcessTree};
use crate::proc::signal::{get_signal_type, signal_of, SigHandlerFn, Signal, SignalHandler, SignalType};
use crate::proc::task::{tasks_without, Task};
use crate::syscalls::exit::w_stopcode;

verus! {

/// The handlers after installing `handler` for `signal`: the first handler
/// for `signal`, if any, is removed, and the new one goes at the end.
pub open spec fn handlers_after(old: Seq<SignalHandler>, signal: i32, handler: SigHandlerFn) -> Seq<SignalHandler> {
    let kept = if exists|i: int| 0 <= i < old.len() && old[i].signal == signal {
        old.remove(
            choose|i: int|
                0 <= i < old.len() && old[i].signal == signal && forall|j: int| 0 <= j < i ==> old[j].signal != signal,
        )
    } else {
        old
    };
    kept.push(SignalHandler { signal, handler })
}

/// No two handlers are for the same signal.
pub open spec fn handlers_unique(s: Seq<SignalHandler>) -> bool {
    forall|i: int, j: int| 0 <= i < j < s.len() ==> s[i].signal != s[j].signal
}

/// Installing a handler keeps at most one handler per signal, and the one
/// for `signal` is then `handler`.
pub proof fn lemma_handlers_stay_unique(old: Seq<SignalHandler>, signal: i32, handler: SigHandlerFn)
    requires
        handlers_unique(old),
    ensures
        handlers_unique(handlers_after(old, signal, handler)),
        forall|i: int|
            0 <= i < handlers_after(old, signal, handler).len() && #[trigger] handlers_after(old, signal, handler)[i].signal
                == signal ==> handlers_after(old, signal, handler)[i].handler == handler,
{
    let new = handlers_after(old, signal, handler);
    if exists|i: int| 0 <= i < old.len() && old[i].signal == signal {
        let c = choose|i: int|
            0 <= i < old.len() && old[i].signal == signal && forall|j: int| 0 <= j < i ==> old[j].signal != signal;
        assert(exists|i: int|
            0 <= i < old.len() && old[i].signal == signal && forall|j: int| 0 <= j < i ==> old[j].signal != signal) by {
            let lo = choose|i: int| 0 <= i < old.len() && old[i].signal == signal;
            assert(forall|j: int| 0 <= j < lo ==> old[j].signal != signal);
        }
        let kept = old.remove(c);
        assert forall|i: int| 0 <= i < kept.len() implies kept[i].signal != signal by {
            if i < c {
                assert(kept[i] == old[i]);
            } else {
                assert(kept[i] == old[i + 1]);
                assert(old[c].signal == signal);
            }
        }
        assert forall|i: int, j: int| 0 <= i < j < new.len() implies new[i].signal != new[j].signal by {
            if j < kept.len() {
                let oi = if i < c { i } else { i + 1 };
                let oj = if j < c { j } else { j + 1 };
                assert(kept[i] == old[oi]);
                assert(kept[j] == old[oj]);
            }
        }
    } else {
        assert forall|i: int, j: int| 0 <= i < j < new.len() implies new[i].signal != new[j].signal by {
            if j < old.len() {
            } else {
                assert(old[i].signal != signal);
            }
        }
    }
}

/// The handlers of `s` for other signals than `signal`, in order.
pub open spec fn others(s: Seq<SignalHandler>, signal: i32) -> Seq<SignalHandler> {
    s.filter(|h: SignalHandler| h.signal != signal)
}

proof fn lemma_others_all(s: Seq<SignalHandler>, signal: i32)
    requires
        forall|i: int| 0 <= i < s.len() ==> s[i].signal != signal,
    ensures
        others(s, signal) == s,
    decreases s.len(),
{
    reveal(Seq::filter);
    if s.len() > 0 {
        lemma_others_all(s.drop_last(), signal);
        assert(s.drop_last().push(s.last()) =~= s);
    }
}

proof fn lemma_others_remove(s: Seq<SignalHandler>, signal: i32, c: int)
    requires
        0 <= c < s.len(),
        s[c].signal == signal,
        forall|j: int| 0 <= j < s.len() && j != c ==> s[j].signal != signal,
    ensures
        others(s, signal) == s.remove(c),
    decreases s.len(),
{
    reveal(Seq::filter);
    if c == s.len() - 1 {
        lemma_others_all(s.drop_last(), signal);
        assert(s.remove(c) =~= s.drop_last());
    } else {
        lemma_others_remove(s.drop_last(), signal, c);
        assert(s.remove(c) =~= s.drop_last().remove(c).push(s.last()));
    }
}

/// With at most one handler per signal, installing a handler for `signal`
/// leaves the handlers for other signals in their order and puts the new
/// one last.
pub proof fn lemma_handlers_after_filters(old: Seq<SignalHandler>, signal: i32, handler: SigHandlerFn)
    requires
        handlers_unique(old),
    ensures
        handlers_after(old, signal, handler) == others(old, signal).push(SignalHandler { signal, handler }),
{
    if exists|i: int| 0 <= i < old.len() && old[i].signal == signal {
        let lo = choose|i: int| 0 <= i < old.len() && old[i].signal == signal;
        assert(forall|j: int| 0 <= j < lo ==> old[j].signal != signal);
        let c = choose|i: int|
            0 <= i < old.len() && old[i].signal == signal && forall|j: int| 0 <= j < i ==> old[j].signal != signal;
        assert forall|j: int| 0 <= j < old.len() && j != c implies old[j].signal != signal by {
            if j < c {
            } else {
                assert(old[c].signal != old[j].signal);
            }
        }
        lemma_others_remove(old, signal, c);
    } else {
        lemma_others_all(old, signal);
    }
}

/// Installs `handler` for `signal` in `process`, in place of the first
/// handler for it; returns `handler`.
pub fn sys_signal(signal: i32, handler: SigHandlerFn, process: &mut Process) -> (res: SigHandlerFn)
    ensures
        res == handler,
        final(process).signal_handlers@ == handlers_after(old(process).signal_handlers@, signal, handler),
        final(process).pid == old(process).pid,
        final(process).signals@ == old(process).signals@,
{
    let ghost before = process.signal_handlers@;
    let mut i: usize = 0;
    let mut found: bool = false;
    while i < process.signal_handlers.len() && !found
        invariant
            i <= process.signal_handlers@.len(),
            process.signal_handlers@ == before,
            before == old(process).signal_handlers@,
            found ==> i < before.len() && before[i as int].signal == signal,
            forall|j: int| 0 <= j < i ==> before[j].signal != signal,
        decreases process.signal_handlers@.len() - i, if found { 0int } else { 1int },
    {
        if process.signal_handlers[i].signal == signal {
            found = true;
        } else {
            i += 1;
        }
    }
    if found {
        proof {
            let c = choose|c: int|
                0 <= c < before.len() && before[c].signal == signal && forall|j: int| 0 <= j < c ==> before[j].signal != signal;
            assert(c == i) by {
                if c < i {
                    assert(before[c].signal != signal);
                }
                if c > i {
                    assert(before[i as int].signal != signal);
                }
            }
        }
        let _ = process.signal_handlers.remove(i);
    }
    process.signal_handlers.push(SignalHandler { signal, handler });
    handler
}

/// Sends signal number `signal` to process `pid` (above 0) of `tree`, from
/// the process of the running task (the first of `tasks`): -3 (`ESRCH`)
/// without such a process, 0 for signal 0 (the check alone), -22
/// (`Inval`) for a number no signal has. `SigKill` makes the process a
/// zombie stopped by it and takes its tasks out of `tasks`; any other
/// signal is added to its signals. Both give 0.
pub fn sys_kill(tree: &mut ProcessTree, tasks: &mut VecDeque<Task>, pid: Pid, signal: i32) -> (res: i32)
    requires
        pid > 0,
        old(tree).wf(),
        old(tree).procs@.contains_key(pid) && signal != 0 && signal_of(signal) is Some ==> old(tasks)@.len() > 0,
        old(tree).procs@.contains_key(pid) && signal_of(signal) == Some(SignalType::SigKill) ==> zombifiable(
            old(tree).procs@,
            pid,
        ),
    ensures
        final(tree).wf(),
        final(tree).next_pid == old(tree).next_pid,
        !old(tree).procs@.contains_key(pid) ==> res == -3 && final(tree).procs@ == old(tree).procs@ && final(tasks)@
            == old(tasks)@,
        old(tree).procs@.contains_key(pid) && signal == 0 ==> res == 0 && final(tree).procs@ == old(tree).procs@
            && final(tasks)@ == old(tasks)@,
        old(tree).procs@.contains_key(pid) && signal != 0 && signal_of(signal) is None ==> res == -22 && final(tree).procs@
            == old(tree).procs@ && final(tasks)@ == old(tasks)@,
        old(tree).procs@.contains_key(pid) && signal != 0 && signal_of(signal) == Some(SignalType::SigKill) ==> res == 0
            && zombified(
            old(tree).procs@,
            final(tree).procs@,
            pid,
            (9i32 << 8i32) | 0x7f,
        ) && final(tasks)@ == tasks_without(old(tasks)@, pid),
        old(tree).procs@.contains_key(pid) && signal != 0 && signal_of(signal) is Some && signal_of(signal) != Some(
            SignalType::SigKill,
        ) ==> {
            &&& res == 0
            &&& final(tasks)@ == old(tasks)@
            &&& final(tree).procs@.dom() == old(tree).procs@.dom()
            &&& forall|k: Pid| k != pid && old(tree).procs@.contains_key(k) ==> #[trigger] final(tree).procs@[k]
                == old(tree).procs@[k]
            &&& signalled(
                old(tree).procs@[pid],
                final(tree).procs@[pid],
                Signal { sender: old(tasks)@[0].process, sigtype: signal_of(signal).unwrap(), wstatus: 0 },
            )
        },
{
    let present = match Process::search_from_pid(tree, pid) {
        Ok(_) => true,
        Err(_) => false,
    };
    if !present {
        return -ErrNo::ESRCH.number();
    }
    if signal == 0 {
        return 0;
    }
    let signal_type = match get_signal_type(signal) {
        Ok(t) => t,
        Err(e) => {
            return -e.number();
        },
    };
    let sender_pid = Process::get_running_process(tasks);
    if signal_type == SignalType::SigKill {
        Process::zombify(tree, pid, w_stopcode(signal_type.number()));
        Task::remove_task_from_process(tasks, pid);
        0
    } else {
        match Signal::send_to_pid(tree, pid, sender_pid, signal_type, 0) {
            Ok(_) => 0,
            Err(e) => -e.number(),
        }
    }
}

} // verus!
