//! Signals: their types, and sending one to a process.

use vstd::prelude::*;

use crate::errno::ErrNo;
use crate::proc::process::{lemma_tree_wf_kept, signalled, Pid, Process, ProcessTree};
use crate::proc::Id;

verus! {

/// The address of a signal handler.
pub type SigHandlerFn = usize;

/// A handler installed for a signal.
#[derive(Debug, Clone, Copy, PartialEq, Eq, Structural)]
pub struct SignalHandler {
    pub signal: i32,
    pub handler: SigHandlerFn,
}

/// The signal types.
#[derive(Debug, Clone, Copy, PartialEq, Eq, Structural)]
pub enum SignalType {
    SigHup,
    SigInt,
    SigQuit,
    SigIll,
    SigTrap,
    SigAbrt,
    SigBus,
    SigFpe,
    SigKill,
    SigUsr1,
    SigSegv,
    SigUsr2,
    SigPipe,
    SigAlrm,
    SigTerm,
    SigStkFlt,
    SigChld,
    SigCont,
    SigStop,
    SigTStp,
    SigTTIn,
    SigTTOu,
    SigUrg,
    SigXCpu,
    SigXFSz,
    SigVtAlrm,
    SigProf,
    SigWinCh,
    SigIO,
    SigPwr,
    SigSys,
    SigRTMin,
}

/// The number of a signal type.
pub open spec fn signal_number(t: SignalType) -> i32 {
    match t {
        SignalType::SigHup => 1,
        SignalType::SigInt => 2,
        SignalType::SigQuit => 3,
        SignalType::SigIll => 4,
        SignalType::SigTrap => 5,
        SignalType::SigAbrt => 6,
        SignalType::SigBus => 7,
        SignalType::SigFpe => 8,
        SignalType::SigKill => 9,
        SignalType::SigUsr1 => 10,
        SignalType::SigSegv => 11,
        SignalType::SigUsr2 => 12,
        SignalType::SigPipe => 13,
        SignalType::SigAlrm => 14,
        SignalType::SigTerm => 15,
        SignalType::SigStkFlt => 16,
        SignalType::SigChld => 17,
        SignalType::SigCont => 18,
        SignalType::SigStop => 19,
        SignalType::SigTStp => 20,
        SignalType::SigTTIn => 21,
        SignalType::SigTTOu => 22,
        SignalType::SigUrg => 23,
        SignalType::SigXCpu => 24,
        SignalType::SigXFSz => 25,
        SignalType::SigVtAlrm => 26,
        SignalType::SigProf => 27,
        SignalType::SigWinCh => 28,
        SignalType::SigIO => 29,
        SignalType::SigPwr => 30,
        SignalType::SigSys => 31,
        SignalType::SigRTMin => 32,
    }
}

impl SignalType {
    pub fn number(self) -> (res: i32)
        ensures
            res == signal_number(self),
    {
        match self {
            SignalType::SigHup => 1,
            SignalType::SigInt => 2,
            SignalType::SigQuit => 3,
            SignalType::SigIll => 4,
            SignalType::SigTrap => 5,
            SignalType::SigAbrt => 6,
            SignalType::SigBus => 7,
            SignalType::SigFpe => 8,
            SignalType::SigKill => 9,
            SignalType::SigUsr1 => 10,
            SignalType::SigSegv => 11,
            SignalType::SigUsr2 => 12,
            SignalType::SigPipe => 13,
            SignalType::SigAlrm => 14,
            SignalType::SigTerm => 15,
            SignalType::SigStkFlt => 16,
            SignalType::SigChld => 17,
            SignalType::SigCont => 18,
            SignalType::SigStop => 19,
            SignalType::SigTStp => 20,
            SignalType::SigTTIn => 21,
            SignalType::SigTTOu => 22,
            SignalType::SigUrg => 23,
            SignalType::SigXCpu => 24,
            SignalType::SigXFSz => 25,
            SignalType::SigVtAlrm => 26,
            SignalType::SigProf => 27,
            SignalType::SigWinCh => 28,
            SignalType::SigIO => 29,
            SignalType::SigPwr => 30,
            SignalType::SigSys => 31,
            SignalType::SigRTMin => 32,
        }
    }
}

/// The signal type of number `nb`: each number from 1 to 32 gives the type
/// of that number.
pub open spec fn signal_of(nb: i32) -> Option<SignalType> {
    if exists|t: SignalType| signal_number(t) == nb {
        Some(choose|t: SignalType| signal_number(t) == nb)
    } else {
        None
    }
}

proof fn lemma_signal_number_injective(a: SignalType, b: SignalType)
    requires
        signal_number(a) == signal_number(b),
    ensures
        a == b,
{
}

/// The signal type of number `nb`; `Inval` when no type has it.
pub fn get_signal_type(nb: i32) -> (res: Result<SignalType, ErrNo>)
    ensures
        match signal_of(nb) {
            Some(t) => res == Ok::<SignalType, ErrNo>(t),
            None => res == Err::<SignalType, ErrNo>(ErrNo::Inval),
        },
{
    let res = if nb == 1 {
        Ok(SignalType::SigHup)
    } else if nb == 2 {
        Ok(SignalType::SigInt)
    } else if nb == 3 {
        Ok(SignalType::SigQuit)
    } else if nb == 4 {
        Ok(SignalType::SigIll)
    } else if nb == 5 {
        Ok(SignalType::SigTrap)
    } else if nb == 6 {
        Ok(SignalType::SigAbrt)
    } else if nb == 7 {
        Ok(SignalType::SigBus)
    } else if nb == 8 {
        Ok(SignalType::SigFpe)
    } else if nb == 9 {
        Ok(SignalType::SigKill)
    } else if nb == 10 {
        Ok(SignalType::SigUsr1)
    } else if nb == 11 {
        Ok(SignalType::SigSegv)
    } else if nb == 12 {
        Ok(SignalType::SigUsr2)
    } else if nb == 13 {
        Ok(SignalType::SigPipe)
    } else if nb == 14 {
        Ok(SignalType::SigAlrm)
    } else if nb == 15 {
        Ok(SignalType::SigTerm)
    } else if nb == 16 {
        Ok(SignalType::SigStkFlt)
    } else if nb == 17 {
        Ok(SignalType::SigChld)
    } else if nb == 18 {
        Ok(SignalType::SigCont)
    } else if nb == 19 {
        Ok(SignalType::SigStop)
    } else if nb == 20 {
        Ok(SignalType::SigTStp)
    } else if nb == 21 {
        Ok(SignalType::SigTTIn)
    } else if nb == 22 {
        Ok(SignalType::SigTTOu)
    } else if nb == 23 {
        Ok(SignalType::SigUrg)
    } else if nb == 24 {
        Ok(SignalType::SigXCpu)
    } else if nb == 25 {
        Ok(SignalType::SigXFSz)
    } else if nb == 26 {
        Ok(SignalType::SigVtAlrm)
    } else if nb == 27 {
        Ok(SignalType::SigProf)
    } else if nb == 28 {
        Ok(SignalType::SigWinCh)
    } else if nb == 29 {
        Ok(SignalType::SigIO)
    } else if nb == 30 {
        Ok(SignalType::SigPwr)
    } else if nb == 31 {
        Ok(SignalType::SigSys)
    } else if nb == 32 {
        Ok(SignalType::SigRTMin)
    } else {
        Err(ErrNo::Inval)
    };
    proof {
        match res {
            Ok(t) => {
                assert(signal_number(t) == nb);
                let c = choose|c: SignalType| signal_number(c) == nb;
                lemma_signal_number_injective(t, c);
            },
            Err(_) => {
                assert forall|t: SignalType| signal_number(t) != nb by {
                    assert(1 <= signal_number(t) <= 32);
                }
            },
        }
    }
    res
}

/// Every signal type's number reads back as that type.
pub proof fn lemma_signal_number_read_back(t: SignalType)
    ensures
        signal_of(signal_number(t)) == Some(t),
{
    let n = signal_number(t);
    let c = choose|c: SignalType| signal_number(c) == n;
    lemma_signal_number_injective(t, c);
}

/// A signal sent: who sent it, its type and the status it carries.
#[derive(Debug, Clone, Copy, PartialEq, Eq, Structural)]
pub struct Signal {
    pub sender: Id,
    pub sigtype: SignalType,
    pub wstatus: i32,
}

impl Signal {
    pub fn new(pid: Id, sigtype: SignalType, wstatus: i32) -> (res: Self)
        ensures
            res == (Signal { sender: pid, sigtype, wstatus }),
    {
        Signal { sender: pid, sigtype, wstatus }
    }

    /// Sends a signal from `sender_pid` to the process of `tree` with pid
    /// `pid`; `ESRCH` when there is none.
    pub fn send_to_pid(tree: &mut ProcessTree, pid: Id, sender_pid: Id, sigtype: SignalType, wstatus: i32) -> (res: Result<Id, ErrNo>)
        ensures
            final(tree).next_pid == old(tree).next_pid,
            old(tree).wf() ==> final(tree).wf(),
            final(tree).procs@.dom() == old(tree).procs@.dom(),
            forall|k: Pid| k != pid && old(tree).procs@.contains_key(k) ==> #[trigger] final(tree).procs@[k] == old(tree).procs@[k],
            !old(tree).procs@.contains_key(pid) ==> res == Err::<Id, ErrNo>(ErrNo::ESRCH) && final(tree).procs@ == old(tree).procs@,
            old(tree).procs@.contains_key(pid) ==> res == Ok::<Id, ErrNo>(pid) && signalled(
                old(tree).procs@[pid],
                final(tree).procs@[pid],
                Signal { sender: sender_pid, sigtype, wstatus },
            ),
    {
        broadcast use vstd::std_specs::btree::group_btree_axioms;
        match tree.procs.remove(&pid) {
            None => Err(ErrNo::ESRCH),
            Some(mut process) => {
                Self::send_to_process(&mut process, sender_pid, sigtype, wstatus);
                tree.procs.insert(pid, process);
                assert(final(tree).procs@.dom() =~= old(tree).procs@.dom());
                proof {
                    if old(tree).wf() {
                        lemma_tree_wf_kept(old(tree).procs@, tree.procs@, tree.next_pid);
                    }
                }
                Ok(pid)
            },
        }
    }

    /// Adds a signal from `pid` to the signals of `process`.
    pub fn send_to_process(process: &mut Process, pid: Id, sigtype: SignalType, wstatus: i32)
        ensures
            signalled(*old(process), *final(process), Signal { sender: pid, sigtype, wstatus }),
    {
        let signal = Self::new(pid, sigtype, wstatus);
        process.signals.push(signal);
    }
}

} // verus!
