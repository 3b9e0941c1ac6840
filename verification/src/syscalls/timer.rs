//! Identity system calls of the running process.

use vstd::prelude::*;

use crate::proc::process::Process;
use crate::proc::Id;

verus! {

/// The pid of `process`.
pub fn sys_getpid(process: &Process) -> (res: Id)
    ensures
        res == process.pid,
{
    process.pid
}

/// The owner of `process`.
pub fn sys_getuid(process: &Process) -> (res: Id)
    ensures
        res == process.owner,
{
    process.owner
}

/// The pid of the parent of `process`; -1 without parent.
pub fn sys_getppid(process: &Process) -> (res: Id)
    ensures
        res == match process.parent {
            Some(p) => p,
            None => -1i32,
        },
{
    match process.parent {
        Some(parent) => parent,
        None => -1,
    }
}

} // verus!
