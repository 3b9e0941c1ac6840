//! Error numbers of system calls.

use vstd::prelude::*;

verus! {

/// The errors the kernel reports.
#[derive(Debug, Clone, Copy, PartialEq, Eq, Structural)]
pub enum ErrNo {
    /// No such process.
    ESRCH,
    /// No child process.
    ECHILD,
    /// Try again.
    EAGAIN,
    /// Invalid argument.
    Inval,
}

/// The number of an error.
pub open spec fn errno_number(e: ErrNo) -> i32 {
    match e {
        ErrNo::ESRCH => 3,
        ErrNo::ECHILD => 10,
        ErrNo::EAGAIN => 11,
        ErrNo::Inval => 22,
    }
}

impl ErrNo {
    pub fn number(self) -> (res: i32)
        ensures
            res == errno_number(self),
    {
        match self {
            ErrNo::ESRCH => 3,
            ErrNo::ECHILD => 10,
            ErrNo::EAGAIN => 11,
            ErrNo::Inval => 22,
        }
    }
}

} // verus!
