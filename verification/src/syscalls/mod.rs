//! System calls.

pub mod exit;
pub mod mmap;
pub mod process;
pub mod signal;
pub mod timer;
