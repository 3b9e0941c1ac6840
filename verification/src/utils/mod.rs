pub mod flags;
pub mod math;
pub mod path;
pub mod queue;
