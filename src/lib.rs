//! Scheduling core of a single-hart kernel: a multi-level feedback queue of
//! tasks, each running a cooperative coroutine executor, with a timer queue,
//! a syscall dispatcher and interrupt routing.
pub mod heap;
pub mod context;
pub mod thread;
pub mod trap;
pub mod executor;
pub mod task;
pub mod timer;
pub mod syscall;
pub mod plic;
pub mod sched;
pub mod bitmap;
pub mod wait;
