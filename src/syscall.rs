//! System calls from a task's coroutines to the scheduler: their register
//! encoding.
use vstd::prelude::*;

verus! {

pub const SYSCALL_SLEEP: usize = 101;

pub const SYSCALL_GET_TID: usize = 102;

pub const SYSCALL_APPEND_TASK: usize = 103;

pub const SYSCALL_YIELD: usize = 104;

pub const SYSCALL_EXIT: usize = 105;

/// Register holding the call number (`a7`).
pub const SYSCALL_ID_REG: usize = 17;

/// Register holding the first argument and, on return, the result (`a0`).
pub const SYSCALL_ARG0_REG: usize = 10;

/// A system call with its argument.
#[derive(PartialEq, Eq, Structural, Clone, Copy, Debug)]
pub enum Syscall {
    /// Sleep for the given number of milliseconds.
    Sleep(usize),
    /// Ask for the id of the calling task.
    GetTid,
    /// Hand over the coroutine of the given id, already registered by the caller.
    AppendTask(usize),
    /// Give up the rest of the time slice.
    Yield,
    /// End the calling task.
    Exit,
}

/// The call that call number `id` with first argument `arg0` stands for.
pub open spec fn spec_decode(id: usize, arg0: usize) -> Option<Syscall> {
    if id == SYSCALL_SLEEP {
        Some(Syscall::Sleep(arg0))
    } else if id == SYSCALL_GET_TID {
        Some(Syscall::GetTid)
    } else if id == SYSCALL_APPEND_TASK {
        Some(Syscall::AppendTask(arg0))
    } else if id == SYSCALL_YIELD {
        Some(Syscall::Yield)
    } else if id == SYSCALL_EXIT {
        Some(Syscall::Exit)
    } else {
        None
    }
}

/// The call number and first argument that carry `c`.
pub open spec fn spec_encode(c: Syscall) -> (usize, usize) {
    match c {
        Syscall::Sleep(ms) => (SYSCALL_SLEEP, ms),
        Syscall::GetTid => (SYSCALL_GET_TID, 0),
        Syscall::AppendTask(token) => (SYSCALL_APPEND_TASK, token),
        Syscall::Yield => (SYSCALL_YIELD, 0),
        Syscall::Exit => (SYSCALL_EXIT, 0),
    }
}

impl Syscall {
    /// Read a call from its number and first argument; `None` for an
    /// unknown number.
    pub fn decode(id: usize, arg0: usize) -> (r: Option<Syscall>)
        ensures
            r == spec_decode(id, arg0),
    {
        if id == SYSCALL_SLEEP {
            Some(Syscall::Sleep(arg0))
        } else if id == SYSCALL_GET_TID {
            Some(Syscall::GetTid)
        } else if id == SYSCALL_APPEND_TASK {
            Some(Syscall::AppendTask(arg0))
        } else if id == SYSCALL_YIELD {
            Some(Syscall::Yield)
        } else if id == SYSCALL_EXIT {
            Some(Syscall::Exit)
        } else {
            None
        }
    }

    /// The call number and first argument to trap with.
    pub fn encode(&self) -> (r: (usize, usize))
        ensures
            r == spec_encode(*self),
    {
        match self {
            Syscall::Sleep(ms) => (SYSCALL_SLEEP, *ms),
            Syscall::GetTid => (SYSCALL_GET_TID, 0),
            Syscall::AppendTask(token) => (SYSCALL_APPEND_TASK, *token),
            Syscall::Yield => (SYSCALL_YIELD, 0),
            Syscall::Exit => (SYSCALL_EXIT, 0),
        }
    }
}

/// Decoding what was encoded gives the call back.
pub proof fn lemma_decode_encode(c: Syscall)
    ensures
        spec_decode(spec_encode(c).0, spec_encode(c).1) == Some(c),
{
}

/// The request to sleep `sleep_ms` milliseconds.
pub fn sys_sleep(sleep_ms: usize) -> (r: Syscall)
    ensures
        r == Syscall::Sleep(sleep_ms),
{
    Syscall::Sleep(sleep_ms)
}

/// The request for the caller's task id.
pub fn sys_get_tid() -> (r: Syscall)
    ensures
        r == Syscall::GetTid,
{
    Syscall::GetTid
}

/// The request to hand coroutine `token` to the scheduler.
pub fn sys_append_task(token: usize) -> (r: Syscall)
    ensures
        r == Syscall::AppendTask(token),
{
    Syscall::AppendTask(token)
}

/// The request to give up the time slice.
pub fn sys_yield() -> (r: Syscall)
    ensures
        r == Syscall::Yield,
{
    Syscall::Yield
}

/// The request to end the calling task.
pub fn sys_exit() -> (r: Syscall)
    ensures
        r == Syscall::Exit,
{
    Syscall::Exit
}

} // verus!
