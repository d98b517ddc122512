//! Interrupt-enable bookkeeping on `sstatus` values and trap causes.
use vstd::prelude::*;

verus! {

/// `sstatus.SIE`: supervisor interrupts enabled.
pub const SSTATUS_SIE: usize = 2;

/// `sstatus` with interrupts enabled.
pub fn intr_on(sstatus: usize) -> (r: usize)
    ensures
        r == sstatus | SSTATUS_SIE,
        r & SSTATUS_SIE == SSTATUS_SIE,
{
    proof {
        assert((sstatus | 2usize) & 2usize == 2usize) by (bit_vector);
    }
    sstatus | SSTATUS_SIE
}

/// `sstatus` with interrupts disabled.
pub fn intr_off(sstatus: usize) -> (r: usize)
    ensures
        r == sstatus & !SSTATUS_SIE,
        r & SSTATUS_SIE == 0,
{
    proof {
        assert((sstatus & !2usize) & 2usize == 0usize) by (bit_vector);
    }
    sstatus & !SSTATUS_SIE
}

/// Disable interrupts: the value to write to `sstatus`, and the value to
/// restore later with [`pop_on`].
pub fn push_off(sstatus: usize) -> (r: (usize, usize))
    ensures
        r.0 == sstatus & !SSTATUS_SIE,
        r.1 == sstatus,
{
    (intr_off(sstatus), sstatus)
}

/// Restore the `sstatus` saved by [`push_off`].
pub fn pop_on(saved: usize) -> (r: usize)
    ensures
        r == saved,
{
    saved
}

/// The id of the running hart: this kernel runs on one hart only.
pub fn cpuid() -> (r: usize)
    ensures
        r == 0,
{
    0
}

/// Why a task handed control back to the scheduler.
#[derive(PartialEq, Eq, Structural, Clone, Copy, Debug)]
pub enum TrapCause {
    /// Its time slice ran out.
    Timer,
    /// A device raised an interrupt.
    External,
    /// It made a system call.
    Syscall,
    /// Any other exception or interrupt, with the raw cause code.
    Other(usize),
}

/// Supervisor timer interrupt code.
pub const CODE_SUPERVISOR_TIMER: usize = 5;

/// Supervisor external interrupt code.
pub const CODE_SUPERVISOR_EXTERNAL: usize = 9;

/// Environment call exception code, raised by `ecall` from a kernel thread.
pub const CODE_ENV_CALL: usize = 8;

impl TrapCause {
    /// Classify a trap from the interrupt flag and the code of `scause`.
    pub fn from_scause(interrupt: bool, code: usize) -> (r: TrapCause)
        ensures
            r == (if interrupt && code == CODE_SUPERVISOR_TIMER {
                TrapCause::Timer
            } else if interrupt && code == CODE_SUPERVISOR_EXTERNAL {
                TrapCause::External
            } else if !interrupt && code == CODE_ENV_CALL {
                TrapCause::Syscall
            } else {
                TrapCause::Other(code)
            }),
    {
        if interrupt && code == CODE_SUPERVISOR_TIMER {
            TrapCause::Timer
        } else if interrupt && code == CODE_SUPERVISOR_EXTERNAL {
            TrapCause::External
        } else if !interrupt && code == CODE_ENV_CALL {
            TrapCause::Syscall
        } else {
            TrapCause::Other(code)
        }
    }
}

} // verus!
