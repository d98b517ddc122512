//! The decisions behind the waits a coroutine can await: give up one turn,
//! sleep until a deadline, bound another wait by a deadline, wait for an
//! interrupt. Each `poll` says whether the wait is over; wiring it to a
//! waker is the caller's part.
use crate::executor::PollResult;
use vstd::prelude::*;

verus! {

/// The deadline `dur_ms` milliseconds after `now_ms`, saturating.
pub open spec fn after(now_ms: u64, dur_ms: u64) -> u64 {
    if now_ms + dur_ms <= u64::MAX {
        (now_ms + dur_ms) as u64
    } else {
        u64::MAX
    }
}

/// Pending once, then ready.
pub struct Yield {
    yielded: bool,
}

impl Yield {
    pub closed spec fn spec_yielded(&self) -> bool {
        self.yielded
    }

    pub fn new() -> (y: Yield)
        ensures
            !y.spec_yielded(),
    {
        Yield { yielded: false }
    }

    pub fn poll(&mut self) -> (r: PollResult)
        ensures
            final(self).spec_yielded(),
            r == (if old(self).spec_yielded() {
                PollResult::Ready
            } else {
                PollResult::Pending
            }),
    {
        if self.yielded {
            PollResult::Ready
        } else {
            self.yielded = true;
            PollResult::Pending
        }
    }
}

/// Ready once the clock reaches a deadline.
pub struct SleepFuture {
    deadline: u64,
}

impl SleepFuture {
    pub closed spec fn spec_deadline(&self) -> u64 {
        self.deadline
    }

    /// A sleep of `dur_ms` milliseconds from `now_ms`.
    pub fn new(now_ms: u64, dur_ms: u64) -> (s: SleepFuture)
        ensures
            s.spec_deadline() == after(now_ms, dur_ms),
    {
        SleepFuture { deadline: now_ms.saturating_add(dur_ms) }
    }

    pub fn poll(&self, now_ms: u64) -> (r: PollResult)
        ensures
            r == (if now_ms >= self.spec_deadline() {
                PollResult::Ready
            } else {
                PollResult::Pending
            }),
    {
        if now_ms >= self.deadline {
            PollResult::Ready
        } else {
            PollResult::Pending
        }
    }
}

/// How a wait bounded by a deadline stands.
#[derive(PartialEq, Eq, Structural, Clone, Copy, Debug)]
pub enum TimeoutPoll {
    /// The inner wait finished.
    Completed,
    /// The deadline passed first.
    TimedOut,
    Pending,
}

/// Bounds another wait by a deadline.
pub struct Timeout {
    deadline: u64,
}

impl Timeout {
    pub closed spec fn spec_deadline(&self) -> u64 {
        self.deadline
    }

    /// A bound of `dur_ms` milliseconds from `now_ms`.
    pub fn new(now_ms: u64, dur_ms: u64) -> (t: Timeout)
        ensures
            t.spec_deadline() == after(now_ms, dur_ms),
    {
        Timeout { deadline: now_ms.saturating_add(dur_ms) }
    }

    /// Given what a poll of the inner wait returned: it wins if it is
    /// ready, else the deadline decides.
    pub fn poll(&self, inner: PollResult, now_ms: u64) -> (r: TimeoutPoll)
        ensures
            r == (if inner == PollResult::Ready {
                TimeoutPoll::Completed
            } else if now_ms >= self.spec_deadline() {
                TimeoutPoll::TimedOut
            } else {
                TimeoutPoll::Pending
            }),
    {
        match inner {
            PollResult::Ready => TimeoutPoll::Completed,
            PollResult::Pending => {
                if now_ms >= self.deadline {
                    TimeoutPoll::TimedOut
                } else {
                    TimeoutPoll::Pending
                }
            },
        }
    }
}

/// Interrupt sources a coroutine can wait for.
#[allow(non_camel_case_types)]
#[derive(PartialEq, Eq, Structural, Clone, Copy, Debug)]
pub enum IRQ {
    UART0_IRQ,
    VIRTIO0_IRQ,
    E1000_IRQ,
}

/// A wait for one interrupt: the first poll registers interest and is
/// pending, the next one is ready.
#[allow(non_camel_case_types)]
pub struct IRQ_EVENT {
    irq: IRQ,
    ready: bool,
}

impl IRQ_EVENT {
    pub closed spec fn spec_ready(&self) -> bool {
        self.ready
    }

    /// The interrupt waited for.
    pub closed spec fn spec_irq(&self) -> IRQ {
        self.irq
    }

    pub fn irq(&self) -> (r: IRQ)
        ensures
            r == self.spec_irq(),
    {
        self.irq
    }

    pub fn new(irq: IRQ) -> (e: IRQ_EVENT)
        ensures
            e.spec_irq() == irq,
            !e.spec_ready(),
    {
        IRQ_EVENT { irq, ready: false }
    }

    /// `Pending` on the first poll, when the caller registers its waker for
    /// the interrupt; `Ready` afterwards.
    pub fn poll(&mut self) -> (r: PollResult)
        ensures
            final(self).spec_ready(),
            final(self).spec_irq() == old(self).spec_irq(),
            r == (if old(self).spec_ready() {
                PollResult::Ready
            } else {
                PollResult::Pending
            }),
    {
        if self.ready {
            PollResult::Ready
        } else {
            self.ready = true;
            PollResult::Pending
        }
    }
}

} // verus!
