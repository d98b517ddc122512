//! Pending wake-ups of sleeping tasks, ordered by deadline, and clock
//! conversions.
use crate::heap::{Heap, Prioritized, MAX_HEAP_LEN};
use crate::executor::{AsyncTaskId, Executor};
use crate::task::{accepts, appended, with_status, Task};
use crate::thread::TaskControlBlock;
use crate::thread::TaskStatus;
use vstd::multiset::Multiset;
use vstd::prelude::*;

verus! {

broadcast use vstd::seq_lib::group_to_multiset_ensures;

/// Ticks of the hardware time source per second.
pub const CLOCK_FREQ: usize = 12500000;

pub const MILLI_PER_SEC: usize = 1_000;

pub const MICRO_PER_SEC: usize = 1_000_000;

/// Microseconds elapsed after `ticks` ticks of the time source.
pub fn get_time_us(ticks: u64) -> (r: u64)
    ensures
        r == ticks / (CLOCK_FREQ / MICRO_PER_SEC) as u64,
{
    ticks / (CLOCK_FREQ / MICRO_PER_SEC) as u64
}

/// Milliseconds elapsed after `ticks` ticks of the time source.
pub fn get_time_ms(ticks: u64) -> (r: u64)
    ensures
        r == ticks / (CLOCK_FREQ / MILLI_PER_SEC) as u64,
{
    ticks / (CLOCK_FREQ / MILLI_PER_SEC) as u64
}

/// A point in time, in microseconds of the time source.
#[derive(PartialEq, Eq, Structural, Clone, Copy, Debug)]
pub struct Instant(pub u64);

impl Instant {
    /// The instant `ticks` ticks after the time source started.
    pub fn now(ticks: u64) -> (r: Instant)
        ensures
            r.0 == ticks / (CLOCK_FREQ / MICRO_PER_SEC) as u64,
    {
        Instant(get_time_us(ticks))
    }
}

/// A task to wake at an absolute deadline, in milliseconds.
pub struct TimerEntry {
    pub deadline: u64,
    pub task: Task,
}

impl Prioritized for TimerEntry {
    open spec fn spec_priority(&self) -> u64 {
        self.deadline
    }

    fn priority(&self) -> (p: u64) {
        self.deadline
    }
}

/// The deadline `ms` milliseconds after `now`, or the last representable
/// instant when that lies beyond.
pub open spec fn deadline_after(now: u64, ms: u64) -> u64 {
    if now + ms <= u64::MAX {
        (now + ms) as u64
    } else {
        u64::MAX
    }
}

/// Entries of `m` due at `now`.
pub open spec fn due(m: Multiset<TimerEntry>, now: u64) -> Multiset<TimerEntry> {
    m.filter(|e: TimerEntry| e.deadline <= now)
}

/// Entries of `m` still pending at `now`.
pub open spec fn pending(m: Multiset<TimerEntry>, now: u64) -> Multiset<TimerEntry> {
    m.filter(|e: TimerEntry| e.deadline > now)
}

/// Sleeping tasks in a min-heap keyed by deadline.
pub struct TimerQueue {
    heap: Heap<TimerEntry>,
}

impl TimerQueue {
    /// The pending entries.
    pub closed spec fn entries(&self) -> Multiset<TimerEntry> {
        self.heap.items()
    }

    pub closed spec fn wf(&self) -> bool {
        &&& self.heap.wf()
        &&& forall|e: TimerEntry| #[trigger] self.heap.items().contains(e) ==> e.task.wf()
    }

    /// Number of pending entries.
    pub closed spec fn spec_len(&self) -> nat {
        self.heap.view().len()
    }

    pub fn new() -> (q: TimerQueue)
        ensures
            q.wf(),
            q.entries() =~= Multiset::empty(),
            q.spec_len() == 0,
    {
        TimerQueue { heap: Heap::new() }
    }

    pub fn len(&self) -> (n: usize)
        ensures
            n == self.spec_len(),
    {
        self.heap.len()
    }

    /// Put `task` to sleep until `deadline`; it is marked blocking.
    pub fn push(&mut self, deadline: u64, task: Task)
        requires
            old(self).wf(),
            old(self).spec_len() < MAX_HEAP_LEN,
            task.wf(),
        ensures
            final(self).wf(),
            final(self).spec_len() == old(self).spec_len() + 1,
            final(self).entries() == old(self).entries().insert(
                TimerEntry { deadline, task: with_status(task, TaskStatus::Blocking) },
            ),
    {
        let mut task = task;
        task.set_status(TaskStatus::Blocking);
        let ghost t = task;
        self.heap.push(TimerEntry { deadline, task });
        proof {
            broadcast use vstd::multiset::group_multiset_axioms;

            assert forall|e: TimerEntry| #[trigger] self.heap.items().contains(e) implies e.task.wf() by {
                if e != (TimerEntry { deadline, task: t }) {
                    assert(old(self).heap.items().contains(e));
                }
            }
        }
    }

    /// Whether a task of id `tid` sleeps here.
    pub open spec fn holds(&self, tid: usize) -> bool {
        exists|e: TimerEntry| #[trigger] self.entries().contains(e) && e.task.tid == tid
    }

    /// Hand coroutine `id` to a sleeping task of id `tid`, which keeps its
    /// deadline. `None` when no such task sleeps here; `Some(false)` when
    /// its executor cannot take the coroutine, and nothing changes.
    pub fn append_to(&mut self, tid: usize, id: AsyncTaskId) -> (r: Option<bool>)
        requires
            old(self).wf(),
        ensures
            final(self).wf(),
            final(self).spec_len() == old(self).spec_len(),
            r is None <==> !old(self).holds(tid),
            r is None ==> final(self).entries() == old(self).entries(),
            r is Some ==> exists|e: TimerEntry|
                #[trigger] old(self).entries().contains(e) && e.task.tid == tid && r == Some(
                    accepts(e.task, id),
                ) && (accepts(e.task, id) ==> exists|e2: TimerEntry|
                    #[trigger] appended(e.task, e2.task, id) && e2.deadline == e.deadline
                        && final(self).entries() == old(self).entries().remove(e).insert(e2)) && (
                !accepts(e.task, id) ==> final(self).entries() == old(self).entries()),
    {
        let n = self.heap.len();
        let mut i: usize = 0;
        while i < n
            invariant
                self == old(self),
                self.wf(),
                n == self.heap.view().len(),
                i <= n,
                forall|k: int| 0 <= k < i ==> (#[trigger] self.heap.view()[k]).task.tid != tid,
            decreases n - i,
        {
            if self.heap.get(i).task.tid == tid {
                let ghost e = self.heap.view()[i as int];
                proof {
                    assert(self.heap.view().contains(e));
                    assert(self.heap.items().contains(e));
                    assert(self.entries().contains(e));
                    assert(e.task.wf());
                }
                if !self.heap.get(i).task.can_append(id) {
                    return Some(false);
                }
                let deadline = self.heap.get(i).deadline;
                let placeholder = TimerEntry {
                    deadline,
                    task: Task::new(tid, TaskControlBlock::empty(), Executor::new(), false),
                };
                let mut entry = self.heap.replace_at(i, placeholder);
                entry.task.append(id);
                let ghost e2 = entry;
                let _ = self.heap.replace_at(i, entry);
                proof {
                    broadcast use vstd::multiset::group_multiset_axioms;

                    assert(self.heap.view() == old(self).heap.view().update(i as int, e2));
                    assert(self.entries() =~= old(self).entries().remove(e).insert(e2));
                    assert(appended(e.task, e2.task, id));
                    assert forall|x: TimerEntry| #[trigger] self.heap.items().contains(x) implies x.task.wf() by {
                        if x != e2 {
                            assert(old(self).heap.items().contains(x));
                        }
                    }
                }
                return Some(true);
            }
            i = i + 1;
        }
        proof {
            if old(self).holds(tid) {
                let e = choose|e: TimerEntry| #[trigger] old(self).entries().contains(e) && e.task.tid == tid;
                let k = choose|k: int| 0 <= k < self.heap.view().len() && self.heap.view()[k] == e;
            }
        }
        None
    }

    /// Take out every entry due at `now` (deadline at most `now`), earliest
    /// first, and return their tasks; later entries stay.
    pub fn sweep(&mut self, now: u64) -> (r: Vec<TimerEntry>)
        requires
            old(self).wf(),
        ensures
            final(self).wf(),
            r@.to_multiset() == due(old(self).entries(), now),
            final(self).entries() == pending(old(self).entries(), now),
            forall|i: int, j: int|
                0 <= i <= j < r@.len() ==> (#[trigger] r@[i]).deadline <= (#[trigger] r@[j]).deadline,
            forall|i: int| 0 <= i < r@.len() ==> (#[trigger] r@[i]).task.wf(),
    {
        let mut r: Vec<TimerEntry> = Vec::new();
        loop
            invariant
                self.wf(),
                old(self).entries() == self.entries().add(r@.to_multiset()),
                forall|i: int| 0 <= i < r@.len() ==> (#[trigger] r@[i]).deadline <= now,
                forall|i: int, j: int|
                    0 <= i <= j < r@.len() ==> (#[trigger] r@[i]).deadline <= (
                    #[trigger] r@[j]).deadline,
                forall|i: int, e: TimerEntry|
                    0 <= i < r@.len() && #[trigger] self.entries().contains(e) ==> (
                    #[trigger] r@[i]).deadline <= e.deadline,
                forall|i: int| 0 <= i < r@.len() ==> (#[trigger] r@[i]).task.wf(),
            ensures
                forall|e: TimerEntry| #[trigger] self.entries().contains(e) ==> e.deadline > now,
            decreases self.spec_len(),
        {
            let due_now = match self.heap.peek() {
                Some(top) => top.priority() <= now,
                None => false,
            };
            if !due_now {
                break ;
            }
            let ghost before = self.heap.items();
            let e = self.heap.pop().unwrap();
            let ghost r0 = r@;
            r.push(e);
            proof {
                broadcast use vstd::multiset::group_multiset_axioms;

                assert(r@ =~= r0.push(e));
                assert(old(self).entries() =~= self.entries().add(r@.to_multiset()));
                assert(before.contains(e));
                assert forall|x: TimerEntry| #[trigger] self.heap.items().contains(x) implies x.task.wf() by {
                    assert(before.contains(x));
                }
                assert forall|i: int, x: TimerEntry|
                    0 <= i < r@.len() && #[trigger] self.entries().contains(x) implies (
                    #[trigger] r@[i]).deadline <= x.deadline by {
                    assert(before.contains(x));
                    if i < r0.len() {
                        assert(r0[i] == r@[i]);
                    }
                }
                assert forall|i: int, j: int|
                    0 <= i <= j < r@.len() implies (#[trigger] r@[i]).deadline <= (
                    #[trigger] r@[j]).deadline by {
                    if j == r0.len() && i < r0.len() {
                        assert(before.contains(e));
                        assert(r0[i] == r@[i]);
                    }
                }
            }
        }
        proof {
            broadcast use vstd::multiset::group_multiset_axioms;

            let m = old(self).entries();
            let rm = r@.to_multiset();
            assert forall|e: TimerEntry| #[trigger] rm.contains(e) implies e.deadline <= now by {
                let i = choose|i: int| 0 <= i < r@.len() && r@[i] == e;
            }
            assert(rm =~= due(m, now)) by {
                assert forall|e: TimerEntry| #[trigger] rm.count(e) == due(m, now).count(e) by {
                    if e.deadline <= now {
                        assert(!self.entries().contains(e));
                    } else {
                        assert(rm.count(e) == 0);
                    }
                }
            }
            assert(self.entries() =~= pending(m, now)) by {
                assert forall|e: TimerEntry| #[trigger] self.entries().count(e) == pending(m, now).count(e) by {
                    if e.deadline <= now {
                        assert(!self.entries().contains(e));
                    } else {
                        assert(rm.count(e) == 0);
                    }
                }
            }
        }
        r
    }
}

/// Sweeping twice at the same time finds nothing more the second time and
/// leaves the pending entries as they were.
pub proof fn lemma_sweep_idempotent(m: Multiset<TimerEntry>, now: u64)
    ensures
        due(pending(m, now), now) =~= Multiset::empty(),
        pending(pending(m, now), now) =~= pending(m, now),
{
    broadcast use vstd::multiset::group_multiset_axioms;

}

/// A task put to sleep for `ms` milliseconds at `now` is woken by a sweep
/// at `later` only if `later` is at least `now + ms`, and then always.
pub proof fn lemma_sleep_round_trip(m: Multiset<TimerEntry>, task: Task, now: u64, ms: u64, later: u64)
    requires
        now + ms <= u64::MAX,
    ensures
        ({
            let e = TimerEntry { deadline: deadline_after(now, ms), task };
            due(m.insert(e), later).contains(e) <==> later >= now + ms
        }),
{
    broadcast use vstd::multiset::group_multiset_axioms;

}

} // verus!
