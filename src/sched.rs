//! The scheduler state and its decisions: which task runs next, for how
//! long, and where a task goes after each kind of trap.
use crate::executor::{AsyncTask, AsyncTaskId, Executor};
use crate::heap::MAX_HEAP_LEN;
use crate::syscall::{spec_decode, Syscall, SYSCALL_ARG0_REG, SYSCALL_ID_REG};
use crate::task::{accepts, appended, level_of, picks, with_status, Mlfq, Task, COMPUTE_LEVEL, IO_LEVEL};
use crate::thread::{TaskControlBlock, TaskStatus};
use crate::timer::{deadline_after, due, pending, TimerEntry, TimerQueue};
use vstd::prelude::*;

verus! {

broadcast use crate::task::lemma_levels_len;

/// Id of the task that gathers the coroutines waiting on I/O.
pub const IO_TASK_TID: usize = 0;

/// Time slice, in timer ticks, of a task classified as waiting on I/O.
pub const BASE_SLICE: u64 = 12500;

/// The time slice of a task of classification `io`: compute-bound tasks get
/// twice as long.
pub open spec fn slice_of(io: bool) -> u64 {
    if io {
        BASE_SLICE
    } else {
        (2 * BASE_SLICE) as u64
    }
}

/// The time slice of a task of classification `io`.
pub fn get_slice(io: bool) -> (r: u64)
    ensures
        r == slice_of(io),
{
    if io {
        BASE_SLICE
    } else {
        2 * BASE_SLICE
    }
}

/// `t` as it is handed out to run: a blocking task becomes running.
pub open spec fn prepared(t: Task) -> Task {
    if t.tcb.status == TaskStatus::Blocking {
        with_status(t, TaskStatus::Running)
    } else {
        t
    }
}


/// `r` is `t` with `v` written to the result register and nothing else changed.
pub open spec fn answered(t: Task, r: Task, v: usize) -> bool {
    &&& r.tid == t.tid
    &&& r.io == t.io
    &&& r.executor == t.executor
    &&& r.tcb.status == t.tcb.status
    &&& r.tcb.stack == t.tcb.stack
    &&& r.tcb.exit_code == t.tcb.exit_code
    &&& r.tcb.ctx.reg(SYSCALL_ARG0_REG as int) == v
    &&& r.tcb.ctx.same_but(&t.tcb.ctx, SYSCALL_ARG0_REG as int)
}

/// The levels after the tasks of `es`, in order, are queued blocking.
pub open spec fn enqueue_all(levels: Seq<Seq<Task>>, es: Seq<TimerEntry>) -> Seq<Seq<Task>>
    decreases es.len(),
{
    if es.len() == 0 {
        levels
    } else {
        let prev = enqueue_all(levels, es.drop_last());
        let t = with_status(es.last().task, TaskStatus::Blocking);
        prev.update(level_of(t.io), prev[level_of(t.io)].push(t))
    }
}

/// Whether `task` is a compute-bound task other than the I/O task: the
/// coroutines it appends go to the I/O task.
pub open spec fn redirected(task: Task) -> bool {
    &&& !task.io
    &&& task.tid != IO_TASK_TID
}

/// The transient task of `s` is the I/O task.
pub open spec fn io_in_slot(s: Scheduler) -> bool {
    s.mlfq().transient() matches Some(t) && t.tid == IO_TASK_TID
}

/// What appending coroutine `id` for `task` does, from `s0` to `s1`, with
/// `r` the caller and the id of the task that took the coroutine.
pub open spec fn append_post(
    s0: Scheduler,
    s1: Scheduler,
    task: Task,
    id: AsyncTaskId,
    r: (Task, usize),
) -> bool {
    &&& s1.wf()
    &&& r.0.wf()
    &&& s1.mlfq().cursor() == s0.mlfq().cursor()
    &&& s1.spec_next_tid() == s0.spec_next_tid()
    &&& s1.spec_next_coroutine() == s0.spec_next_coroutine()
    &&& redirected(task) ==> {
        &&& r.0 == task
        &&& r.1 == IO_TASK_TID || r.1 == usize::MAX
        &&& s0.mlfq().queued(IO_TASK_TID) ==> exists|l: int, j: int|
            0 <= l < 2 && 0 <= j < s0.mlfq().levels()[l].len() && #[trigger] s0.mlfq().levels()[l][j].tid
                == IO_TASK_TID && {
                let t = s0.mlfq().levels()[l][j];
                let lv = level_of(t.io);
                let rest = s0.mlfq().levels().update(l, s0.mlfq().levels()[l].remove(j));
                let t2 = s1.mlfq().levels()[lv].last();
                &&& s1.mlfq().levels() == rest.update(lv, rest[lv].push(t2))
                &&& s1.mlfq().transient() == s0.mlfq().transient()
                &&& s1.timers() == s0.timers()
                &&& accepts(t, id) ==> r.1 == IO_TASK_TID && appended(
                    with_status(t, TaskStatus::Blocking),
                    t2,
                    id,
                )
                &&& !accepts(t, id) ==> r.1 == usize::MAX && t2 == with_status(
                    t,
                    TaskStatus::Blocking,
                )
            }
        &&& !s0.mlfq().queued(IO_TASK_TID) && io_in_slot(s0) ==> {
            let t = s0.mlfq().transient().unwrap();
            &&& s1.mlfq().levels() == s0.mlfq().levels()
            &&& s1.timers() == s0.timers()
            &&& s1.mlfq().transient() is Some
            &&& accepts(t, id) ==> r.1 == IO_TASK_TID && appended(
                t,
                s1.mlfq().transient().unwrap(),
                id,
            )
            &&& !accepts(t, id) ==> r.1 == usize::MAX && s1.mlfq().transient() == s0.mlfq().transient()
        }
        &&& !s0.mlfq().queued(IO_TASK_TID) && !io_in_slot(s0) && s0.timers().holds(IO_TASK_TID)
            ==> {
            &&& s1.mlfq() == s0.mlfq()
            &&& s1.timers().spec_len() == s0.timers().spec_len()
            &&& exists|e: TimerEntry|
                #[trigger] s0.timers().entries().contains(e) && e.task.tid == IO_TASK_TID && (
                accepts(e.task, id) ==> r.1 == IO_TASK_TID && exists|e2: TimerEntry|
                    #[trigger] appended(e.task, e2.task, id) && e2.deadline == e.deadline
                        && s1.timers().entries() == s0.timers().entries().remove(e).insert(e2))
                    && (!accepts(e.task, id) ==> r.1 == usize::MAX && s1.timers().entries()
                    == s0.timers().entries())
        }
        &&& !s0.mlfq().queued(IO_TASK_TID) && !io_in_slot(s0) && !s0.timers().holds(IO_TASK_TID)
            ==> {
            &&& r.1 == usize::MAX
            &&& s1.mlfq() == s0.mlfq()
            &&& s1.timers().entries() == s0.timers().entries()
        }
    }
    &&& !redirected(task) ==> {
        &&& s1.mlfq() == s0.mlfq()
        &&& s1.timers() == s0.timers()
        &&& accepts(task, id) ==> r.1 == task.tid && appended(task, r.0, id)
        &&& !accepts(task, id) ==> r.0 == task && r.1 == usize::MAX
    }
}

/// A task chosen to run, the poll count of its executor when chosen, and
/// the time slice to arm the timer with (none when it continues a slice).
pub struct Dispatch {
    pub task: Task,
    pub ticks: usize,
    pub slice: Option<u64>,
}

/// Everything the scheduler owns: the feedback queue, the sleeping tasks
/// and the counters that hand out task and coroutine ids.
pub struct Scheduler {
    mlfq: Mlfq,
    timers: TimerQueue,
    next_tid: usize,
    next_coroutine: u64,
}

impl Scheduler {
    pub closed spec fn mlfq(&self) -> Mlfq {
        self.mlfq
    }

    pub closed spec fn timers(&self) -> TimerQueue {
        self.timers
    }

    /// The id the next new task gets.
    pub closed spec fn spec_next_tid(&self) -> usize {
        self.next_tid
    }

    /// The id the next new coroutine gets.
    pub closed spec fn spec_next_coroutine(&self) -> u64 {
        self.next_coroutine
    }

    pub open spec fn wf(&self) -> bool {
        &&& self.mlfq().wf()
        &&& self.timers().wf()
    }

    /// A scheduler with no tasks.
    pub fn new() -> (s: Scheduler)
        ensures
            s.wf(),
            s.mlfq().transient() is None,
            forall|l: int| 0 <= l < 2 ==> #[trigger] s.mlfq().levels()[l].len() == 0,
            s.mlfq().cursor() == 0,
            s.timers().entries().len() == 0,
            s.spec_next_tid() == 0,
            s.spec_next_coroutine() == 0,
    {
        let s = Scheduler {
            mlfq: Mlfq::new(),
            timers: TimerQueue::new(),
            next_tid: 0,
            next_coroutine: 0,
        };
        proof {
            vstd::multiset::lemma_multiset_empty_len(s.timers.entries());
            assert forall|l: int| 0 <= l < 2 implies #[trigger] s.mlfq().levels()[l].len() == 0 by {}
        }
        s
    }

    /// The id the next new task gets.
    pub fn next_tid(&self) -> (r: usize)
        ensures
            r == self.spec_next_tid(),
    {
        self.next_tid
    }

    /// Number of sleeping tasks.
    pub fn timer_len(&self) -> (r: usize)
        ensures
            r == self.timers().spec_len(),
    {
        self.timers.len()
    }

    /// A fresh coroutine id, or `None` once all are used up.
    pub fn new_coroutine_id(&mut self) -> (r: Option<AsyncTaskId>)
        ensures
            old(self).spec_next_coroutine() < u64::MAX ==> r == Some(
                AsyncTaskId(old(self).spec_next_coroutine()),
            ) && final(self).spec_next_coroutine() == old(self).spec_next_coroutine() + 1,
            old(self).spec_next_coroutine() == u64::MAX ==> r is None && final(self).spec_next_coroutine()
                == old(self).spec_next_coroutine(),
            final(self).mlfq() == old(self).mlfq(),
            final(self).timers() == old(self).timers(),
            final(self).spec_next_tid() == old(self).spec_next_tid(),
    {
        if self.next_coroutine < u64::MAX {
            Some(AsyncTaskId::new(&mut self.next_coroutine))
        } else {
            None
        }
    }

    /// Queue `task`, marked blocking, at the back of its classification's level.
    pub fn add_task_to_queue(&mut self, task: Task)
        requires
            old(self).wf(),
            task.wf(),
        ensures
            final(self).wf(),
            final(self).mlfq().levels() == old(self).mlfq().levels().update(
                level_of(task.io),
                old(self).mlfq().levels()[level_of(task.io)].push(
                    with_status(task, TaskStatus::Blocking),
                ),
            ),
            final(self).mlfq().transient() == old(self).mlfq().transient(),
            final(self).mlfq().cursor() == old(self).mlfq().cursor(),
            final(self).timers() == old(self).timers(),
            final(self).spec_next_tid() == old(self).spec_next_tid(),
            final(self).spec_next_coroutine() == old(self).spec_next_coroutine(),
    {
        let mut task = task;
        task.set_status(TaskStatus::Blocking);
        self.mlfq.add_task_to_queue(task);
    }

    /// Put `task` in the slot that is served first.
    pub fn add_task_transient(&mut self, task: Task)
        requires
            old(self).wf(),
            task.wf(),
        ensures
            final(self).wf(),
            final(self).mlfq().transient() == Some(task),
            old(self).mlfq().transient() is None ==> final(self).mlfq().levels() == old(
                self,
            ).mlfq().levels(),
            old(self).mlfq().transient() matches Some(prev) ==> final(self).mlfq().levels() == old(
                self,
            ).mlfq().levels().update(
                level_of(prev.io),
                old(self).mlfq().levels()[level_of(prev.io)].push(prev),
            ),
            final(self).mlfq().cursor() == old(self).mlfq().cursor(),
            final(self).timers() == old(self).timers(),
            final(self).spec_next_tid() == old(self).spec_next_tid(),
            final(self).spec_next_coroutine() == old(self).spec_next_coroutine(),
    {
        self.mlfq.add_task_transient(task);
    }

    /// Create a task, of the next task id, whose executor holds the single
    /// coroutine `first`, and queue it. Returns its id.
    pub fn spawn(&mut self, first: AsyncTaskId, is_io: bool) -> (tid: usize)
        requires
            old(self).wf(),
            old(self).spec_next_tid() < usize::MAX,
        ensures
            final(self).wf(),
            tid == old(self).spec_next_tid(),
            final(self).spec_next_tid() == tid + 1,
            final(self).spec_next_coroutine() == old(self).spec_next_coroutine(),
            final(self).timers() == old(self).timers(),
            final(self).mlfq().transient() == old(self).mlfq().transient(),
            final(self).mlfq().cursor() == old(self).mlfq().cursor(),
            final(self).mlfq().levels() == old(self).mlfq().levels().update(
                level_of(is_io),
                old(self).mlfq().levels()[level_of(is_io)].push(
                    final(self).mlfq().levels()[level_of(is_io)].last(),
                ),
            ),
            ({
                let t = final(self).mlfq().levels()[level_of(is_io)].last();
                &&& t.tid == tid
                &&& t.io == is_io
                &&& t.tcb.status == TaskStatus::Blocking
                &&& t.tcb.stack == 0
                &&& t.executor.tasks() == Map::<u64, AsyncTask>::empty().insert(
                    first.0,
                    (AsyncTask { id: first, io: false }),
                )
                &&& t.executor.ready() == seq![first.0]
                &&& t.executor.spec_ticks() == 0
            }),
    {
        let mut executor = Executor::new();
        executor.spawn(AsyncTask::new(first));
        let tid = self.next_tid;
        self.next_tid = tid + 1;
        let task = Task::new(tid, TaskControlBlock::empty(), executor, is_io);
        let ghost t = with_status(task, TaskStatus::Blocking);
        proof {
            assert(task.executor.ready() =~= seq![first.0]);
        }
        self.add_task_to_queue(task);
        proof {
            let l = level_of(is_io);
            assert(self.mlfq().levels()[l] == old(self).mlfq().levels()[l].push(t));
            assert(self.mlfq().levels()[l].last() == t);
        }
        tid
    }

    /// Take the next task to run, as [`Mlfq::next_task`] does; `None` when
    /// no task is left.
    pub fn get_task_from_queue(&mut self) -> (r: Option<Task>)
        requires
            old(self).wf(),
        ensures
            final(self).wf(),
            r matches Some(t) ==> t.wf(),
            picks(old(self).mlfq(), final(self).mlfq(), r),
            final(self).timers() == old(self).timers(),
            final(self).spec_next_tid() == old(self).spec_next_tid(),
            final(self).spec_next_coroutine() == old(self).spec_next_coroutine(),
    {
        self.mlfq.next_task()
    }

    /// Take the task of id `tid` off its level.
    pub fn get_task_by_tid(&mut self, tid: usize) -> (r: Option<Task>)
        requires
            old(self).wf(),
        ensures
            final(self).wf(),
            r is None <==> !old(self).mlfq().queued(tid),
            r is None ==> final(self).mlfq() == old(self).mlfq(),
            r matches Some(t) ==> t.wf() && t.tid == tid && exists|l: int, j: int|
                0 <= l < 2 && 0 <= j < old(self).mlfq().levels()[l].len() && old(
                    self,
                ).mlfq().levels()[l][j] == t && final(self).mlfq().levels() == old(
                    self,
                ).mlfq().levels().update(l, old(self).mlfq().levels()[l].remove(j)),
            final(self).mlfq().transient() == old(self).mlfq().transient(),
            final(self).mlfq().cursor() == old(self).mlfq().cursor(),
            final(self).timers() == old(self).timers(),
            final(self).spec_next_tid() == old(self).spec_next_tid(),
            final(self).spec_next_coroutine() == old(self).spec_next_coroutine(),
    {
        self.mlfq.get_task_by_tid(tid)
    }

    /// Get `task` ready to run: a blocking task becomes running and gets a
    /// fresh time slice; any other continues the slice it had.
    pub fn prepare(task: Task) -> (d: Dispatch)
        ensures
            d.task == prepared(task),
            d.ticks == task.executor.spec_ticks(),
            d.slice == (if task.tcb.status == TaskStatus::Blocking {
                Some(slice_of(task.io))
            } else {
                None::<u64>
            }),
    {
        let mut task = task;
        let ticks = task.ticks();
        let slice = if task.status() == TaskStatus::Blocking {
            task.set_status(TaskStatus::Running);
            Some(get_slice(task.io))
        } else {
            None
        };
        Dispatch { task, ticks, slice }
    }

    /// Wake every sleeping task whose deadline is at most `now`, earliest
    /// first, queueing each blocking at its level.
    pub fn check_timer(&mut self, now: u64) -> (woken: Ghost<Seq<TimerEntry>>)
        requires
            old(self).wf(),
        ensures
            final(self).wf(),
            woken@.to_multiset() == due(old(self).timers().entries(), now),
            forall|i: int, j: int|
                0 <= i <= j < woken@.len() ==> (#[trigger] woken@[i]).deadline <= (
                #[trigger] woken@[j]).deadline,
            final(self).timers().entries() == pending(old(self).timers().entries(), now),
            final(self).mlfq().levels() == enqueue_all(old(self).mlfq().levels(), woken@),
            final(self).mlfq().transient() == old(self).mlfq().transient(),
            final(self).mlfq().cursor() == old(self).mlfq().cursor(),
            final(self).spec_next_tid() == old(self).spec_next_tid(),
            final(self).spec_next_coroutine() == old(self).spec_next_coroutine(),
    {
        let mut expired = self.timers.sweep(now);
        let ghost es = expired@;
        let ghost levels0 = self.mlfq().levels();
        let mut rest: Vec<TimerEntry> = Vec::new();
        while expired.len() > 0
            invariant
                self.wf(),
                es.len() == expired@.len() + rest@.len(),
                forall|i: int| 0 <= i < expired@.len() ==> #[trigger] expired@[i] == es[i],
                forall|i: int|
                    0 <= i < rest@.len() ==> #[trigger] rest@[i] == es[es.len() - 1 - i],
                forall|i: int| 0 <= i < es.len() ==> (#[trigger] es[i]).task.wf(),
                self.timers().entries() == pending(old(self).timers().entries(), now),
                self.mlfq().transient() == old(self).mlfq().transient(),
                self.mlfq().cursor() == old(self).mlfq().cursor(),
                self.spec_next_tid() == old(self).spec_next_tid(),
                self.spec_next_coroutine() == old(self).spec_next_coroutine(),
                self.mlfq().levels() == levels0,
                levels0 == old(self).mlfq().levels(),
            decreases expired@.len(),
        {
            let e = expired.pop().unwrap();
            rest.push(e);
        }
        let ghost mut done: Seq<TimerEntry> = Seq::empty();
        while rest.len() > 0
            invariant
                self.wf(),
                es.len() == done.len() + rest@.len(),
                forall|i: int| 0 <= i < done.len() ==> #[trigger] done[i] == es[i],
                forall|i: int|
                    0 <= i < rest@.len() ==> #[trigger] rest@[i] == es[es.len() - 1 - i],
                forall|i: int| 0 <= i < es.len() ==> (#[trigger] es[i]).task.wf(),
                self.mlfq().levels() == enqueue_all(levels0, done),
                self.timers().entries() == pending(old(self).timers().entries(), now),
                self.mlfq().transient() == old(self).mlfq().transient(),
                self.mlfq().cursor() == old(self).mlfq().cursor(),
                self.spec_next_tid() == old(self).spec_next_tid(),
                self.spec_next_coroutine() == old(self).spec_next_coroutine(),
            decreases rest@.len(),
        {
            let e = rest.pop().unwrap();
            proof {
                assert(e == es[done.len() as int]);
            }
            self.add_task_to_queue(e.task);
            proof {
                let d0 = done;
                done = done.push(e);
                assert(done.drop_last() =~= d0);
            }
        }
        proof {
            assert(done =~= es);
        }
        Ghost(es)
    }

    /// After a timer interrupt: wake the tasks due at `now`, then requeue
    /// `task`, blocking. A task whose executor completed no poll since
    /// `ticks_before` is classified compute-bound, and if it was classified
    /// as waiting on I/O its queued coroutines are first stolen into a new
    /// task; a task that made progress is classified as waiting on I/O.
    pub fn on_timer(&mut self, task: Task, ticks_before: usize, now: u64) -> (woken: Ghost<
        Seq<TimerEntry>,
    >)
        requires
            old(self).wf(),
            task.wf(),
            old(self).spec_next_tid() < usize::MAX,
        ensures
            final(self).wf(),
            woken@.to_multiset() == due(old(self).timers().entries(), now),
            final(self).timers().entries() == pending(old(self).timers().entries(), now),
            final(self).mlfq().transient() == old(self).mlfq().transient(),
            final(self).mlfq().cursor() == old(self).mlfq().cursor(),
            final(self).spec_next_coroutine() == old(self).spec_next_coroutine(),
            ({
                let progressed = task.executor.spec_ticks() != ticks_before;
                let stole = !progressed && task.io && task.executor.can_steal();
                let l = level_of(progressed);
                let before = enqueue_all(old(self).mlfq().levels(), woken@);
                let levels = final(self).mlfq().levels();
                let t = levels[l].last();
                let s = levels[IO_LEVEL as int].last();
                let moved = crate::executor::moved_ids(
                    task.executor.ready(),
                    task.executor.current(),
                );
                &&& !stole ==> {
                    &&& final(self).spec_next_tid() == old(self).spec_next_tid()
                    &&& levels == before.update(
                        l,
                        before[l].push(
                            with_status(Task { io: progressed, ..task }, TaskStatus::Blocking),
                        ),
                    )
                }
                &&& stole ==> {
                    &&& final(self).spec_next_tid() == old(self).spec_next_tid() + 1
                    &&& l == COMPUTE_LEVEL
                    &&& levels[COMPUTE_LEVEL as int] == before[COMPUTE_LEVEL as int].push(t)
                    &&& levels[IO_LEVEL as int] == before[IO_LEVEL as int].push(s)
                    &&& t.tid == task.tid
                    &&& !t.io
                    &&& t.tcb == with_status(task, TaskStatus::Blocking).tcb
                    &&& t.executor.tasks() == task.executor.tasks().remove_keys(moved)
                    &&& t.executor.current() == task.executor.current()
                    &&& t.executor.spec_ticks() == task.executor.spec_ticks()
                    &&& s.tid == old(self).spec_next_tid()
                    &&& s.io
                    &&& s.tcb.status == TaskStatus::Blocking
                    &&& s.tcb.stack == 0
                    &&& s.executor.tasks() == task.executor.tasks().restrict(moved)
                }
            }),
    {
        let woken = self.check_timer(now);
        let ghost l1 = self.mlfq().levels();
        let ghost t_in = task;
        let mut task = task;
        task.set_status(TaskStatus::Blocking);
        if task.ticks() == ticks_before {
            if task.io {
                let tid = self.next_tid;
                match task.steal(tid) {
                    Some(new_task) => {
                        self.next_tid = tid + 1;
                        self.add_task_to_queue(new_task);
                    },
                    None => {},
                }
            }
            task.io = false;
        } else {
            task.io = true;
        }
        let ghost l2 = self.mlfq().levels();
        let ghost t1 = task;
        self.add_task_to_queue(task);
        proof {
            let l = level_of(t1.io);
            assert(self.mlfq().levels()[l].last() == with_status(t1, TaskStatus::Blocking));
            let stole = t_in.executor.spec_ticks() == ticks_before && t_in.io
                && t_in.executor.can_steal();
            if !stole {
                assert(t1.executor == t_in.executor);
                assert(with_status(t1, TaskStatus::Blocking) == with_status(
                    Task { io: t1.io, ..t_in },
                    TaskStatus::Blocking,
                ));
                assert(l2 == l1);
            } else {
                assert(l == COMPUTE_LEVEL);
                assert(self.mlfq().levels()[IO_LEVEL as int] == l2[IO_LEVEL as int]);
            }
        }
        woken
    }

    /// After an external interrupt has been served: `task` was not charged
    /// for it and runs again first.
    pub fn on_external(&mut self, task: Task)
        requires
            old(self).wf(),
            task.wf(),
        ensures
            final(self).wf(),
            final(self).mlfq().transient() == Some(task),
            old(self).mlfq().transient() is None ==> final(self).mlfq().levels() == old(
                self,
            ).mlfq().levels(),
            old(self).mlfq().transient() matches Some(prev) ==> final(self).mlfq().levels() == old(
                self,
            ).mlfq().levels().update(
                level_of(prev.io),
                old(self).mlfq().levels()[level_of(prev.io)].push(prev),
            ),
            final(self).timers() == old(self).timers(),
            final(self).spec_next_tid() == old(self).spec_next_tid(),
            final(self).spec_next_coroutine() == old(self).spec_next_coroutine(),
    {
        self.add_task_transient(task);
    }

    /// Install coroutine `id` for `task`'s call, as [`append_post`] states.
    /// A compute-bound caller other than the I/O task hands it to the I/O
    /// task, wherever that one waits: on a level (it then moves, blocking,
    /// to the back of its level), in the transient slot, or asleep. Any other
    /// caller takes it itself. The answer is the id of the task that took
    /// the coroutine, or `usize::MAX` when the receiving executor had no room
    /// or already knew the id, or when no I/O task is left.
    pub fn handle_append_task(&mut self, task: Task, id: AsyncTaskId) -> (r: (Task, usize))
        requires
            old(self).wf(),
            task.wf(),
        ensures
            append_post(*old(self), *final(self), task, id, r),
    {
        if !task.io && task.tid != IO_TASK_TID {
            let ghost s0 = *self;
            let ret: usize;
            match self.get_task_by_tid(IO_TASK_TID) {
                Some(io_task) => {
                    let ghost (l, j) = choose|l: int, j: int|
                        0 <= l < 2 && 0 <= j < s0.mlfq().levels()[l].len() && s0.mlfq().levels()[l][j]
                            == io_task && self.mlfq().levels() == s0.mlfq().levels().update(
                            l,
                            s0.mlfq().levels()[l].remove(j),
                        );
                    let ghost rest = self.mlfq().levels();
                    let mut io_task = io_task;
                    io_task.set_status(TaskStatus::Blocking);
                    let ok = io_task.can_append(id);
                    if ok {
                        io_task.append(id);
                    }
                    let ghost t2 = with_status(io_task, TaskStatus::Blocking);
                    self.add_task_to_queue(io_task);
                    ret = if ok {
                        IO_TASK_TID
                    } else {
                        usize::MAX
                    };
                    proof {
                        let t = s0.mlfq().levels()[l][j];
                        let lv = level_of(t.io);
                        assert(self.mlfq().levels()[lv].last() == t2);
                        assert(self.mlfq().levels() == rest.update(lv, rest[lv].push(t2)));
                        if ok {
                            assert(appended(with_status(t, TaskStatus::Blocking), t2, id));
                        } else {
                            assert(t2 == with_status(t, TaskStatus::Blocking));
                        }
                        assert(s0.mlfq().levels()[l][j].tid == IO_TASK_TID);
                    }
                },
                None => {
                    match self.mlfq.take_transient(IO_TASK_TID) {
                        Some(io_task) => {
                            let mut io_task = io_task;
                            let ok = io_task.can_append(id);
                            if ok {
                                io_task.append(id);
                            }
                            self.mlfq.add_task_transient(io_task);
                            ret = if ok {
                                IO_TASK_TID
                            } else {
                                usize::MAX
                            };
                        },
                        None => {
                            ret = match self.timers.append_to(IO_TASK_TID, id) {
                                Some(true) => IO_TASK_TID,
                                _ => usize::MAX,
                            };
                        },
                    }
                },
            }
            return (task, ret);
        }
        let mut task = task;
        if task.can_append(id) {
            task.append(id);
            let tid = task.tid;
            (task, tid)
        } else {
            (task, usize::MAX)
        }
    }

    /// The system call `task` trapped with, read from its registers; `None`
    /// for an unknown call number.
    pub fn pending_syscall(task: &Task) -> (r: Option<Syscall>)
        ensures
            r == spec_decode(
                task.tcb.ctx.reg(SYSCALL_ID_REG as int),
                task.tcb.ctx.reg(SYSCALL_ARG0_REG as int),
            ),
    {
        Syscall::decode(task.tcb.ctx.x(SYSCALL_ID_REG), task.tcb.ctx.x(SYSCALL_ARG0_REG))
    }

    /// Carry out `call` for `task` at time `now` (milliseconds). A task that
    /// sleeps goes to the timer queue and one that exits is dropped: both
    /// give `None`. Otherwise the task comes back with the call's result in
    /// its result register: its id for `GetTid`, the id of the receiving
    /// task for `AppendTask`, zero for `Yield`, which also marks it blocking.
    pub fn handle_syscall(&mut self, task: Task, call: Syscall, now: u64) -> (r: Option<Task>)
        requires
            old(self).wf(),
            task.wf(),
            old(self).timers().spec_len() < MAX_HEAP_LEN,
        ensures
            final(self).wf(),
            r matches Some(t) ==> t.wf(),
            final(self).spec_next_tid() == old(self).spec_next_tid(),
            final(self).spec_next_coroutine() == old(self).spec_next_coroutine(),
            call matches Syscall::Sleep(ms) ==> {
                &&& r is None
                &&& final(self).mlfq() == old(self).mlfq()
                &&& final(self).timers().entries() == old(self).timers().entries().insert(
                    (TimerEntry {
                        deadline: deadline_after(now, ms as u64),
                        task: with_status(task, TaskStatus::Blocking),
                    }),
                )
            },
            call == Syscall::GetTid ==> {
                &&& final(self).mlfq() == old(self).mlfq()
                &&& final(self).timers() == old(self).timers()
                &&& (r matches Some(t) && answered(task, t, task.tid))
            },
            call == Syscall::Yield ==> {
                &&& final(self).mlfq() == old(self).mlfq()
                &&& final(self).timers() == old(self).timers()
                &&& (r matches Some(t) && answered(with_status(task, TaskStatus::Blocking), t, 0))
            },
            call == Syscall::Exit ==> {
                &&& r is None
                &&& final(self).mlfq() == old(self).mlfq()
                &&& final(self).timers() == old(self).timers()
            },
            call matches Syscall::AppendTask(token) ==> (r matches Some(t) && exists|p: (Task, usize)|
                #[trigger] append_post(*old(self), *final(self), task, AsyncTaskId(token as u64), p)
                    && answered(p.0, t, p.1)),
    {
        let (task, result) = match call {
            Syscall::Sleep(ms) => {
                let deadline = now.saturating_add(ms as u64);
                self.timers.push(deadline, task);
                return None;
            },
            Syscall::GetTid => {
                let tid = task.tid;
                (task, tid)
            },
            Syscall::AppendTask(token) => self.handle_append_task(task, AsyncTaskId(token as u64)),
            Syscall::Yield => {
                let mut task = task;
                task.set_status(TaskStatus::Blocking);
                (task, 0)
            },
            Syscall::Exit => {
                return None;
            },
        };
        let mut task = task;
        *task.tcb.ctx.x_mut(SYSCALL_ARG0_REG) = result;
        Some(task)
    }

    /// After a system call trap: carry it out, then queue the task if it
    /// comes back, first in line unless it was marked blocking.
    pub fn on_syscall(&mut self, task: Task, call: Syscall, now: u64)
        requires
            old(self).wf(),
            task.wf(),
            old(self).timers().spec_len() < MAX_HEAP_LEN,
        ensures
            final(self).wf(),
            final(self).spec_next_tid() == old(self).spec_next_tid(),
            final(self).spec_next_coroutine() == old(self).spec_next_coroutine(),
            call == Syscall::GetTid && task.tcb.status != TaskStatus::Blocking ==> (final(self).mlfq().transient() matches Some(t) && answered(
                task,
                t,
                task.tid,
            )),
            call == Syscall::Yield ==> answered(
                with_status(task, TaskStatus::Blocking),
                final(self).mlfq().levels()[level_of(task.io)].last(),
                0,
            ),
            call matches Syscall::Sleep(ms) ==> {
                &&& final(self).mlfq() == old(self).mlfq()
                &&& final(self).timers().entries() == old(self).timers().entries().insert(
                    (TimerEntry {
                        deadline: deadline_after(now, ms as u64),
                        task: with_status(task, TaskStatus::Blocking),
                    }),
                )
            },
            call == Syscall::Exit ==> {
                &&& final(self).mlfq() == old(self).mlfq()
                &&& final(self).timers() == old(self).timers()
            },
            call is AppendTask && task.tcb.status != TaskStatus::Blocking ==> (final(self).mlfq().transient() matches Some(t) && t.tid == task.tid && t.io == task.io
                && t.tcb.status == task.tcb.status),
            call is AppendTask && task.tcb.status == TaskStatus::Blocking ==> ({
                let t = final(self).mlfq().levels()[level_of(task.io)].last();
                &&& t.tid == task.tid
                &&& t.io == task.io
                &&& t.tcb.status == TaskStatus::Blocking
            }),
    {
        match self.handle_syscall(task, call, now) {
            Some(t) => {
                if t.status() != TaskStatus::Blocking {
                    self.add_task_transient(t);
                } else {
                    self.add_task_to_queue(t);
                }
            },
            None => {},
        }
    }
}

/// Task ids from successive spawns increase strictly, whatever other
/// scheduler operations run in between: every operation keeps or raises the
/// next id, and a spawn returns it and raises it by one.
pub proof fn lemma_spawn_ids_increase(
    before: Scheduler,
    after_first: Scheduler,
    before_second: Scheduler,
    first: usize,
    second: usize,
)
    requires
        first == before.spec_next_tid(),
        after_first.spec_next_tid() == first + 1,
        after_first.spec_next_tid() <= before_second.spec_next_tid(),
        second == before_second.spec_next_tid(),
    ensures
        first < second,
{
}

} // verus!
