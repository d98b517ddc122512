//! Tasks (a thread plus its coroutine executor) and the multi-level
//! feedback queue that orders them.
use crate::executor::{AsyncTask, AsyncTaskId, Executor, TASKNUM};
use crate::thread::{TaskControlBlock, TaskStatus};
use std::collections::VecDeque;
use vstd::prelude::*;

verus! {

/// Number of levels of the feedback queue.
pub const NUM_LEVELS: usize = 2;

/// Level of tasks classified as waiting on I/O.
pub const IO_LEVEL: usize = 0;

/// Level of tasks classified as compute-bound.
pub const COMPUTE_LEVEL: usize = 1;

/// One kernel thread with the executor it runs.
pub struct Task {
    pub tid: usize,
    pub tcb: TaskControlBlock,
    pub executor: Executor,
    /// Classified as waiting on I/O rather than computing.
    pub io: bool,
}

/// The level searched `k`-th when the round-robin search starts at `c`.
pub open spec fn probe(c: int, k: int) -> int {
    (c + k) % NUM_LEVELS as int
}

/// `t` with its thread's status set to `s`.
pub open spec fn with_status(t: Task, s: TaskStatus) -> Task {
    Task { tcb: TaskControlBlock { status: s, ..t.tcb }, ..t }
}

/// Whether the executor of `t` can take coroutine `id`: the id is new to it
/// and its ready queue has room.
pub open spec fn accepts(t: Task, id: AsyncTaskId) -> bool {
    &&& !t.executor.tasks().contains_key(id.0)
    &&& t.executor.ready().len() < TASKNUM
}

/// `t2` is `t` after coroutine `id` was handed to its executor.
pub open spec fn appended(t: Task, t2: Task, id: AsyncTaskId) -> bool {
    &&& t2.wf()
    &&& t2.tid == t.tid
    &&& t2.io == t.io
    &&& t2.tcb == t.tcb
    &&& t2.executor.tasks() == t.executor.tasks().insert(id.0, AsyncTask { id, io: false })
    &&& t2.executor.ready() == t.executor.ready().push(id.0)
    &&& t2.executor.current() == t.executor.current()
    &&& t2.executor.spec_ticks() == t.executor.spec_ticks()
}

/// The level a task of classification `io` is queued at.
pub open spec fn level_of(io: bool) -> int {
    if io {
        IO_LEVEL as int
    } else {
        COMPUTE_LEVEL as int
    }
}

impl Task {
    pub open spec fn wf(&self) -> bool {
        self.executor.wf()
    }

    pub fn new(tid: usize, tcb: TaskControlBlock, executor: Executor, is_io: bool) -> (t: Task)
        ensures
            t.tid == tid,
            t.tcb == tcb,
            t.executor == executor,
            t.io == is_io,
    {
        Task { tid, tcb, executor, io: is_io }
    }

    pub fn status(&self) -> (s: TaskStatus)
        ensures
            s == self.tcb.status,
    {
        self.tcb.status
    }

    pub fn set_status(&mut self, status: TaskStatus)
        ensures
            *final(self) == with_status(*old(self), status),
    {
        self.tcb.status = status;
    }

    /// Polls completed by the task's executor.
    pub fn ticks(&self) -> (r: usize)
        ensures
            r == self.executor.spec_ticks(),
    {
        self.executor.ticks()
    }

    /// Coroutines owned by the task's executor.
    pub fn queue_len(&self) -> (r: usize)
        ensures
            r == self.executor.tasks().len(),
    {
        self.executor.queue_len()
    }

    /// Move the queued coroutines, but the current one, into a
    /// new I/O-classified task of id `tid` whose thread is not set up yet.
    pub fn steal(&mut self, tid: usize) -> (r: Option<Task>)
        requires
            old(self).wf(),
        ensures
            final(self).wf(),
            final(self).tid == old(self).tid,
            final(self).tcb == old(self).tcb,
            final(self).io == old(self).io,
            final(self).executor.current() == old(self).executor.current(),
            final(self).executor.spec_ticks() == old(self).executor.spec_ticks(),
            !old(self).executor.can_steal() ==> r is None && final(self).executor == old(
                self,
            ).executor,
            old(self).executor.can_steal() ==> (r matches Some(t) && {
                let moved = crate::executor::moved_ids(
                    old(self).executor.ready(),
                    old(self).executor.current(),
                );
                &&& t.wf()
                &&& t.tid == tid
                &&& t.io
                &&& t.tcb.status == TaskStatus::UnInit
                &&& t.tcb.stack == 0
                &&& t.executor.tasks() == old(self).executor.tasks().restrict(moved)
                &&& final(self).executor.tasks() == old(self).executor.tasks().remove_keys(moved)
            }),
    {
        match self.executor.steal() {
            Some(executor) => Some(Task::new(tid, TaskControlBlock::empty(), executor, true)),
            None => {
                proof {
                    assert(self.executor.tasks() =~= old(self).executor.tasks());
                }
                None
            },
        }
    }

    /// Whether the executor can take coroutine `id`: the id is new to it and
    /// its ready queue has room.
    pub fn can_append(&self, id: AsyncTaskId) -> (r: bool)
        requires
            self.wf(),
        ensures
            r == accepts(*self, id),
    {
        !self.executor.contains(id) && !self.executor.is_queue_full()
    }

    /// Hand coroutine `id` to the executor.
    pub fn append(&mut self, id: AsyncTaskId)
        requires
            old(self).wf(),
            accepts(*old(self), id),
        ensures
            appended(*old(self), *final(self), id),
    {
        self.executor.spawn(AsyncTask::new(id));
    }
}

/// The feedback queue: one FIFO queue of tasks per level, a round-robin
/// cursor over the levels, and a one-task slot that is served first.
pub struct Mlfq {
    queue: Vec<VecDeque<Task>>,
    task: Option<Task>,
    level: usize,
}

/// `r` is the task `next_task` takes from `m` and `m2` the queue after it:
/// the transient task if there is one, else the front of the first
/// non-empty level searching round-robin from the cursor, which then moves
/// past the level served. `None` when all is empty.
pub open spec fn picks(m: Mlfq, m2: Mlfq, r: Option<Task>) -> bool {
    if m.transient() is Some {
        &&& r == m.transient()
        &&& m2.transient() is None
        &&& m2.levels() == m.levels()
        &&& m2.cursor() == m.cursor()
    } else {
        &&& m2.transient() is None
        &&& r is None ==> {
            &&& forall|l: int| 0 <= l < NUM_LEVELS ==> #[trigger] m.levels()[l].len() == 0
            &&& m2.levels() == m.levels()
            &&& m2.cursor() == m.cursor()
        }
        &&& r is Some ==> exists|k: int|
            0 <= k < NUM_LEVELS && {
                let l = #[trigger] probe(m.cursor(), k);
                &&& m.levels()[l].len() > 0
                &&& forall|j: int| 0 <= j < k ==> m.levels()[#[trigger] probe(m.cursor(), j)].len() == 0
                &&& r == Some(m.levels()[l][0])
                &&& m2.levels() == m.levels().update(l, m.levels()[l].drop_first())
                &&& m2.cursor() == (l + 1) % NUM_LEVELS as int
            }
    }
}

/// There is one queue per level.
pub broadcast proof fn lemma_levels_len(m: Mlfq)
    ensures
        #[trigger] m.levels().len() == NUM_LEVELS,
{
}

impl Mlfq {
    /// The queue of each level, front first.
    pub closed spec fn levels(&self) -> Seq<Seq<Task>> {
        Seq::new(NUM_LEVELS as nat, |i: int| self.queue@[i]@)
    }

    /// The task in the slot that is served before any level.
    pub closed spec fn transient(&self) -> Option<Task> {
        self.task
    }

    /// The level the round-robin search starts at next.
    pub closed spec fn cursor(&self) -> int {
        self.level as int
    }

    pub closed spec fn wf(&self) -> bool {
        &&& self.queue@.len() == NUM_LEVELS
        &&& self.level < NUM_LEVELS
        &&& forall|l: int, j: int|
            0 <= l < NUM_LEVELS && 0 <= j < self.queue@[l]@.len() ==> (
            #[trigger] self.queue@[l]@[j]).wf()
        &&& self.task matches Some(t) ==> t.wf()
    }

    pub fn new() -> (m: Mlfq)
        ensures
            m.wf(),
            m.levels() =~= Seq::new(NUM_LEVELS as nat, |i: int| Seq::<Task>::empty()),
            m.transient() is None,
            m.cursor() == 0,
    {
        let mut queue: Vec<VecDeque<Task>> = Vec::new();
        queue.push(VecDeque::new());
        queue.push(VecDeque::new());
        let m = Mlfq { queue, task: None, level: 0 };
        proof {
            assert(m.levels() =~= Seq::new(NUM_LEVELS as nat, |i: int| Seq::<Task>::empty()));
        }
        m
    }

    /// Take the next task to run: the transient one if there is one, else the
    /// front of the first non-empty level, searching round-robin from the
    /// cursor; the cursor then moves past the level served.
    pub fn next_task(&mut self) -> (r: Option<Task>)
        requires
            old(self).wf(),
        ensures
            final(self).wf(),
            r matches Some(t) ==> t.wf(),
            picks(*old(self), *final(self), r),
    {
        if self.task.is_some() {
            return self.task.take();
        }
        let mut k: usize = 0;
        while k < NUM_LEVELS
            invariant
                self.wf(),
                self.task is None,
                old(self).transient() is None,
                0 <= k <= NUM_LEVELS,
                self.levels() == old(self).levels(),
                self.level as int == (old(self).level + k) % NUM_LEVELS as int,
                forall|j: int|
                    0 <= j < k ==> old(self).levels()[#[trigger] probe(old(self).cursor(), j)].len() == 0,
            decreases NUM_LEVELS - k,
        {
            let level = self.level;
            self.level = (self.level + 1) % NUM_LEVELS;
            let ghost q0 = self.queue@;
            let popped = self.queue[level].pop_front();
            match popped {
                Some(task) => {
                    proof {
                        assert(self.levels() =~= old(self).levels().update(
                            level as int,
                            old(self).levels()[level as int].drop_first(),
                        ));
                        assert forall|l: int, j: int|
                            0 <= l < NUM_LEVELS && 0 <= j < self.queue@[l]@.len() implies (
                            #[trigger] self.queue@[l]@[j]).wf() by {
                            if l == level {
                                assert(self.queue@[l]@[j] == q0[l]@[j + 1]);
                            }
                        }
                        assert(q0[level as int]@[0] == task);
                        assert(probe(old(self).cursor(), k as int) == level);
                    }
                    return Some(task);
                },
                None => {
                    proof {
                        assert(self.levels() =~= old(self).levels());
                        assert(probe(old(self).cursor(), k as int) == level);
                    }
                },
            }
            k = k + 1;
        }
        proof {
            assert forall|l: int| 0 <= l < NUM_LEVELS implies #[trigger] old(self).levels()[l].len()
                == 0 by {
                let j = (l - old(self).cursor() + NUM_LEVELS) % NUM_LEVELS as int;
                assert(probe(old(self).cursor(), j) == l);
            }
            assert(self.levels() =~= old(self).levels());
        }
        None
    }

    /// Append `task` to the level of its classification.
    pub fn add_task_to_queue(&mut self, task: Task)
        requires
            old(self).wf(),
            task.wf(),
        ensures
            final(self).wf(),
            final(self).levels() == old(self).levels().update(
                level_of(task.io),
                old(self).levels()[level_of(task.io)].push(task),
            ),
            final(self).transient() == old(self).transient(),
            final(self).cursor() == old(self).cursor(),
    {
        let l = if task.io {
            IO_LEVEL
        } else {
            COMPUTE_LEVEL
        };
        let ghost q0 = self.queue@;
        self.queue[l].push_back(task);
        proof {
            assert(self.levels() =~= old(self).levels().update(
                level_of(task.io),
                old(self).levels()[level_of(task.io)].push(task),
            ));
            assert forall|l2: int, j: int|
                0 <= l2 < NUM_LEVELS && 0 <= j < self.queue@[l2]@.len() implies (
                #[trigger] self.queue@[l2]@[j]).wf() by {
                if l2 == l && j < q0[l2]@.len() {
                    assert(self.queue@[l2]@[j] == q0[l2]@[j]);
                }
            }
        }
    }

    /// Put `task` in the slot served first; a task already there moves to
    /// the back of its level.
    pub fn add_task_transient(&mut self, task: Task)
        requires
            old(self).wf(),
            task.wf(),
        ensures
            final(self).wf(),
            final(self).transient() == Some(task),
            final(self).cursor() == old(self).cursor(),
            old(self).transient() is None ==> final(self).levels() == old(self).levels(),
            old(self).transient() matches Some(prev) ==> final(self).levels() == old(
                self,
            ).levels().update(level_of(prev.io), old(self).levels()[level_of(prev.io)].push(prev)),
    {
        match self.task.take() {
            None => {
                self.task = Some(task);
            },
            Some(prev) => {
                self.add_task_to_queue(prev);
                self.task = Some(task);
            },
        }
    }

    /// Take the transient task if its id is `tid`; otherwise change nothing.
    pub fn take_transient(&mut self, tid: usize) -> (r: Option<Task>)
        requires
            old(self).wf(),
        ensures
            final(self).wf(),
            (old(self).transient() matches Some(t) && t.tid == tid) ==> {
                &&& r == old(self).transient()
                &&& r.unwrap().wf()
                &&& final(self).transient() is None
                &&& final(self).levels() == old(self).levels()
                &&& final(self).cursor() == old(self).cursor()
            },
            !(old(self).transient() matches Some(t) && t.tid == tid) ==> r is None && *final(self)
                == *old(self),
    {
        let matches_tid = match &self.task {
            Some(t) => t.tid == tid,
            None => false,
        };
        if matches_tid {
            self.task.take()
        } else {
            None
        }
    }

    /// Whether a task of id `tid` waits on some level.
    pub open spec fn queued(&self, tid: usize) -> bool {
        exists|l: int, j: int|
            0 <= l < NUM_LEVELS && 0 <= j < self.levels()[l].len() && (#[trigger] self.levels()[l][j]).tid
                == tid
    }

    /// Take the task of id `tid` off its level, searching the levels in order
    /// and each from the front; the others keep their order.
    pub fn get_task_by_tid(&mut self, tid: usize) -> (r: Option<Task>)
        requires
            old(self).wf(),
        ensures
            final(self).wf(),
            final(self).transient() == old(self).transient(),
            final(self).cursor() == old(self).cursor(),
            r is None <==> !old(self).queued(tid),
            r is None ==> *final(self) == *old(self),
            r matches Some(t) ==> t.wf() && t.tid == tid && exists|l: int, j: int|
                0 <= l < NUM_LEVELS && 0 <= j < old(self).levels()[l].len()
                    && old(self).levels()[l][j] == t && final(self).levels() == old(
                    self,
                ).levels().update(l, old(self).levels()[l].remove(j)),
    {
        let mut l: usize = 0;
        while l < NUM_LEVELS
            invariant
                self.wf(),
                self == old(self),
                0 <= l <= NUM_LEVELS,
                forall|l2: int, j: int|
                    0 <= l2 < l && 0 <= j < self.levels()[l2].len() ==> (
                    #[trigger] self.levels()[l2][j]).tid != tid,
            decreases NUM_LEVELS - l,
        {
            let n = self.queue[l].len();
            let mut j: usize = 0;
            while j < n
                invariant
                    self.wf(),
                    self == old(self),
                    0 <= l < NUM_LEVELS,
                    0 <= j <= n,
                    n == self.levels()[l as int].len(),
                    forall|l2: int, j2: int|
                        0 <= l2 < l && 0 <= j2 < self.levels()[l2].len() ==> (
                        #[trigger] self.levels()[l2][j2]).tid != tid,
                    forall|j2: int| 0 <= j2 < j ==> (#[trigger] self.levels()[l as int][j2]).tid != tid,
                decreases n - j,
            {
                if self.queue[l][j].tid == tid {
                    let ghost q0 = self.queue@;
                    let t = self.queue[l].remove(j).unwrap();
                    proof {
                        assert(self.levels() =~= old(self).levels().update(
                            l as int,
                            old(self).levels()[l as int].remove(j as int),
                        ));
                        assert(t.wf());
                        assert forall|l2: int, j2: int|
                            0 <= l2 < NUM_LEVELS && 0 <= j2 < self.queue@[l2]@.len() implies (
                            #[trigger] self.queue@[l2]@[j2]).wf() by {
                            if l2 == l {
                                if j2 < j {
                                    assert(self.queue@[l2]@[j2] == q0[l2]@[j2]);
                                } else {
                                    assert(self.queue@[l2]@[j2] == q0[l2]@[j2 + 1]);
                                }
                            }
                        }
                    }
                    return Some(t);
                }
                j = j + 1;
            }
            l = l + 1;
        }
        proof {
            if old(self).queued(tid) {
                let (l2, j2) = choose|l2: int, j2: int|
                    0 <= l2 < NUM_LEVELS && 0 <= j2 < old(self).levels()[l2].len() && (
                    #[trigger] old(self).levels()[l2][j2]).tid == tid;
                assert(self.levels()[l2][j2].tid != tid);
            }
        }
        None
    }
}

} // verus!
