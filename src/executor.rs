//! The cooperative coroutine executor that runs inside each task.
//!
//! The executor decides which coroutine is polled next and keeps the books
//! on the outcome; the futures themselves are polled by the caller, which
//! holds them keyed by coroutine id.
use crossbeam_queue::ArrayQueue;
use std::collections::BTreeMap;
use vstd::prelude::*;

verus! {

broadcast use vstd::std_specs::btree::group_btree_axioms;

/// Number of coroutine ids the ready queue of one executor holds.
pub const TASKNUM: usize = 300;

#[verifier::external_type_specification]
#[verifier::external_body]
#[verifier::reject_recursive_types(T)]
pub struct ExArrayQueue<T>(ArrayQueue<T>);

/// The ids in a ready queue, from head to tail.
pub uninterp spec fn queued_ids(q: ArrayQueue<u64>) -> Seq<u64>;

/// The capacity a ready queue was made with.
pub uninterp spec fn queue_bound(q: ArrayQueue<u64>) -> nat;

/// Relies on `ArrayQueue::new`: an empty queue of capacity `cap` (it panics on zero).
#[verifier::external_body]
fn ready_queue_new(cap: usize) -> (q: ArrayQueue<u64>)
    requires
        0 < cap <= TASKNUM,
    ensures
        queued_ids(q) == Seq::<u64>::empty(),
        queue_bound(q) == cap,
{
    ArrayQueue::new(cap)
}

/// Relies on `ArrayQueue::push`: appends at the tail, or hands the value back when full.
#[verifier::external_body]
fn ready_queue_push(q: &mut ArrayQueue<u64>, id: u64) -> (r: Result<(), u64>)
    ensures
        queue_bound(*final(q)) == queue_bound(*old(q)),
        queued_ids(*old(q)).len() < queue_bound(*old(q)) ==> r is Ok && queued_ids(*final(q))
            == queued_ids(*old(q)).push(id),
        queued_ids(*old(q)).len() >= queue_bound(*old(q)) ==> (r matches Err(v) && v == id)
            && queued_ids(*final(q)) == queued_ids(*old(q)),
{
    q.push(id)
}

/// Relies on `ArrayQueue::pop`: removes the head, or `None` when empty.
#[verifier::external_body]
fn ready_queue_pop(q: &mut ArrayQueue<u64>) -> (r: Option<u64>)
    ensures
        queue_bound(*final(q)) == queue_bound(*old(q)),
        queued_ids(*old(q)).len() == 0 ==> r is None && queued_ids(*final(q)) == queued_ids(*old(q)),
        queued_ids(*old(q)).len() > 0 ==> r == Some(queued_ids(*old(q))[0]) && queued_ids(*final(q))
            == queued_ids(*old(q)).drop_first(),
{
    q.pop()
}

/// Relies on `ArrayQueue::len`: the number of queued elements.
#[verifier::external_body]
fn ready_queue_len(q: &ArrayQueue<u64>) -> (n: usize)
    ensures
        n == queued_ids(*q).len(),
{
    q.len()
}

/// Identity of a coroutine, unique among all executors of one scheduler.
#[derive(PartialEq, Eq, Structural, Clone, Copy, Debug)]
pub struct AsyncTaskId(pub u64);

impl AsyncTaskId {
    /// The id `*next`, advancing the counter past it.
    pub fn new(next: &mut u64) -> (r: AsyncTaskId)
        requires
            *old(next) < u64::MAX,
        ensures
            r.0 == *old(next),
            *final(next) == *old(next) + 1,
    {
        let id = *next;
        *next = id + 1;
        AsyncTaskId(id)
    }
}

/// The executor's record of one coroutine.
#[derive(PartialEq, Eq, Structural, Clone, Copy, Debug)]
pub struct AsyncTask {
    pub id: AsyncTaskId,
    /// Set once a poll of it has returned pending: it waits on outside events.
    pub io: bool,
}

impl AsyncTask {
    /// A coroutine that has not been polled yet.
    pub fn new(id: AsyncTaskId) -> (t: AsyncTask)
        ensures
            t.id == id,
            !t.io,
    {
        AsyncTask { id, io: false }
    }
}

/// What a poll of a coroutine's future returned.
#[derive(PartialEq, Eq, Structural, Clone, Copy, Debug)]
pub enum PollResult {
    Ready,
    Pending,
}

/// What a task's thread does after its executor ran out of ready coroutines.
#[derive(PartialEq, Eq, Structural, Clone, Copy, Debug)]
pub enum RunStep {
    /// No coroutine is left: the thread exits.
    Exit,
    /// Coroutines wait on outside events: give up the time slice.
    Yield,
}

/// Ids of `s` other than `x`, in order.
pub open spec fn without(s: Seq<u64>, x: u64) -> Seq<u64>
    decreases s.len(),
{
    if s.len() == 0 {
        s
    } else {
        let w = without(s.drop_last(), x);
        if s.last() == x {
            w
        } else {
            w.push(s.last())
        }
    }
}

/// The ids that a steal moves away: those queued in `s`, but `cur`.
pub open spec fn moved_ids(s: Seq<u64>, cur: u64) -> Set<u64> {
    Set::new(|id: u64| s.contains(id) && id != cur)
}

proof fn lemma_without_len(s: Seq<u64>, x: u64)
    ensures
        without(s, x).len() <= s.len(),
    decreases s.len(),
{
    if s.len() > 0 {
        lemma_without_len(s.drop_last(), x);
    }
}

/// A coroutine executor: the coroutines it owns, the ready queue of ids
/// waiting for a poll, the coroutine polled last and the count of polls.
pub struct Executor {
    tasks: BTreeMap<u64, AsyncTask>,
    task_queue: ArrayQueue<u64>,
    current: AsyncTaskId,
    ticks: usize,
}

impl Executor {
    /// The coroutines owned, by id.
    pub closed spec fn tasks(&self) -> Map<u64, AsyncTask> {
        self.tasks@
    }

    /// Ids waiting for a poll, oldest first; they may name finished coroutines.
    pub closed spec fn ready(&self) -> Seq<u64> {
        queued_ids(self.task_queue)
    }

    /// The coroutine polled last.
    pub closed spec fn current(&self) -> u64 {
        self.current.0
    }

    /// Number of polls completed.
    pub closed spec fn spec_ticks(&self) -> nat {
        self.ticks as nat
    }

    pub closed spec fn wf(&self) -> bool {
        &&& queue_bound(self.task_queue) == TASKNUM
        &&& queued_ids(self.task_queue).len() <= TASKNUM
        &&& forall|k: u64| #[trigger] self.tasks@.contains_key(k) ==> self.tasks@[k].id.0 == k
    }

    /// An executor with no coroutines.
    pub fn new() -> (e: Executor)
        ensures
            e.wf(),
            e.tasks() == Map::<u64, AsyncTask>::empty(),
            e.ready() == Seq::<u64>::empty(),
            e.current() == 0,
            e.spec_ticks() == 0,
    {
        Executor {
            tasks: BTreeMap::new(),
            task_queue: ready_queue_new(TASKNUM),
            current: AsyncTaskId(0),
            ticks: 0,
        }
    }

    /// Whether the ready queue has no room for another id.
    pub fn is_queue_full(&self) -> (r: bool)
        requires
            self.wf(),
        ensures
            r == (self.ready().len() >= TASKNUM),
    {
        ready_queue_len(&self.task_queue) >= TASKNUM
    }

    /// Whether a coroutine of id `id` is owned.
    pub fn contains(&self, id: AsyncTaskId) -> (r: bool)
        ensures
            r == self.tasks().contains_key(id.0),
    {
        self.tasks.contains_key(&id.0)
    }

    /// Register `task` and queue it for a first poll.
    pub fn spawn(&mut self, task: AsyncTask)
        requires
            old(self).wf(),
            !old(self).tasks().contains_key(task.id.0),
            old(self).ready().len() < TASKNUM,
        ensures
            final(self).wf(),
            final(self).tasks() == old(self).tasks().insert(task.id.0, task),
            final(self).ready() == old(self).ready().push(task.id.0),
            final(self).current() == old(self).current(),
            final(self).spec_ticks() == old(self).spec_ticks(),
    {
        let id = task.id.0;
        self.tasks.insert(id, task);
        let _ = ready_queue_push(&mut self.task_queue, id);
    }

    /// Number of polls completed.
    pub fn ticks(&self) -> (r: usize)
        ensures
            r == self.spec_ticks(),
    {
        self.ticks
    }

    /// Number of coroutines owned.
    pub fn queue_len(&self) -> (r: usize)
        ensures
            r == self.tasks().len(),
    {
        self.tasks.len()
    }

    /// The step after a batch of polls: exit once no coroutine is left,
    /// else yield and come back later.
    pub fn run_step(&self) -> (r: RunStep)
        ensures
            r == (if self.tasks().len() == 0 {
                RunStep::Exit
            } else {
                RunStep::Yield
            }),
    {
        if self.tasks.len() == 0 {
            RunStep::Exit
        } else {
            RunStep::Yield
        }
    }

    /// Number of ids waiting in the ready queue.
    pub fn ready_len(&self) -> (r: usize)
        ensures
            r == self.ready().len(),
    {
        ready_queue_len(&self.task_queue)
    }

    /// Queue coroutine `id` for another poll. When the ready queue is full
    /// the id is handed back and nothing changes.
    pub fn wake(&mut self, id: AsyncTaskId) -> (r: Result<(), AsyncTaskId>)
        requires
            old(self).wf(),
        ensures
            final(self).wf(),
            final(self).tasks() == old(self).tasks(),
            final(self).current() == old(self).current(),
            final(self).spec_ticks() == old(self).spec_ticks(),
            old(self).ready().len() < TASKNUM ==> r is Ok && final(self).ready() == old(
                self,
            ).ready().push(id.0),
            old(self).ready().len() >= TASKNUM ==> (r matches Err(v) && v == id)
                && final(self).ready() == old(self).ready(),
    {
        match ready_queue_push(&mut self.task_queue, id.0) {
            Ok(()) => Ok(()),
            Err(_) => Err(id),
        }
    }

    /// Take ids off the ready queue until one names an owned coroutine, make
    /// it the current one and return it; ids of finished coroutines are
    /// dropped on the way. `None` when the queue runs out.
    pub fn next_ready(&mut self) -> (r: Option<AsyncTaskId>)
        requires
            old(self).wf(),
        ensures
            final(self).wf(),
            final(self).tasks() == old(self).tasks(),
            final(self).spec_ticks() == old(self).spec_ticks(),
            r is None ==> {
                &&& final(self).ready().len() == 0
                &&& final(self).current() == old(self).current()
                &&& forall|j: int|
                    0 <= j < old(self).ready().len() ==> !old(self).tasks().contains_key(
                        #[trigger] old(self).ready()[j],
                    )
            },
            r matches Some(id) ==> {
                &&& old(self).tasks().contains_key(id.0)
                &&& final(self).current() == id.0
                &&& exists|k: int|
                    0 <= k < old(self).ready().len() && old(self).ready()[k] == id.0
                        && final(self).ready() == old(self).ready().skip(k + 1) && forall|j: int|
                        0 <= j < k ==> !old(self).tasks().contains_key(
                            #[trigger] old(self).ready()[j],
                        )
            },
    {
        let ghost r0 = self.ready();
        loop
            invariant
                self.wf(),
                self.tasks() == old(self).tasks(),
                self.spec_ticks() == old(self).spec_ticks(),
                self.current() == old(self).current(),
                0 <= r0.len() - self.ready().len(),
                self.ready() == r0.skip(r0.len() - self.ready().len()),
                r0 == old(self).ready(),
                forall|j: int|
                    0 <= j < r0.len() - self.ready().len() ==> !old(self).tasks().contains_key(
                        #[trigger] r0[j],
                    ),
            decreases self.ready().len(),
        {
            let ghost before = self.ready();
            match ready_queue_pop(&mut self.task_queue) {
                None => {
                    return None;
                },
                Some(id) => {
                    proof {
                        let k = r0.len() - before.len();
                        assert(r0[k] == id);
                        assert(self.ready() =~= r0.skip(k + 1));
                    }
                    if self.tasks.contains_key(&id) {
                        self.current = AsyncTaskId(id);
                        proof {
                            let k = r0.len() - before.len();
                            assert(old(self).ready()[k] == id);
                        }
                        return Some(AsyncTaskId(id));
                    }
                },
            }
        }
    }

    /// Record the outcome of polling coroutine `id`: a finished coroutine is
    /// dropped, a pending one is marked as waiting on outside events. Either
    /// way one more poll is counted.
    pub fn record_poll(&mut self, id: AsyncTaskId, outcome: PollResult)
        requires
            old(self).wf(),
            old(self).tasks().contains_key(id.0),
            old(self).spec_ticks() < usize::MAX,
        ensures
            final(self).wf(),
            outcome == PollResult::Ready ==> final(self).tasks() == old(self).tasks().remove(id.0),
            outcome == PollResult::Pending ==> final(self).tasks() == old(self).tasks().insert(
                id.0,
                AsyncTask { id, io: true },
            ),
            final(self).ready() == old(self).ready(),
            final(self).current() == old(self).current(),
            final(self).spec_ticks() == old(self).spec_ticks() + 1,
    {
        match outcome {
            PollResult::Ready => {
                self.tasks.remove(&id.0);
            },
            PollResult::Pending => {
                self.tasks.insert(id.0, AsyncTask { id, io: true });
            },
        }
        self.ticks = self.ticks + 1;
    }

    /// Whether [`Self::steal`] would move coroutines away: the current
    /// coroutine is owned and not waiting on outside events, and more than
    /// one id is queued.
    pub open spec fn can_steal(&self) -> bool {
        &&& self.tasks().contains_key(self.current())
        &&& !self.tasks()[self.current()].io
        &&& self.ready().len() > 1
    }

    /// Move every queued coroutine but the current one into a new executor.
    /// The current coroutine stays, and keeps its place in the ready queue
    /// if it had one. `None`, with nothing changed, unless
    /// [`Self::can_steal`] holds.
    pub fn steal(&mut self) -> (r: Option<Executor>)
        requires
            old(self).wf(),
        ensures
            final(self).wf(),
            final(self).current() == old(self).current(),
            final(self).spec_ticks() == old(self).spec_ticks(),
            !old(self).can_steal() ==> r is None && *final(self) == *old(self),
            old(self).can_steal() ==> (r matches Some(e) && {
                let moved = moved_ids(old(self).ready(), old(self).current());
                &&& e.wf()
                &&& e.tasks() == old(self).tasks().restrict(moved)
                &&& final(self).tasks() == old(self).tasks().remove_keys(moved)
                &&& e.ready() == without(old(self).ready(), old(self).current())
                &&& final(self).ready() == (if old(self).ready().contains(old(self).current()) {
                    seq![old(self).current()]
                } else {
                    Seq::<u64>::empty()
                })
                &&& e.current() == 0
                &&& e.spec_ticks() == 0
            }),
    {
        let cur = self.current.0;
        let is_io = match self.tasks.get(&cur) {
            Some(task) => task.io,
            None => {
                return None;
            },
        };
        if ready_queue_len(&self.task_queue) > 1 && !is_io {
            let ghost r0 = self.ready();
            let ghost t0 = self.tasks();
            let mut new_queue = ready_queue_new(TASKNUM);
            let mut new_tasks: BTreeMap<u64, AsyncTask> = BTreeMap::new();
            let mut keep_current = false;
            let ghost mut popped: Seq<u64> = Seq::empty();
            loop
                invariant
                    queue_bound(self.task_queue) == TASKNUM,
                    queue_bound(new_queue) == TASKNUM,
                    r0 == old(self).ready(),
                    t0 == old(self).tasks(),
                    r0.len() <= TASKNUM,
                    cur == old(self).current(),
                    t0.contains_key(cur),
                    forall|k: u64| #[trigger] t0.contains_key(k) ==> t0[k].id.0 == k,
                    r0 == popped + self.ready(),
                    queued_ids(new_queue) == without(popped, cur),
                    new_tasks@ == t0.restrict(moved_ids(popped, cur)),
                    self.tasks() == t0.remove_keys(moved_ids(popped, cur)),
                    keep_current == popped.contains(cur),
                    self.current == old(self).current,
                    self.ticks == old(self).ticks,
                ensures
                    self.ready().len() == 0,
                decreases self.ready().len(),
            {
                let ghost before = self.ready();
                match ready_queue_pop(&mut self.task_queue) {
                    None => {
                        break ;
                    },
                    Some(id) => {
                        proof {
                            lemma_without_len(popped, cur);
                        }
                        let ghost p0 = popped;
                        proof {
                            popped = popped.push(id);
                            assert(before[0] == id);
                            assert(r0 =~= popped + self.ready());
                            assert(popped.drop_last() =~= p0);
                        }
                        if id == cur {
                            keep_current = true;
                            proof {
                                assert(moved_ids(popped, cur) =~= moved_ids(p0, cur));
                                assert(popped.contains(cur)) by {
                                    assert(popped[popped.len() - 1] == cur);
                                }
                            }
                        } else {
                            let _ = ready_queue_push(&mut new_queue, id);
                            match self.tasks.remove(&id) {
                                Some(task) => {
                                    new_tasks.insert(id, task);
                                },
                                None => {},
                            }
                            proof {
                                assert forall|x: u64| popped.contains(x) <==> (p0.contains(x) || x == id) by {
                                    if popped.contains(x) {
                                        let j = choose|j: int| 0 <= j < popped.len() && popped[j] == x;
                                        if j < p0.len() {
                                            assert(p0[j] == x);
                                        }
                                    }
                                    if p0.contains(x) {
                                        let j = choose|j: int| 0 <= j < p0.len() && p0[j] == x;
                                        assert(popped[j] == x);
                                    }
                                    assert(popped[popped.len() - 1] == id);
                                }
                                assert(moved_ids(popped, cur) =~= moved_ids(p0, cur).insert(id));
                                assert(new_tasks@ =~= t0.restrict(moved_ids(popped, cur)));
                                assert(self.tasks() =~= t0.remove_keys(moved_ids(popped, cur)));
                                assert(popped.contains(cur) == p0.contains(cur)) by {
                                    if p0.contains(cur) {
                                        let j = choose|j: int| 0 <= j < p0.len() && p0[j] == cur;
                                        assert(popped[j] == cur);
                                    }
                                    if popped.contains(cur) {
                                        let j = choose|j: int|
                                            0 <= j < popped.len() && popped[j] == cur;
                                        assert(j < p0.len());
                                        assert(p0[j] == cur);
                                    }
                                }
                            }
                        }
                    },
                }
            }
            proof {
                assert(popped =~= r0);
            }
            if keep_current {
                let _ = ready_queue_push(&mut self.task_queue, cur);
                proof {
                    assert(self.ready() =~= seq![cur]);
                }
            }
            proof {
                assert(self.ready().len() == 0 || keep_current);
                if !keep_current {
                    assert(self.ready() =~= Seq::<u64>::empty());
                }
                lemma_without_len(r0, cur);
            }
            return Some(
                Executor { tasks: new_tasks, task_queue: new_queue, current: AsyncTaskId(0), ticks: 0 },
            );
        }
        None
    }
}

/// A steal neither loses nor duplicates a coroutine: the coroutines left
/// behind and those moved away are disjoint, together they are the ones
/// owned before, and the current coroutine stays.
pub proof fn lemma_steal_partitions(tasks: Map<u64, AsyncTask>, ready: Seq<u64>, cur: u64)
    requires
        tasks.contains_key(cur),
    ensures
        ({
            let moved = moved_ids(ready, cur);
            let kept = tasks.remove_keys(moved);
            let stolen = tasks.restrict(moved);
            &&& kept.dom().disjoint(stolen.dom())
            &&& kept.dom() + stolen.dom() == tasks.dom()
            &&& kept.contains_key(cur)
            &&& forall|k: u64| #[trigger] kept.contains_key(k) ==> kept[k] == tasks[k]
            &&& forall|k: u64| #[trigger] stolen.contains_key(k) ==> stolen[k] == tasks[k]
        }),
{
    let moved = moved_ids(ready, cur);
    assert(tasks.remove_keys(moved).dom() + tasks.restrict(moved).dom() =~= tasks.dom());
}

} // verus!
