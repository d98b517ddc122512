use kernel_sched::executor::{AsyncTaskId, Executor, PollResult};
use kernel_sched::sched::{get_slice, Scheduler, BASE_SLICE, IO_TASK_TID};
use kernel_sched::syscall::Syscall;
use kernel_sched::task::{Mlfq, Task};
use kernel_sched::thread::{TaskControlBlock, TaskStatus};

fn spawn_one(s: &mut Scheduler, io: bool) -> (usize, AsyncTaskId) {
    let id = s.new_coroutine_id().unwrap();
    (s.spawn(id, io), id)
}

#[test]
fn spawn_ids_strictly_increase() {
    let mut s = Scheduler::new();
    let mut last = None;
    for k in 0..10 {
        let (tid, _) = spawn_one(&mut s, k % 2 == 0);
        if let Some(prev) = last {
            assert!(tid > prev);
        }
        last = Some(tid);
    }
    assert_eq!(last, Some(9));
    assert_eq!(s.next_tid(), 10);
}

#[test]
fn slices_favour_compute_tasks() {
    assert_eq!(get_slice(true), BASE_SLICE);
    assert_eq!(get_slice(false), 2 * BASE_SLICE);
}

#[test]
fn dispatch_prefers_transient_then_round_robin() {
    let mut s = Scheduler::new();
    let (io_tid, _) = spawn_one(&mut s, true);
    let (cpu_tid, _) = spawn_one(&mut s, false);
    let (io2_tid, _) = spawn_one(&mut s, true);
    let t = s.get_task_from_queue().unwrap();
    assert_eq!(t.tid, io_tid);
    let d = Scheduler::prepare(t);
    assert_eq!(d.task.status(), TaskStatus::Running);
    assert_eq!(d.slice, Some(BASE_SLICE));
    assert_eq!(d.ticks, 0);
    // an interrupt served on its behalf puts it first in line again
    s.on_external(d.task);
    let t = s.get_task_from_queue().unwrap();
    assert_eq!(t.tid, io_tid);
    let d = Scheduler::prepare(t);
    assert_eq!(d.slice, None);
    s.add_task_to_queue(d.task);
    // the round-robin cursor moved to the compute level
    assert_eq!(s.get_task_from_queue().unwrap().tid, cpu_tid);
    assert_eq!(s.get_task_from_queue().unwrap().tid, io2_tid);
    assert_eq!(s.get_task_from_queue().unwrap().tid, io_tid);
    assert!(s.get_task_from_queue().is_none());
}

#[test]
fn timer_trap_without_progress_demotes() {
    let mut s = Scheduler::new();
    let (tid, _) = spawn_one(&mut s, true);
    let d = Scheduler::prepare(s.get_task_from_queue().unwrap());
    let ticks = d.ticks;
    let mut task = d.task;
    let _ = task.executor.next_ready();
    s.on_timer(task, ticks, 0);
    let t = s.get_task_from_queue().unwrap();
    assert_eq!(t.tid, tid);
    assert!(!t.io);
    assert_eq!(t.status(), TaskStatus::Blocking);
    let d = Scheduler::prepare(t);
    assert_eq!(d.slice, Some(2 * BASE_SLICE));
}

#[test]
fn timer_trap_with_progress_promotes() {
    let mut s = Scheduler::new();
    let c0 = s.new_coroutine_id().unwrap();
    let tid = s.spawn(c0, false);
    let d = Scheduler::prepare(s.get_task_from_queue().unwrap());
    let ticks = d.ticks;
    let mut task = d.task;
    let id = task.executor.next_ready().unwrap();
    task.executor.record_poll(id, PollResult::Pending);
    s.on_timer(task, ticks, 0);
    let t = s.get_task_from_queue().unwrap();
    assert_eq!(t.tid, tid);
    assert!(t.io);
}

#[test]
fn timer_trap_steals_from_stuck_io_task() {
    let mut s = Scheduler::new();
    let (tid, _) = spawn_one(&mut s, true);
    let mut task = s.get_task_from_queue().unwrap();
    for _ in 0..3 {
        let id = s.new_coroutine_id().unwrap();
        task.append(id);
    }
    let d = Scheduler::prepare(task);
    let ticks = d.ticks;
    let mut task = d.task;
    let _ = task.executor.next_ready();
    s.on_timer(task, ticks, 0);
    assert_eq!(s.next_tid(), tid + 2);
    // the stuck task is queued at the compute level, where the cursor now
    // points, and the stolen one at the I/O level
    let first = s.get_task_from_queue().unwrap();
    assert_eq!(first.tid, tid);
    assert!(!first.io);
    assert_eq!(first.queue_len(), 1);
    let second = s.get_task_from_queue().unwrap();
    assert_eq!(second.tid, tid + 1);
    assert!(second.io);
    assert_eq!(second.queue_len(), 3);
    assert_eq!(second.tcb.status, TaskStatus::Blocking);
}

#[test]
fn two_sleepers_and_one_sweep() {
    let mut s = Scheduler::new();
    let (a, _) = spawn_one(&mut s, true);
    let (b, _) = spawn_one(&mut s, true);
    let now = 1000;
    let ta = s.get_task_from_queue().unwrap();
    let tb = s.get_task_from_queue().unwrap();
    assert!(s.handle_syscall(ta, Syscall::Sleep(50), now).is_none());
    assert!(s.handle_syscall(tb, Syscall::Sleep(100), now).is_none());
    assert_eq!(s.timer_len(), 2);
    assert!(s.get_task_from_queue().is_none());
    let _ = s.check_timer(now + 60);
    assert_eq!(s.timer_len(), 1);
    let woken = s.get_task_from_queue().unwrap();
    assert_eq!(woken.tid, a);
    assert_eq!(woken.status(), TaskStatus::Blocking);
    assert!(s.get_task_from_queue().is_none());
    let _ = s.check_timer(now + 100);
    assert_eq!(s.get_task_from_queue().unwrap().tid, b);
}

#[test]
fn sleeper_wakes_no_earlier_than_its_deadline() {
    let mut s = Scheduler::new();
    let (a, _) = spawn_one(&mut s, false);
    let t = s.get_task_from_queue().unwrap();
    assert!(s.handle_syscall(t, Syscall::Sleep(30), 500).is_none());
    let _ = s.check_timer(529);
    assert!(s.get_task_from_queue().is_none());
    let _ = s.check_timer(530);
    assert_eq!(s.get_task_from_queue().unwrap().tid, a);
}

#[test]
fn get_tid_answers_in_result_register() {
    let mut s = Scheduler::new();
    spawn_one(&mut s, true);
    let (tid, _) = spawn_one(&mut s, false);
    let t = s.get_task_by_tid(tid).unwrap();
    let d = Scheduler::prepare(t);
    s.on_syscall(d.task, Syscall::GetTid, 0);
    let t = s.get_task_from_queue().unwrap();
    assert_eq!(t.tid, tid);
    assert_eq!(t.tcb.ctx.a(0), tid);
}

#[test]
fn yield_requeues_at_level_with_zero_result() {
    let mut s = Scheduler::new();
    let (tid, _) = spawn_one(&mut s, true);
    let d = Scheduler::prepare(s.get_task_from_queue().unwrap());
    let mut task = d.task;
    *task.tcb.ctx.a_mut(0) = 77;
    s.on_syscall(task, Syscall::Yield, 0);
    let t = s.get_task_from_queue().unwrap();
    assert_eq!(t.tid, tid);
    assert_eq!(t.status(), TaskStatus::Blocking);
    assert_eq!(t.tcb.ctx.a(0), 0);
}

#[test]
fn exit_drops_the_task() {
    let mut s = Scheduler::new();
    spawn_one(&mut s, true);
    let t = s.get_task_from_queue().unwrap();
    assert!(s.handle_syscall(t, Syscall::Exit, 0).is_none());
    assert!(s.get_task_from_queue().is_none());
    assert_eq!(s.timer_len(), 0);
}

#[test]
fn append_from_compute_task_goes_to_io_task() {
    let mut s = Scheduler::new();
    let (io_tid, _) = spawn_one(&mut s, true);
    assert_eq!(io_tid, IO_TASK_TID);
    let (cpu_tid, _) = spawn_one(&mut s, false);
    let caller = s.get_task_by_tid(cpu_tid).unwrap();
    let id = s.new_coroutine_id().unwrap();
    let (caller, ret) = s.handle_append_task(caller, id);
    assert_eq!(ret, IO_TASK_TID);
    assert_ne!(ret, cpu_tid);
    assert_eq!(caller.queue_len(), 1);
    let io_task = s.get_task_by_tid(IO_TASK_TID).unwrap();
    assert_eq!(io_task.queue_len(), 2);
    assert!(io_task.executor.contains(id));
}

#[test]
fn append_from_io_task_stays_with_caller() {
    let mut s = Scheduler::new();
    spawn_one(&mut s, true);
    let (other, _) = spawn_one(&mut s, true);
    let caller = s.get_task_by_tid(other).unwrap();
    let id = s.new_coroutine_id().unwrap();
    let (caller, ret) = s.handle_append_task(caller, id);
    assert_eq!(ret, other);
    assert_eq!(caller.queue_len(), 2);
    // the same id again is refused
    let (caller, ret) = s.handle_append_task(caller, id);
    assert_eq!(ret, usize::MAX);
    assert_eq!(caller.queue_len(), 2);
}

#[test]
fn append_syscall_writes_receiver_id() {
    let mut s = Scheduler::new();
    spawn_one(&mut s, true);
    let (cpu_tid, _) = spawn_one(&mut s, false);
    let caller = s.get_task_by_tid(cpu_tid).unwrap();
    let id = s.new_coroutine_id().unwrap();
    let t = s
        .handle_syscall(caller, Syscall::AppendTask(id.0 as usize), 0)
        .unwrap();
    assert_eq!(t.tcb.ctx.a(0), IO_TASK_TID);
}

#[test]
fn mlfq_get_task_by_tid_keeps_order() {
    let mut m = Mlfq::new();
    for tid in 0..4 {
        m.add_task_to_queue(Task::new(tid, TaskControlBlock::empty(), Executor::new(), true));
    }
    assert_eq!(m.get_task_by_tid(2).unwrap().tid, 2);
    assert!(m.get_task_by_tid(2).is_none());
    assert_eq!(m.next_task().unwrap().tid, 0);
    assert_eq!(m.next_task().unwrap().tid, 1);
    assert_eq!(m.next_task().unwrap().tid, 3);
    assert!(m.next_task().is_none());
}

#[test]
fn transient_slot_pushes_previous_to_its_level() {
    let mut m = Mlfq::new();
    m.add_task_transient(Task::new(1, TaskControlBlock::empty(), Executor::new(), false));
    m.add_task_transient(Task::new(2, TaskControlBlock::empty(), Executor::new(), true));
    assert_eq!(m.next_task().unwrap().tid, 2);
    assert_eq!(m.next_task().unwrap().tid, 1);
    assert!(m.next_task().is_none());
}

/// One I/O task with a hundred short coroutines and one task stuck in a loop.
#[test]
fn io_coroutines_finish_while_busy_task_is_demoted() {
    let mut s = Scheduler::new();
    let (io_tid, first) = spawn_one(&mut s, true);
    let mut io_task = s.get_task_by_tid(io_tid).unwrap();
    let _ = first;
    for _ in 0..99 {
        let id = s.new_coroutine_id().unwrap();
        io_task.append(id);
    }
    assert_eq!(io_task.queue_len(), 100);
    s.add_task_to_queue(io_task);
    let (busy_tid, _) = spawn_one(&mut s, true);

    let mut now: u64 = 0;
    let mut busy_demoted = false;
    let mut busy_runs_before_done = 0;
    let mut io_done = false;
    let mut busy_started = false;
    for _ in 0..200 {
        let task = match s.get_task_from_queue() {
            Some(t) => t,
            None => break,
        };
        let d = Scheduler::prepare(task);
        let ticks = d.ticks;
        let mut task = d.task;
        if task.tid == busy_tid {
            // one slice at most: it never completes a poll
            if let Some(slice) = d.slice {
                assert!(slice <= 2 * get_slice(true));
            }
            if !busy_started {
                let _ = task.executor.next_ready();
                busy_started = true;
            }
            if !io_done {
                busy_runs_before_done += 1;
            }
            now += 25;
            s.on_timer(task, ticks, now);
        } else {
            for _ in 0..10 {
                match task.executor.next_ready() {
                    Some(id) => task.executor.record_poll(id, PollResult::Ready),
                    None => break,
                }
            }
            now += 12;
            if task.queue_len() == 0 {
                io_done = true;
                assert!(s.handle_syscall(task, Syscall::Exit, now).is_none());
            } else {
                s.on_timer(task, ticks, now);
            }
        }
        if let Some(t) = s.get_task_by_tid(busy_tid) {
            if !t.io {
                busy_demoted = true;
            }
            s.add_task_to_queue(t);
        }
        if io_done && busy_demoted {
            break;
        }
    }
    assert!(io_done);
    assert!(busy_demoted);
    assert!(busy_runs_before_done <= 10);
}

#[test]
fn append_reaches_io_task_in_transient_slot() {
    let mut s = Scheduler::new();
    spawn_one(&mut s, true);
    let (cpu_tid, _) = spawn_one(&mut s, false);
    let io_task = s.get_task_by_tid(IO_TASK_TID).unwrap();
    s.on_external(io_task);
    let caller = s.get_task_by_tid(cpu_tid).unwrap();
    let id = s.new_coroutine_id().unwrap();
    let (caller, ret) = s.handle_append_task(caller, id);
    assert_eq!(ret, IO_TASK_TID);
    assert_eq!(caller.queue_len(), 1);
    let io_task = s.get_task_from_queue().unwrap();
    assert_eq!(io_task.tid, IO_TASK_TID);
    assert!(io_task.executor.contains(id));
}

#[test]
fn append_reaches_sleeping_io_task() {
    let mut s = Scheduler::new();
    spawn_one(&mut s, true);
    let (cpu_tid, _) = spawn_one(&mut s, false);
    let io_task = s.get_task_by_tid(IO_TASK_TID).unwrap();
    assert!(s.handle_syscall(io_task, Syscall::Sleep(100), 0).is_none());
    let caller = s.get_task_by_tid(cpu_tid).unwrap();
    let id = s.new_coroutine_id().unwrap();
    let (caller, ret) = s.handle_append_task(caller, id);
    assert_eq!(ret, IO_TASK_TID);
    assert_eq!(caller.queue_len(), 1);
    assert_eq!(s.timer_len(), 1);
    let _ = s.check_timer(100);
    let io_task = s.get_task_from_queue().unwrap();
    assert_eq!(io_task.tid, IO_TASK_TID);
    assert_eq!(io_task.queue_len(), 2);
    assert!(io_task.executor.contains(id));
}

#[test]
fn append_without_io_task_fails() {
    let mut s = Scheduler::new();
    spawn_one(&mut s, true);
    let (cpu_tid, _) = spawn_one(&mut s, false);
    let io_task = s.get_task_by_tid(IO_TASK_TID).unwrap();
    assert!(s.handle_syscall(io_task, Syscall::Exit, 0).is_none());
    let caller = s.get_task_by_tid(cpu_tid).unwrap();
    let id = s.new_coroutine_id().unwrap();
    let (caller, ret) = s.handle_append_task(caller, id);
    assert_eq!(ret, usize::MAX);
    assert_ne!(ret, cpu_tid);
    assert_eq!(caller.queue_len(), 1);
}

#[test]
fn sleep_and_exit_through_on_syscall() {
    let mut s = Scheduler::new();
    let (a, _) = spawn_one(&mut s, true);
    let (b, _) = spawn_one(&mut s, true);
    let ta = s.get_task_by_tid(a).unwrap();
    s.on_syscall(ta, Syscall::Sleep(10), 0);
    assert_eq!(s.timer_len(), 1);
    let tb = s.get_task_by_tid(b).unwrap();
    s.on_syscall(tb, Syscall::Exit, 0);
    assert!(s.get_task_from_queue().is_none());
    let _ = s.check_timer(10);
    assert_eq!(s.get_task_from_queue().unwrap().tid, a);
}
