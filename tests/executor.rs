use kernel_sched::executor::{AsyncTask, AsyncTaskId, Executor, PollResult, RunStep, TASKNUM};

fn exec_with(ids: &[u64]) -> Executor {
    let mut e = Executor::new();
    for &i in ids {
        e.spawn(AsyncTask::new(AsyncTaskId(i)));
    }
    e
}

#[test]
fn coroutine_ids_count_up() {
    let mut next: u64 = 5;
    assert_eq!(AsyncTaskId::new(&mut next), AsyncTaskId(5));
    assert_eq!(AsyncTaskId::new(&mut next), AsyncTaskId(6));
    assert_eq!(next, 7);
}

#[test]
fn ready_queue_is_fifo_and_skips_finished() {
    let mut e = exec_with(&[1, 2, 3]);
    assert_eq!(e.queue_len(), 3);
    assert_eq!(e.next_ready(), Some(AsyncTaskId(1)));
    e.record_poll(AsyncTaskId(1), PollResult::Ready);
    assert_eq!(e.queue_len(), 2);
    assert_eq!(e.ticks(), 1);
    // a stale wake for the finished coroutine is dropped at pop time
    e.wake(AsyncTaskId(1)).unwrap();
    assert_eq!(e.next_ready(), Some(AsyncTaskId(2)));
    e.record_poll(AsyncTaskId(2), PollResult::Pending);
    assert_eq!(e.queue_len(), 2);
    assert_eq!(e.next_ready(), Some(AsyncTaskId(3)));
    e.record_poll(AsyncTaskId(3), PollResult::Ready);
    assert_eq!(e.next_ready(), None);
    assert_eq!(e.ready_len(), 0);
    assert_eq!(e.ticks(), 3);
    assert!(e.contains(AsyncTaskId(2)));
    assert!(!e.contains(AsyncTaskId(3)));
}

#[test]
fn wake_on_full_queue_hands_id_back() {
    let mut e = Executor::new();
    for i in 0..TASKNUM as u64 {
        assert!(e.wake(AsyncTaskId(i)).is_ok());
    }
    assert!(e.is_queue_full());
    assert_eq!(e.wake(AsyncTaskId(999)), Err(AsyncTaskId(999)));
    assert_eq!(e.ready_len(), TASKNUM);
}

#[test]
fn steal_moves_queued_but_not_current() {
    let mut e = exec_with(&[1, 2, 3, 4]);
    assert_eq!(e.next_ready(), Some(AsyncTaskId(1)));
    // coroutine 1 is being polled; 2, 3, 4 wait
    let stolen = e.steal().expect("something to steal");
    assert!(e.contains(AsyncTaskId(1)));
    assert_eq!(e.queue_len(), 1);
    assert_eq!(e.ready_len(), 0);
    assert_eq!(stolen.queue_len(), 3);
    for i in 2..5 {
        assert!(stolen.contains(AsyncTaskId(i)));
        assert!(!e.contains(AsyncTaskId(i)));
    }
    assert_eq!(stolen.ticks(), 0);
    let mut stolen = stolen;
    assert_eq!(stolen.next_ready(), Some(AsyncTaskId(2)));
}

#[test]
fn steal_keeps_requeued_current_in_place() {
    let mut e = exec_with(&[1, 2, 3]);
    assert_eq!(e.next_ready(), Some(AsyncTaskId(1)));
    e.wake(AsyncTaskId(1)).unwrap();
    let stolen = e.steal().expect("something to steal");
    assert_eq!(e.ready_len(), 1);
    assert_eq!(e.next_ready(), Some(AsyncTaskId(1)));
    assert_eq!(stolen.queue_len(), 2);
    assert_eq!(stolen.ready_len(), 2);
}

#[test]
fn steal_refused_for_single_ready_or_io_current() {
    let mut e = exec_with(&[1, 2]);
    assert_eq!(e.next_ready(), Some(AsyncTaskId(1)));
    assert!(e.steal().is_none());
    let mut e = exec_with(&[1, 2, 3]);
    assert_eq!(e.next_ready(), Some(AsyncTaskId(1)));
    e.record_poll(AsyncTaskId(1), PollResult::Pending);
    assert!(e.steal().is_none());
    assert_eq!(e.queue_len(), 3);
    let mut e = Executor::new();
    assert!(e.steal().is_none());
}

#[test]
fn run_step_exits_once_empty() {
    let mut e = exec_with(&[1]);
    assert_eq!(e.run_step(), RunStep::Yield);
    assert_eq!(e.next_ready(), Some(AsyncTaskId(1)));
    e.record_poll(AsyncTaskId(1), PollResult::Ready);
    assert_eq!(e.run_step(), RunStep::Exit);
}
