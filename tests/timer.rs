use kernel_sched::executor::Executor;
use kernel_sched::task::Task;
use kernel_sched::thread::{TaskControlBlock, TaskStatus};
use kernel_sched::timer::{get_time_ms, get_time_us, Instant, TimerQueue};

fn task(tid: usize) -> Task {
    Task::new(tid, TaskControlBlock::empty(), Executor::new(), false)
}

#[test]
fn sweep_returns_due_entries_in_deadline_order() {
    let mut q = TimerQueue::new();
    for (tid, d) in [(0, 40u64), (1, 10), (2, 70), (3, 10), (4, 25)] {
        q.push(d, task(tid));
    }
    let r = q.sweep(40);
    let deadlines: Vec<u64> = r.iter().map(|e| e.deadline).collect();
    assert_eq!(deadlines, vec![10, 10, 25, 40]);
    assert!(r.iter().all(|e| e.task.status() == TaskStatus::Blocking));
    assert_eq!(q.len(), 1);
    // again at the same time: nothing more
    assert!(q.sweep(40).is_empty());
    assert_eq!(q.len(), 1);
    let r = q.sweep(70);
    assert_eq!(r.len(), 1);
    assert_eq!(r[0].task.tid, 2);
}

#[test]
fn sweep_of_empty_queue_is_empty() {
    let mut q = TimerQueue::new();
    assert!(q.sweep(u64::MAX).is_empty());
}

#[test]
fn clock_conversions() {
    assert_eq!(get_time_us(12_000_000), 1_000_000);
    assert_eq!(get_time_ms(12_500_000), 1_000);
    assert_eq!(get_time_ms(12_499), 0);
    assert_eq!(Instant::now(120), Instant(10));
}
