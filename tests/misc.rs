use kernel_sched::bitmap::Bitmap;
use kernel_sched::context::{build_sstatus, LocalContext};
use kernel_sched::executor::PollResult;
use kernel_sched::plic::{plic_claim, plic_init, route_irq, IrqRoute, E1000_IRQ, PLIC_SCLAIM, PLIC_SENABLE};
use kernel_sched::syscall::{sys_append_task, sys_exit, sys_get_tid, sys_sleep, sys_yield, Syscall};
use kernel_sched::thread::{TaskControlBlock, TaskStatus, STACK_SIZE};
use kernel_sched::trap::{cpuid, intr_off, intr_on, pop_on, push_off, TrapCause};
use kernel_sched::wait::{SleepFuture, Timeout, TimeoutPoll, Yield, IRQ, IRQ_EVENT};

#[test]
fn syscalls_round_trip_through_registers() {
    for c in [sys_sleep(50), sys_get_tid(), sys_append_task(9), sys_yield(), sys_exit()] {
        let (id, arg) = c.encode();
        assert_eq!(Syscall::decode(id, arg), Some(c));
    }
    assert_eq!(sys_sleep(50).encode(), (101, 50));
    assert_eq!(Syscall::decode(999, 0), None);
}

#[test]
fn context_registers() {
    let mut c = LocalContext::thread(0x8000_0000, true);
    assert_eq!(c.pc(), 0x8000_0000);
    *c.sp_mut() = 0x1000;
    *c.a_mut(0) = 42;
    *c.x_mut(1) = 7;
    assert_eq!(c.sp(), 0x1000);
    assert_eq!(c.x(2), 0x1000);
    assert_eq!(c.a(0), 42);
    assert_eq!(c.x(10), 42);
    assert_eq!(c.ra(), 7);
    *c.a_mut(21) = 5;
    assert_eq!(c.a(21), 5);
    assert_eq!(c.x(31), 5);
    c.move_next();
    assert_eq!(c.pc(), 0x8000_0004);
    *c.pc_mut() = usize::MAX - 1;
    c.move_next();
    assert_eq!(c.pc(), 2);
    assert!(c.supervisor && c.interrupt);
    let u = LocalContext::user(0x10);
    assert!(!u.supervisor && u.interrupt);
    let e = LocalContext::empty();
    assert_eq!(e.pc(), 0);
    assert_eq!(e.x(31), 0);
}

#[test]
fn sstatus_bits() {
    assert_eq!(build_sstatus(0, true, true), 0x120);
    assert_eq!(build_sstatus(0xffff, false, false), 0xffff & !0x120);
    assert_eq!(build_sstatus(0x20, true, false), 0x100);
    assert_eq!(intr_on(0), 2);
    assert_eq!(intr_off(3), 1);
    assert_eq!(push_off(7), (5, 7));
    assert_eq!(pop_on(7), 7);
    assert_eq!(cpuid(), 0);
}

#[test]
fn trap_causes() {
    assert_eq!(TrapCause::from_scause(true, 5), TrapCause::Timer);
    assert_eq!(TrapCause::from_scause(true, 9), TrapCause::External);
    assert_eq!(TrapCause::from_scause(false, 8), TrapCause::Syscall);
    assert_eq!(TrapCause::from_scause(false, 5), TrapCause::Other(5));
}

#[test]
fn tcb_init_sets_stack_and_argument() {
    let mut t = TaskControlBlock::empty();
    assert_eq!(t.status, TaskStatus::UnInit);
    t.init_with_arg(0x8020_0000, 99, 0x9000_0000);
    assert_eq!(t.status, TaskStatus::Ready);
    assert_eq!(t.ctx.sp(), 0x9000_0000 + STACK_SIZE);
    assert_eq!(t.ctx.a(0), 99);
    assert_eq!(t.ctx.pc(), 0x8020_0000);
    t.move_next();
    assert_eq!(t.ctx.pc(), 0x8020_0004);
}

#[test]
fn plic_registers_and_routing() {
    assert_eq!(plic_init(), vec![(0x0c00_0028, 1), (0x0c00_0004, 1)]);
    assert_eq!(PLIC_SENABLE(0), 0x0c00_2080);
    assert_eq!(PLIC_SCLAIM(1), 0x0c20_1004 + 0x2000);
    assert_eq!(plic_claim(0), None);
    assert_eq!(plic_claim(33), Some(33));
    assert_eq!(route_irq(E1000_IRQ), IrqRoute::NetDevice);
    assert_eq!(route_irq(10), IrqRoute::Ignore);
}

#[test]
fn bitmap_set_get_push() {
    let mut b = Bitmap::with_size(10);
    assert_eq!(b.size(), 10);
    assert!(!(0..10).any(|i| b.get(i)));
    b.set(3, true);
    b.set(9, true);
    assert!(b.get(3) && b.get(9) && !b.get(4));
    b.set(3, false);
    assert!(!b.get(3));
    let mut e = Bitmap::new();
    for i in 0..17 {
        e.push(i % 3 == 0);
    }
    assert_eq!(e.size(), 17);
    assert!((0..17).all(|i| e.get(i) == (i % 3 == 0)));
}

#[test]
fn waits() {
    let mut y = Yield::new();
    assert_eq!(y.poll(), PollResult::Pending);
    assert_eq!(y.poll(), PollResult::Ready);
    let s = SleepFuture::new(100, 50);
    assert_eq!(s.poll(149), PollResult::Pending);
    assert_eq!(s.poll(150), PollResult::Ready);
    let t = Timeout::new(0, 10);
    assert_eq!(t.poll(PollResult::Pending, 5), TimeoutPoll::Pending);
    assert_eq!(t.poll(PollResult::Pending, 10), TimeoutPoll::TimedOut);
    assert_eq!(t.poll(PollResult::Ready, 10), TimeoutPoll::Completed);
    let mut ev = IRQ_EVENT::new(IRQ::E1000_IRQ);
    assert_eq!(ev.irq(), IRQ::E1000_IRQ);
    assert_eq!(ev.poll(), PollResult::Pending);
    assert_eq!(ev.poll(), PollResult::Ready);
    assert_eq!(SleepFuture::new(u64::MAX, 5).poll(u64::MAX), PollResult::Ready);
}
