//! Task control blocks: a thread's context, its stack and its lifecycle.
use crate::context::LocalContext;
use vstd::prelude::*;

verus! {

/// Size in bytes of each kernel thread's stack.
pub const STACK_SIZE: usize = 0x8000;

/// Lifecycle of a thread.
#[derive(PartialEq, Eq, Structural, Clone, Copy, Debug)]
pub enum TaskStatus {
    UnInit,
    Ready,
    Running,
    Blocking,
    Finish,
}

/// A thread: saved context, stack base (`0` while none is allocated),
/// exit code and status.
pub struct TaskControlBlock {
    pub ctx: LocalContext,
    pub stack: usize,
    pub exit_code: Option<i32>,
    pub status: TaskStatus,
}

impl TaskControlBlock {
    /// A block with no stack and an empty context, not yet initialised.
    pub fn empty() -> (t: Self)
        ensures
            t.stack == 0,
            t.exit_code.is_none(),
            t.status == TaskStatus::UnInit,
            t.ctx.spec_pc() == 0,
    {
        TaskControlBlock {
            ctx: LocalContext::empty(),
            stack: 0,
            exit_code: None,
            status: TaskStatus::UnInit,
        }
    }

    /// Make the thread start at `entry` on the stack whose lowest address is
    /// `stack`: the stack pointer is set to the top of that stack.
    pub fn init(&mut self, entry: usize, stack: usize)
        requires
            stack + STACK_SIZE <= usize::MAX,
        ensures
            final(self).ctx.spec_pc() == entry,
            final(self).ctx.is_supervisor(),
            final(self).ctx.interrupts_on(),
            final(self).ctx.reg(2) == stack + STACK_SIZE,
            forall|n: int| 1 <= n <= 31 && n != 2 ==> #[trigger] final(self).ctx.reg(n) == 0,
            final(self).stack == stack,
            final(self).status == TaskStatus::Ready,
            final(self).exit_code == old(self).exit_code,
    {
        self.ctx = LocalContext::thread(entry, true);
        self.stack = stack;
        *self.ctx.sp_mut() = stack + STACK_SIZE;
        self.status = TaskStatus::Ready;
    }

    /// As [`Self::init`], with `arg` in the first argument register.
    pub fn init_with_arg(&mut self, entry: usize, arg: usize, stack: usize)
        requires
            stack + STACK_SIZE <= usize::MAX,
        ensures
            final(self).ctx.spec_pc() == entry,
            final(self).ctx.is_supervisor(),
            final(self).ctx.interrupts_on(),
            final(self).ctx.reg(2) == stack + STACK_SIZE,
            final(self).ctx.reg(10) == arg,
            forall|n: int| 1 <= n <= 31 && n != 2 && n != 10 ==> #[trigger] final(self).ctx.reg(n) == 0,
            final(self).stack == stack,
            final(self).status == TaskStatus::Ready,
            final(self).exit_code == old(self).exit_code,
    {
        self.init(entry, stack);
        *self.ctx.a_mut(0) = arg;
    }

    /// Step the thread's program counter over the instruction that trapped.
    pub fn move_next(&mut self)
        ensures
            final(self).ctx.spec_pc() == (if old(self).ctx.spec_pc() + 4 <= usize::MAX {
                old(self).ctx.spec_pc() + 4
            } else {
                old(self).ctx.spec_pc() + 4 - usize::MAX - 1
            }),
            final(self).ctx.same_regs_but(&old(self).ctx, 0),
            final(self).stack == old(self).stack,
            final(self).status == old(self).status,
            final(self).exit_code == old(self).exit_code,
    {
        self.ctx.move_next();
    }
}

} // verus!
