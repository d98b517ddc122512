//! The saved register state of a kernel thread.
use vstd::prelude::*;

verus! {

/// Number of saved general-purpose registers (`x1` to `x31`).
pub const NUM_SAVED_REGS: usize = 31;

/// `sstatus.SPP`: the trap returns to supervisor mode.
pub const PRIVILEGE_BIT: usize = 0x100;

/// `sstatus.SPIE`: interrupts are enabled after the trap returns.
pub const INTERRUPT_BIT: usize = 0x20;

/// Saved registers of a thread, its program counter and its mode flags.
pub struct LocalContext {
    sctx: usize,
    x: [usize; 31],
    sepc: usize,
    /// Whether the thread runs in supervisor mode.
    pub supervisor: bool,
    /// Whether interrupts are enabled in the thread.
    pub interrupt: bool,
}

impl LocalContext {
    /// Register `x{n}` as saved, for `1 <= n <= 31`.
    pub closed spec fn reg(&self, n: int) -> usize {
        self.x@[n - 1]
    }

    pub closed spec fn spec_pc(&self) -> usize {
        self.sepc
    }

    pub closed spec fn spec_scratch(&self) -> usize {
        self.sctx
    }

    pub closed spec fn is_supervisor(&self) -> bool {
        self.supervisor
    }

    pub closed spec fn interrupts_on(&self) -> bool {
        self.interrupt
    }

    /// All registers of `self` but `x{n}` and the program counter, and both
    /// mode flags, equal those of `o`.
    pub open spec fn same_regs_but(&self, o: &LocalContext, n: int) -> bool {
        &&& forall|m: int| 1 <= m <= 31 && m != n ==> #[trigger] self.reg(m) == o.reg(m)
        &&& self.spec_scratch() == o.spec_scratch()
        &&& self.is_supervisor() == o.is_supervisor()
        &&& self.interrupts_on() == o.interrupts_on()
    }

    /// All of `self` but register `x{n}` equals `o`.
    pub open spec fn same_but(&self, o: &LocalContext, n: int) -> bool {
        &&& self.same_regs_but(o, n)
        &&& self.spec_pc() == o.spec_pc()
    }

    /// A context with every register zero, user mode and interrupts off.
    pub fn empty() -> (c: Self)
        ensures
            forall|n: int| 1 <= n <= 31 ==> #[trigger] c.reg(n) == 0,
            c.spec_pc() == 0,
            c.spec_scratch() == 0,
            !c.is_supervisor(),
            !c.interrupts_on(),
    {
        Self { sctx: 0, x: [0; 31], supervisor: false, interrupt: false, sepc: 0 }
    }

    /// A user-mode context that starts at `pc` with interrupts on.
    pub fn user(pc: usize) -> (c: Self)
        ensures
            forall|n: int| 1 <= n <= 31 ==> #[trigger] c.reg(n) == 0,
            c.spec_pc() == pc,
            c.spec_scratch() == 0,
            !c.is_supervisor(),
            c.interrupts_on(),
    {
        Self { sctx: 0, x: [0; 31], supervisor: false, interrupt: true, sepc: pc }
    }

    /// A supervisor-mode context that starts at `pc`.
    pub fn thread(pc: usize, interrupt: bool) -> (c: Self)
        ensures
            forall|n: int| 1 <= n <= 31 ==> #[trigger] c.reg(n) == 0,
            c.spec_pc() == pc,
            c.spec_scratch() == 0,
            c.is_supervisor(),
            c.interrupts_on() == interrupt,
    {
        Self { sctx: 0, x: [0; 31], supervisor: true, interrupt, sepc: pc }
    }

    /// Read register `x{n}`.
    pub fn x(&self, n: usize) -> (r: usize)
        requires
            1 <= n <= 31,
        ensures
            r == self.reg(n as int),
    {
        self.x[n - 1]
    }

    /// Write access to register `x{n}`.
    pub fn x_mut(&mut self, n: usize) -> (r: &mut usize)
        requires
            1 <= n <= 31,
        ensures
            *r == old(self).reg(n as int),
            final(self).reg(n as int) == *final(r),
            final(self).same_but(old(self), n as int),
    {
        &mut self.x[n - 1]
    }

    /// Read register `x{n + 10}`: the argument registers `a0` to `a7` for
    /// `n <= 7`, and the registers after them up to `x31`.
    pub fn a(&self, n: usize) -> (r: usize)
        requires
            n <= 21,
        ensures
            r == self.reg(n + 10),
    {
        self.x(n + 10)
    }

    /// Write access to register `x{n + 10}`.
    pub fn a_mut(&mut self, n: usize) -> (r: &mut usize)
        requires
            n <= 21,
        ensures
            *r == old(self).reg(n + 10),
            final(self).reg(n + 10) == *final(r),
            final(self).same_but(old(self), n + 10),
    {
        self.x_mut(n + 10)
    }

    /// The return address register.
    pub fn ra(&self) -> (r: usize)
        ensures
            r == self.reg(1),
    {
        self.x(1)
    }

    /// The stack pointer.
    pub fn sp(&self) -> (r: usize)
        ensures
            r == self.reg(2),
    {
        self.x(2)
    }

    /// Write access to the stack pointer.
    pub fn sp_mut(&mut self) -> (r: &mut usize)
        ensures
            *r == old(self).reg(2),
            final(self).reg(2) == *final(r),
            final(self).same_but(old(self), 2),
    {
        self.x_mut(2)
    }

    /// The saved program counter.
    pub fn pc(&self) -> (r: usize)
        ensures
            r == self.spec_pc(),
    {
        self.sepc
    }

    /// Write access to the saved program counter.
    pub fn pc_mut(&mut self) -> (r: &mut usize)
        ensures
            *r == old(self).spec_pc(),
            final(self).spec_pc() == *final(r),
            final(self).same_regs_but(old(self), 0),
    {
        &mut self.sepc
    }

    /// Step the program counter over one (uncompressed) instruction.
    pub fn move_next(&mut self)
        ensures
            final(self).spec_pc() == (if old(self).spec_pc() + 4 <= usize::MAX {
                old(self).spec_pc() + 4
            } else {
                old(self).spec_pc() + 4 - usize::MAX - 1
            }),
            final(self).same_regs_but(old(self), 0),
    {
        self.sepc = self.sepc.wrapping_add(4);
    }
}

/// The `sstatus` value to enter a context with: `sstatus` with the privilege
/// and interrupt-enable bits set from `supervisor` and `interrupt`.
pub fn build_sstatus(sstatus: usize, supervisor: bool, interrupt: bool) -> (r: usize)
    ensures
        r & PRIVILEGE_BIT == (if supervisor { PRIVILEGE_BIT } else { 0 }),
        r & INTERRUPT_BIT == (if interrupt { INTERRUPT_BIT } else { 0 }),
        r & !(PRIVILEGE_BIT | INTERRUPT_BIT) == sstatus & !(PRIVILEGE_BIT | INTERRUPT_BIT),
{
    let s1 = if supervisor {
        sstatus | PRIVILEGE_BIT
    } else {
        sstatus & !PRIVILEGE_BIT
    };
    let r = if interrupt {
        s1 | INTERRUPT_BIT
    } else {
        s1 & !INTERRUPT_BIT
    };
    proof {
        assert(!(0x100usize | 0x20usize) == !0x120usize) by (bit_vector);
        if supervisor {
            assert(s1 & 0x100 == 0x100 && s1 & !0x120usize == sstatus & !0x120usize) by (bit_vector)
                requires
                    s1 == sstatus | 0x100,
            ;
        } else {
            assert(s1 & 0x100 == 0 && s1 & !0x120usize == sstatus & !0x120usize) by (bit_vector)
                requires
                    s1 == sstatus & !0x100usize,
            ;
        }
        if interrupt {
            assert(r & 0x20 == 0x20 && r & 0x100 == s1 & 0x100 && r & !0x120usize == s1
                & !0x120usize) by (bit_vector)
                requires
                    r == s1 | 0x20,
            ;
        } else {
            assert(r & 0x20 == 0 && r & 0x100 == s1 & 0x100 && r & !0x120usize == s1 & !0x120usize)
                by (bit_vector)
                requires
                    r == s1 & !0x20usize,
            ;
        }
    }
    r
}

} // verus!
