//! The platform interrupt controller: register addresses, claims and the
//! routing of interrupt lines.
use vstd::prelude::*;

verus! {

/// Base address of the platform-level interrupt controller.
pub const PLIC_BASE: usize = 0x0c00_0000;

/// Interrupt line of the UART.
pub const UART0_IRQ: u32 = 10;

/// Interrupt line of the first virtio device.
pub const VIRTIO0_IRQ: u32 = 1;

/// Interrupt line of the network card.
pub const E1000_IRQ: u32 = 33;

/// The largest hart id the address computations accept.
pub const MAX_HART: usize = 15;

pub fn PLIC_MENABLE(hart_id: usize) -> (r: usize)
    requires
        hart_id <= MAX_HART,
    ensures
        r == PLIC_BASE + 0x2000 + hart_id * 0x100,
{
    PLIC_BASE + 0x2000 + hart_id * 0x100
}

pub fn PLIC_SENABLE(hart_id: usize) -> (r: usize)
    requires
        hart_id <= MAX_HART,
    ensures
        r == PLIC_BASE + 0x2080 + hart_id * 0x100,
{
    PLIC_BASE + 0x2080 + hart_id * 0x100
}

pub fn PLIC_MPRIORITY(hart_id: usize) -> (r: usize)
    requires
        hart_id <= MAX_HART,
    ensures
        r == PLIC_BASE + 0x200000 + hart_id * 0x2000,
{
    PLIC_BASE + 0x200000 + hart_id * 0x2000
}

pub fn PLIC_SPRIORITY(hart_id: usize) -> (r: usize)
    requires
        hart_id <= MAX_HART,
    ensures
        r == PLIC_BASE + 0x201000 + hart_id * 0x2000,
{
    PLIC_BASE + 0x201000 + hart_id * 0x2000
}

pub fn PLIC_MCLAIM(hart_id: usize) -> (r: usize)
    requires
        hart_id <= MAX_HART,
    ensures
        r == PLIC_BASE + 0x200004 + hart_id * 0x2000,
{
    PLIC_BASE + 0x200004 + hart_id * 0x2000
}

pub fn PLIC_SCLAIM(hart_id: usize) -> (r: usize)
    requires
        hart_id <= MAX_HART,
    ensures
        r == PLIC_BASE + 0x201004 + hart_id * 0x2000,
{
    PLIC_BASE + 0x201004 + hart_id * 0x2000
}

/// The register writes that give the UART and virtio lines a non-zero
/// priority, as (address, value) pairs: the priority register of line `n`
/// is at `PLIC_BASE + 4 * n`.
pub fn plic_init() -> (r: Vec<(usize, u32)>)
    ensures
        r@ == seq![(0x0c00_0028usize, 1u32), (0x0c00_0004usize, 1u32)],
{
    let mut r: Vec<(usize, u32)> = Vec::new();
    r.push((PLIC_BASE + (UART0_IRQ * 4) as usize, 1));
    r.push((PLIC_BASE + (VIRTIO0_IRQ * 4) as usize, 1));
    proof {
        assert(r@ =~= seq![(0x0c00_0028usize, 1u32), (0x0c00_0004usize, 1u32)]);
    }
    r
}

/// The interrupt named by a value read from the claim register: zero means
/// none is pending.
pub fn plic_claim(raw: u32) -> (r: Option<u32>)
    ensures
        raw == 0 ==> r is None,
        raw != 0 ==> r == Some(raw),
{
    if raw == 0 {
        None
    } else {
        Some(raw)
    }
}

/// Which driver serves an interrupt line.
#[derive(PartialEq, Eq, Structural, Clone, Copy, Debug)]
pub enum IrqRoute {
    /// The network card: acknowledge it and wake its waiter.
    NetDevice,
    /// No driver: complete the claim and do nothing else.
    Ignore,
}

/// The driver for interrupt line `irq`.
pub fn route_irq(irq: u32) -> (r: IrqRoute)
    ensures
        r == (if irq == E1000_IRQ {
            IrqRoute::NetDevice
        } else {
            IrqRoute::Ignore
        }),
{
    if irq == E1000_IRQ {
        IrqRoute::NetDevice
    } else {
        IrqRoute::Ignore
    }
}

} // verus!
