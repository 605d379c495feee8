//! The platform-level interrupt controller: where its registers are and what the kernel
//! writes to them.
use vstd::prelude::*;

verus! {

/// The IRQ number of UART0.
pub const UART0_IRQ: u32 = 10;

/// A write of a 32-bit value to the device register at `addr`.
#[derive(Clone, Copy, Debug, PartialEq, Eq, Structural)]
pub struct RegWrite32 {
    pub addr: usize,
    pub value: u32,
}

/// A PLIC whose registers start at `base_addr`.
#[derive(Clone, Copy, Debug, PartialEq, Eq, Structural)]
pub struct PLIC {
    pub base_addr: usize,
}

/// The register block, up to the last CPU's claim register, fits in the address space.
pub open spec fn plic_fits(base_addr: usize, cpu_id: usize) -> bool {
    base_addr + 0x201004 + cpu_id * 0x2000 + 4 <= usize::MAX
}

impl PLIC {
    pub fn new(base_addr: usize) -> (r: Self)
        ensures
            r.base_addr == base_addr,
    {
        Self { base_addr }
    }

    /// Sets the priority of interrupt `irq`; 0 means the interrupt is never taken.
    pub fn set_priority(&self, irq: u32, priority: u32) -> (r: RegWrite32)
        requires
            self.base_addr + irq * 4 <= usize::MAX,
        ensures
            r == (RegWrite32 { addr: (self.base_addr + irq * 4) as usize, value: priority }),
    {
        RegWrite32 { addr: self.base_addr + irq as usize * 4, value: priority }
    }

    /// Sets which interrupts CPU `cpu_id` takes in supervisor mode.
    pub fn set_supervisor_enable(&self, cpu_id: usize, bits: u32) -> (r: RegWrite32)
        requires
            plic_fits(self.base_addr, cpu_id),
        ensures
            r == (RegWrite32 { addr: (self.base_addr + 0x2080 + cpu_id * 0x100) as usize, value: bits }),
    {
        RegWrite32 { addr: self.base_addr + 0x2080 + cpu_id * 0x100, value: bits }
    }

    /// Sets the priority threshold of CPU `cpu_id` in supervisor mode.
    pub fn set_supervisor_threshold(&self, cpu_id: usize, threshold: u32) -> (r: RegWrite32)
        requires
            plic_fits(self.base_addr, cpu_id),
        ensures
            r == (RegWrite32 { addr: (self.base_addr + 0x201000 + cpu_id * 0x2000) as usize, value: threshold }),
    {
        RegWrite32 { addr: self.base_addr + 0x201000 + cpu_id * 0x2000, value: threshold }
    }

    /// The claim register of CPU `cpu_id`: reading it gives the interrupt being taken.
    pub fn claim_addr(&self, cpu_id: usize) -> (r: usize)
        requires
            plic_fits(self.base_addr, cpu_id),
        ensures
            r == self.base_addr + 0x201004 + cpu_id * 0x2000,
    {
        self.base_addr + 0x201004 + cpu_id * 0x2000
    }

    /// Tells the PLIC that CPU `cpu_id` has handled interrupt `irq`.
    pub fn complete_interrupt(&self, cpu_id: usize, irq: u32) -> (r: RegWrite32)
        requires
            plic_fits(self.base_addr, cpu_id),
        ensures
            r == (RegWrite32 { addr: (self.base_addr + 0x201004 + cpu_id * 0x2000) as usize, value: irq }),
    {
        RegWrite32 { addr: self.claim_addr(cpu_id), value: irq }
    }
}

/// The write that sets up the PLIC: UART0's interrupt gets priority 1.
pub fn init_plic(plic: &PLIC) -> (r: RegWrite32)
    requires
        plic.base_addr + 40 <= usize::MAX,
    ensures
        r == (RegWrite32 { addr: (plic.base_addr + 40) as usize, value: 1 }),
{
    plic.set_priority(UART0_IRQ, 1)
}

/// The writes that let CPU `cpu_id` take UART0's interrupt: enable it, threshold 0.
pub fn enable_plic(plic: &PLIC, cpu_id: usize) -> (r: (RegWrite32, RegWrite32))
    requires
        plic_fits(plic.base_addr, cpu_id),
    ensures
        r.0 == (RegWrite32 { addr: (plic.base_addr + 0x2080 + cpu_id * 0x100) as usize, value: 1024 }),
        r.1 == (RegWrite32 { addr: (plic.base_addr + 0x201000 + cpu_id * 0x2000) as usize, value: 0 }),
{
    assert((1u32 << 10u32) == 1024) by (bit_vector);
    (plic.set_supervisor_enable(cpu_id, 1 << UART0_IRQ), plic.set_supervisor_threshold(cpu_id, 0))
}

/// What to do with the interrupt number claimed from the PLIC.
#[derive(Clone, Copy, Debug, PartialEq, Eq, Structural)]
pub enum PlicAction {
    /// Another CPU took the interrupt: nothing to do.
    Nothing,
    /// Handle UART0, then complete the interrupt.
    Uart,
    /// An interrupt nobody handles.
    Unknown(u32),
}

/// Decides what the claimed interrupt `irq` calls for.
pub fn plic_dispatch(irq: u32) -> (r: PlicAction)
    ensures
        irq == 0 ==> r == PlicAction::Nothing,
        irq == UART0_IRQ ==> r == PlicAction::Uart,
        irq != 0 && irq != UART0_IRQ ==> r == PlicAction::Unknown(irq),
{
    if irq == 0 {
        PlicAction::Nothing
    } else if irq == UART0_IRQ {
        PlicAction::Uart
    } else {
        PlicAction::Unknown(irq)
    }
}

} // verus!
