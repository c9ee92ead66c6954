//! The posted-interrupt page of the virtual-PLIC shim: device interrupts
//! numbered from `VIRT_IRQ_OFFSET` on are posted by writing a one-hot word.
use vstd::prelude::*;

verus! {

pub const VPLIC_LENGTH: u64 = 0x400_0000;
pub const VMODE_VPLIC_OFFSET: u64 = 0x1f0_0000;
pub const VIRT_IRQ_OFFSET: u32 = 0x80;

/// The shim's posting word, by its host-virtual address.
pub struct VPlic {
    pub pending_vector: u64,
}

impl VPlic {
    /// The shim mapped at host-virtual `base`: its posting word sits at the
    /// offset the shim's mode uses.
    pub fn new(base: u64) -> (r: Self)
        requires
            base + VMODE_VPLIC_OFFSET <= u64::MAX,
        ensures
            r.pending_vector == base + VMODE_VPLIC_OFFSET,
    {
        VPlic { pending_vector: base + VMODE_VPLIC_OFFSET }
    }

    /// Whether `irq` is a device interrupt that goes through the shim.
    pub fn check_virt_irq(irq: u32) -> (r: bool)
        ensures
            r == (irq >= VIRT_IRQ_OFFSET),
    {
        irq >= VIRT_IRQ_OFFSET
    }

    /// The word to write to post `irq`; `None` for an interrupt that does
    /// not go through the shim.
    pub fn send_posted_interrupt(&self, irq: u32) -> (r: Option<u32>)
        requires
            irq < VIRT_IRQ_OFFSET + 32,
        ensures
            r == (if irq >= VIRT_IRQ_OFFSET {
                Some(1u32 << (irq - VIRT_IRQ_OFFSET) as u32)
            } else {
                None::<u32>
            }),
    {
        if !VPlic::check_virt_irq(irq) {
            return None;
        }
        let real_irq = irq - VIRT_IRQ_OFFSET;
        Some(1u32 << real_irq)
    }
}

} // verus!
