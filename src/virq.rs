//! The pending virtual interrupts of one vCPU.
use vstd::prelude::*;

verus! {

/// Bit `i` of `w`.
pub open spec fn bit16(w: u16, i: u64) -> bool {
    (w >> i as u16) & 1u16 == 1u16
}

/// Pending interrupt numbers 0 to 15 of a vCPU, one bit each.
pub struct VirtualInterrupt {
    pub irq_pending: u16,
}

proof fn lemma_bit16(w: u16, i: u64, j: u64)
    requires
        i < 16,
        j < 16,
    ensures
        bit16(w | (1u16 << i as u16), j) == (j == i || bit16(w, j)),
        bit16(w & !(1u16 << i as u16), j) == (j != i && bit16(w, j)),
{
    let a = i as u16;
    let b = j as u16;
    assert(a < 16 && b < 16 ==> (((w | (1u16 << a)) >> b) & 1u16 == 1u16) == (b == a || (w >> b) & 1u16 == 1u16))
        by (bit_vector);
    assert(a < 16 && b < 16 ==> (((w & !(1u16 << a)) >> b) & 1u16 == 1u16) == (b != a && (w >> b) & 1u16 == 1u16))
        by (bit_vector);
}

impl VirtualInterrupt {
    pub fn new() -> (r: Self)
        ensures
            r.irq_pending == 0,
    {
        VirtualInterrupt { irq_pending: 0 }
    }

    /// Marks interrupt `irq` pending.
    pub fn set_pending_irq(&mut self, irq: u64)
        requires
            irq < 16,
        ensures
            forall|j: u64| j < 16 ==> #[trigger] bit16(final(self).irq_pending, j) == (j == irq || bit16(
                old(self).irq_pending,
                j,
            )),
    {
        proof {
            assert forall|j: u64| j < 16 implies #[trigger] bit16(self.irq_pending | (1u16 << irq as u16), j) == (j
                == irq || bit16(self.irq_pending, j)) by {
                lemma_bit16(self.irq_pending, irq, j);
            }
        }
        self.irq_pending = self.irq_pending | (1u16 << irq as u16);
    }

    /// Clears interrupt `irq`.
    pub fn unset_pending_irq(&mut self, irq: u64)
        requires
            irq < 16,
        ensures
            forall|j: u64| j < 16 ==> #[trigger] bit16(final(self).irq_pending, j) == (j != irq && bit16(
                old(self).irq_pending,
                j,
            )),
    {
        proof {
            assert forall|j: u64| j < 16 implies #[trigger] bit16(self.irq_pending & !(1u16 << irq as u16), j) == (j
                != irq && bit16(self.irq_pending, j)) by {
                lemma_bit16(self.irq_pending, irq, j);
            }
        }
        self.irq_pending = self.irq_pending & !(1u16 << irq as u16);
    }

    /// The bits of the guest interrupt-pending CSR to set and to clear so
    /// that interrupts 1 to 8 match what is pending; bit 0 (the user
    /// software interrupt) is left to the hardware.
    pub fn flush_pending_irq(&self) -> (r: (u64, u64))
        ensures
            r.0 == (self.irq_pending as u64) & 0x1fe,
            r.1 == !(self.irq_pending as u64) & 0x1fe,
    {
        let pending = self.irq_pending as u64;
        (pending & 0x1fe, !pending & 0x1fe)
    }
}

} // verus!
