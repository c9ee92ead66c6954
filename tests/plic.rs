use duvisor::plic::{
    IrqLine, Plic, CONTEXT_BASE, CONTEXT_CLAIM, CONTEXT_PER_HART, CONTEXT_THRESHOLD, ENABLE_BASE, ENABLE_PER_HART,
    PLIC_BASE_ADDR, PRIORITY_BASE, PRIORITY_PER_ID,
};

fn enable_addr(ctx_id: u64, offset: u64) -> u64 {
    PLIC_BASE_ADDR + ENABLE_BASE + ctx_id * ENABLE_PER_HART + offset
}

fn threshold_addr(ctx_id: u64) -> u64 {
    PLIC_BASE_ADDR + CONTEXT_BASE + ctx_id * CONTEXT_PER_HART + CONTEXT_THRESHOLD
}

fn claim_addr(ctx_id: u64) -> u64 {
    PLIC_BASE_ADDR + CONTEXT_BASE + ctx_id * CONTEXT_PER_HART + CONTEXT_CLAIM
}

fn prio_addr(irq: u32) -> u64 {
    PLIC_BASE_ADDR + PRIORITY_BASE + (irq as u64) * PRIORITY_PER_ID
}

#[test]
fn test_plic_init() {
    let plic = Plic::new(2);
    assert_eq!(plic.plic_contexts.len(), 4);
    assert_eq!(plic.plic_contexts[3].vcpu_id, 1);
}

#[test]
fn test_plic_local_enable() {
    let mut plic = Plic::new(2);
    for (write, ctx_id) in [(0xffu32, 0u64), (0xf, 1), (0xff, 2), (0xf, 3)] {
        let mut w = write;
        let mut r = 0xdead;
        plic.mmio_callback(enable_addr(ctx_id, 0), &mut w, true);
        plic.mmio_callback(enable_addr(ctx_id, 0), &mut r, false);
        assert_eq!(r, write & !0x1);
    }
    for (write, ctx_id) in [(0xffu32, 0u64), (0xf, 1), (0xff, 2), (0xf, 3)] {
        let mut w = write;
        let mut r = 0xdead;
        plic.mmio_callback(enable_addr(ctx_id, 0x8), &mut w, true);
        plic.mmio_callback(enable_addr(ctx_id, 0x8), &mut r, false);
        assert_eq!(r, 0xdead);
    }
}

#[test]
fn enable_word_beyond_sources_is_ignored() {
    let mut plic = Plic::new(1);
    let mut w = 0xffff_ffffu32;
    let mut r = 0x1234u32;
    assert_eq!(plic.mmio_callback(enable_addr(0, 0x4), &mut w, true), None);
    plic.mmio_callback(enable_addr(0, 0x4), &mut r, false);
    assert_eq!(r, 0x1234);
}

#[test]
fn test_plic_local_context() {
    let mut plic = Plic::new(2);
    for (write, ctx_id) in [(0xffu32, 0u64), (0, 1), (0x7, 2), (0xf, 3)] {
        let mut w = write;
        let mut r = 0u32;
        plic.mmio_callback(threshold_addr(ctx_id), &mut w, true);
        plic.mmio_callback(threshold_addr(ctx_id), &mut r, false);
        assert_eq!(r, write & 0xf);
        plic.mmio_callback(claim_addr(ctx_id), &mut w, true);
        plic.mmio_callback(claim_addr(ctx_id), &mut r, false);
        assert_eq!(r, 0);
    }
}

fn claim_after_trigger(plic: &mut Plic, irq: u32, ctx_id: u64) -> u32 {
    let mut mask = 0xffff_ffffu32;
    plic.mmio_callback(prio_addr(irq), &mut mask, true);
    plic.mmio_callback(enable_addr(ctx_id, 0), &mut mask, true);
    plic.trigger_level_irq(irq, true);
    let mut read = 0xdead;
    plic.mmio_callback(claim_addr(ctx_id), &mut read, false);
    plic.trigger_level_irq(irq, false);
    read
}

#[test]
fn local_claim_succeed() {
    let mut plic = Plic::new(2);
    assert_eq!(claim_after_trigger(&mut plic, 1, 0), 1);
    assert_eq!(claim_after_trigger(&mut plic, 31, 0), 31);
    for irq in 1..32 {
        let mut p = Plic::new(2);
        assert_eq!(claim_after_trigger(&mut p, irq, 0), irq);
    }
}

#[test]
fn claimed_level_source_stays_pending() {
    let mut plic = Plic::new(1);
    let mut mask = 0xffff_ffffu32;
    plic.mmio_callback(prio_addr(5), &mut mask, true);
    let line = plic.mmio_callback(enable_addr(0, 0), &mut mask, true);
    assert_eq!(line, Some(IrqLine { vcpu_id: 0, asserted: false }));
    let lines = plic.trigger_level_irq(5, true);
    assert_eq!(lines, vec![IrqLine { vcpu_id: 0, asserted: true }]);
    let mut read = 0;
    let line = plic.mmio_callback(claim_addr(0), &mut read, false);
    assert_eq!(read, 5);
    assert_eq!(line, Some(IrqLine { vcpu_id: 0, asserted: false }));
    assert_eq!((plic.plic_contexts[0].irq_pending >> 5) & 1, 1);
    assert_eq!((plic.plic_contexts[0].irq_claimed >> 5) & 1, 1);
    let mut again = 0xdead;
    plic.mmio_callback(claim_addr(0), &mut again, false);
    assert_eq!(again, 0);
}

#[test]
fn local_claim_failed() {
    let mut plic = Plic::new(2);
    for irq in [1u32, 31] {
        let mut mask = 0xffff_ffffu32;
        plic.mmio_callback(prio_addr(irq), &mut mask, true);
        plic.mmio_callback(enable_addr(0, 0), &mut mask, true);
        mask = 0;
        plic.mmio_callback(prio_addr(irq), &mut mask, true);
        plic.trigger_level_irq(irq, true);
        let mut read = 0xdead;
        plic.mmio_callback(claim_addr(0), &mut read, false);
        plic.trigger_level_irq(irq, false);
        assert_eq!(read, 0);

        mask = 0;
        plic.mmio_callback(enable_addr(0, 0), &mut mask, true);
        plic.trigger_level_irq(irq, true);
        plic.mmio_callback(claim_addr(0), &mut read, false);
        plic.trigger_level_irq(irq, false);
        assert_eq!(read, 0);

        assert!(plic.trigger_level_irq(32, true).is_empty());
        plic.mmio_callback(claim_addr(0), &mut read, false);
        plic.trigger_level_irq(32, false);
        assert_eq!(read, 0);
    }
}

#[test]
fn out_of_range_trigger_changes_nothing() {
    let mut plic = Plic::new(1);
    let before_level = plic.plic_state.irq_level;
    assert!(plic.trigger_level_irq(32, true).is_empty());
    assert!(plic.trigger_level_irq(1000, true).is_empty());
    assert_eq!(plic.plic_state.irq_level, before_level);
    assert_eq!(plic.plic_contexts[0].irq_pending, 0);
}

#[test]
fn priority_register_round_trip() {
    let mut plic = Plic::new(1);
    let mut w = 0x1234_5677u32;
    plic.mmio_callback(prio_addr(3), &mut w, true);
    let mut r = 0;
    plic.mmio_callback(prio_addr(3), &mut r, false);
    assert_eq!(r, 0x7);
    let mut r0 = 0xdead;
    plic.mmio_callback(prio_addr(0), &mut w, true);
    plic.mmio_callback(prio_addr(0), &mut r0, false);
    assert_eq!(r0, 0xdead);
}

#[test]
fn every_enabling_context_takes_the_source() {
    let mut plic = Plic::new(2);
    let mut mask = 0xffff_ffffu32;
    plic.mmio_callback(prio_addr(7), &mut mask, true);
    plic.mmio_callback(enable_addr(0, 0), &mut 0u32, true);
    plic.mmio_callback(enable_addr(2, 0), &mut mask, true);
    plic.mmio_callback(enable_addr(3, 0), &mut mask, true);
    let lines = plic.trigger_level_irq(7, true);
    assert_eq!(lines, vec![IrqLine { vcpu_id: 1, asserted: true }, IrqLine { vcpu_id: 1, asserted: true }]);
    assert_eq!((plic.plic_contexts[2].irq_pending >> 7) & 1, 1);
    assert_eq!((plic.plic_contexts[3].irq_pending >> 7) & 1, 1);
    assert_eq!(plic.plic_contexts[0].irq_pending, 0);
}

#[test]
fn claim_respects_the_threshold() {
    let mut plic = Plic::new(1);
    let mut prio = 1u32;
    plic.mmio_callback(prio_addr(4), &mut prio, true);
    let mut mask = 0xffff_ffffu32;
    plic.mmio_callback(enable_addr(0, 0), &mut mask, true);
    let mut threshold = 15u32;
    plic.mmio_callback(threshold_addr(0), &mut threshold, true);
    let lines = plic.trigger_level_irq(4, true);
    assert_eq!(lines, vec![IrqLine { vcpu_id: 0, asserted: false }]);
    let mut read = 0xdead;
    plic.mmio_callback(claim_addr(0), &mut read, false);
    assert_eq!(read, 0);
    let mut threshold = 0u32;
    plic.mmio_callback(threshold_addr(0), &mut threshold, true);
    plic.mmio_callback(claim_addr(0), &mut read, false);
    assert_eq!(read, 4);
}
