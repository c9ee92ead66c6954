use duvisor::vcpu::{
    classify_trap, config_hugatp, config_hustatus, exit_reason_of, fault_address, handle_mmio,
    handle_virtual_inst_fault, is_irqchip_mmio, load_emulation, parse_load_inst, parse_store_inst, store_emulation,
    ExitReason, MmioInst, Trap, EXC_LOAD_GUEST_PAGE_FAULT, EXC_STORE_GUEST_PAGE_FAULT,
};
use duvisor::vcpucontext::{VcpuCtx, HUCOUNTEREN, UCAUSE, UEPC};
use duvisor::virq::VirtualInterrupt;

#[test]
fn decode_loads() {
    // lw a0, 0(a1)
    assert_eq!(parse_load_inst(0x0005a503), Some(MmioInst { inst_len: 4, bit_width: 32, target_reg: 10 }));
    // lb a0, 0(a0)
    assert_eq!(parse_load_inst(0x00050503), Some(MmioInst { inst_len: 4, bit_width: 8, target_reg: 10 }));
    // c.lw a0, 0(a1)
    assert_eq!(parse_load_inst(0x4188), Some(MmioInst { inst_len: 2, bit_width: 32, target_reg: 10 }));
    // ld a0, 0(a1)
    assert_eq!(parse_load_inst(0x0005b503), None);
    assert_eq!(parse_load_inst(0x0001), None);
}

#[test]
fn decode_stores() {
    // sw a2, 0(a1)
    assert_eq!(parse_store_inst(0x00c5a023), Some(MmioInst { inst_len: 4, bit_width: 32, target_reg: 12 }));
    // sb a2, 0(a1)
    assert_eq!(parse_store_inst(0x00c58023), Some(MmioInst { inst_len: 4, bit_width: 8, target_reg: 12 }));
    // c.sw a2, 0(a1)
    assert_eq!(parse_store_inst(0xc190), Some(MmioInst { inst_len: 2, bit_width: 32, target_reg: 12 }));
    assert_eq!(parse_store_inst(0x00c5b023), None);
}

#[test]
fn mmio_emulation_moves_masked_values() {
    let mut ctx = VcpuCtx::new();
    ctx.set_guest_gpreg(12, 0x1234_5678_9abc_def0);
    let sb = parse_store_inst(0x00c58023).unwrap();
    assert_eq!(store_emulation(&ctx, sb), 0xf0);
    let sw = parse_store_inst(0x00c5a023).unwrap();
    assert_eq!(store_emulation(&ctx, sw), 0x9abc_def0);
    let lb = parse_load_inst(0x00050503).unwrap();
    load_emulation(&mut ctx, lb, 0x1ff);
    assert_eq!(ctx.get_guest_gpreg(10), 0xff);
    assert_eq!(handle_mmio(EXC_LOAD_GUEST_PAGE_FAULT, 0, 0x00050503), Some(lb));
    assert_eq!(handle_mmio(EXC_STORE_GUEST_PAGE_FAULT, 0x00c5a023, 0), Some(sw));
    assert!(is_irqchip_mmio(0xc00_0004));
    assert!(!is_irqchip_mmio(0x1000_0000));
}

#[test]
fn trap_classes() {
    assert_eq!(classify_trap((1 << 63) | 4), Trap::UTimerIrq);
    assert_eq!(classify_trap(1 << 63), Trap::USoftIrq);
    assert_eq!(classify_trap((1 << 63) | 9), Trap::OtherIrq);
    assert_eq!(classify_trap(22), Trap::VirtualInst);
    assert_eq!(classify_trap(20), Trap::GuestPageFault);
    assert_eq!(classify_trap(21), Trap::GuestPageFault);
    assert_eq!(classify_trap(23), Trap::GuestPageFault);
    assert_eq!(classify_trap(10), Trap::SupervisorEcall);
    assert_eq!(classify_trap(2), Trap::Unknown);
    assert_eq!(exit_reason_of(Trap::UTimerIrq), ExitReason::ExitIntr);
    assert_eq!(exit_reason_of(Trap::GuestPageFault), ExitReason::ExitUnknown);
    assert_eq!(fault_address(0x2000_0000, 0x8000_0003), 0x8000_0003);
}

#[test]
fn context_registers() {
    let mut ctx = VcpuCtx::new();
    ctx.set_host_csr(UEPC, 0x8020_0000);
    assert_eq!(handle_virtual_inst_fault(&mut ctx), 0);
    assert_eq!(ctx.get_host_csr(UEPC), 0x8020_0004);
    ctx.set_host_csr(HUCOUNTEREN, 0xffff_ffff);
    assert_eq!(ctx.host_ctx.hyp_regs.hucounteren, 0xffff_ffff);
    ctx.host_ctx.hyp_regs.ucause = 21;
    assert_eq!(ctx.get_host_csr(UCAUSE), 21);
    assert_eq!(config_hugatp(&mut ctx, 0x10_0000), 0x8000_0000_0010_0000);
    config_hustatus(&mut ctx);
    assert_eq!(ctx.host_ctx.hyp_regs.hustatus, 0x20_0190);
    ctx.host_ctx.hyp_regs.uepc = u64::MAX - 1;
    ctx.increment_host_uepc(4);
    assert_eq!(ctx.get_host_csr(UEPC), 2);
}

#[test]
fn pending_irqs_flush_to_masks() {
    let mut v = VirtualInterrupt::new();
    v.set_pending_irq(6);
    v.set_pending_irq(10);
    v.set_pending_irq(0);
    assert_eq!(v.irq_pending, (1 << 6) | (1 << 10) | 1);
    let (set, clear) = v.flush_pending_irq();
    assert_eq!(set, 1 << 6);
    assert_eq!(clear, 0x1fe & !(1 << 6));
    v.unset_pending_irq(6);
    assert_eq!(v.irq_pending, (1 << 10) | 1);
}

#[test]
fn fresh_context_is_all_zero_and_keeps_no_guest_csr() {
    let ctx = VcpuCtx::new();
    for i in 0..32 {
        assert_eq!(ctx.get_guest_gpreg(i), 0);
        assert_eq!(ctx.get_host_gpreg(i), 0);
    }
    assert_eq!(ctx.guest_ctx.hyp_regs.hutinst, 0);
    assert_eq!(ctx.guest_ctx.sys_regs.huvsatp, 0);
    assert_eq!(ctx.host_ctx.hyp_regs.hutinst, 0);
    assert_eq!(ctx.get_guest_csr(0x100), None);
    assert!(!ctx.set_guest_csr(0x100, 5));
    assert_eq!(
        duvisor::vcpu::fault_exit_reason(duvisor::vcpu::FaultOutcome::NoPermission),
        Some(ExitReason::ExitEaccess)
    );
    assert_eq!(duvisor::vcpu::fault_exit_reason(duvisor::vcpu::FaultOutcome::Resolved), None);
}

#[test]
fn trap_results() {
    assert_eq!(duvisor::vcpu::trap_result(Trap::UTimerIrq), Some(0));
    assert_eq!(duvisor::vcpu::trap_result(Trap::USoftIrq), Some(0));
    assert_eq!(duvisor::vcpu::trap_result(Trap::OtherIrq), Some(1));
    assert_eq!(duvisor::vcpu::trap_result(Trap::Unknown), Some(-1));
    assert_eq!(duvisor::vcpu::trap_result(Trap::GuestPageFault), None);
    let mut ctx = VcpuCtx::new();
    duvisor::vcpu::finish_vcpu_exit(&mut ctx, -1);
    assert_eq!(ctx.get_host_gpreg(0), 1);
}
