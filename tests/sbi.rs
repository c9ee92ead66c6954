use duvisor::sbi::{send_ipi_targets, Ecall, SbiAction, SBI_ERR_NOT_SUPPORTED, SHUTDOWN_RET};
use duvisor::vcpu::{finish_supervisor_ecall, handle_supervisor_ecall, EcallDecision, ECALL_VM_TEST_END_RET};
use duvisor::vcpucontext::{VcpuCtx, A0, A1, A7, UEPC};
use duvisor::vipi::{vipi_id_of, VipiWrite, VirtualIpi};

fn call(ctx: &mut VcpuCtx, eid: u64, a0: u64) -> (Ecall, i32, SbiAction) {
    ctx.set_guest_gpreg(A7, eid);
    ctx.set_guest_gpreg(A0, a0);
    match handle_supervisor_ecall(ctx) {
        EcallDecision::Sbi(e, r, a) => (e, r, a),
        EcallDecision::TestEnd(_) => panic!("unexpected test end"),
    }
}

#[test]
fn console_putchar_hello() {
    let mut ctx = VcpuCtx::new();
    let mut out = Vec::new();
    let mut t0: u64 = 0;
    for b in "Hello Ecall\n".bytes() {
        let (e, r, a) = call(&mut ctx, 1, b as u64);
        assert_eq!(r, 0);
        match a {
            SbiAction::PutChar(c) => out.push(c),
            _ => panic!("not a putchar"),
        }
        finish_supervisor_ecall(&mut ctx, &e);
        assert_eq!(ctx.get_guest_gpreg(A0), 0);
        t0 += b as u64;
    }
    assert_eq!(out, b"Hello Ecall\n".to_vec());
    assert_eq!(t0, 1023);
    assert_eq!(ctx.host_ctx.hyp_regs.uepc, 4 * 12);
    assert_eq!(ctx.get_host_csr(UEPC), 48);
}

#[test]
fn remote_fence_triplet_returns_zeros() {
    let mut ctx = VcpuCtx::new();
    let mut results = Vec::new();
    for eid in [5u64, 6, 7] {
        let (mut e, r, a) = call(&mut ctx, eid, 0x3000);
        assert_eq!(r, 0);
        assert_eq!(a, SbiAction::RemoteFence);
        e.complete_remote_fence(0, 0);
        finish_supervisor_ecall(&mut ctx, &e);
        results.push(ctx.get_guest_gpreg(A0));
        results.push(ctx.get_guest_gpreg(A1));
    }
    assert_eq!(&results[0..4], &[0, 0, 0, 0]);
}

#[test]
fn unsupported_and_other_calls() {
    let mut ctx = VcpuCtx::new();
    let (e, r, a) = call(&mut ctx, 3, 7);
    assert_eq!((r, a), (0, SbiAction::Done));
    assert_eq!(e.ret[0], SBI_ERR_NOT_SUPPORTED as u64);
    let (e, _, _) = call(&mut ctx, 0x99, 7);
    assert_eq!(e.ret[0], (-2i64) as u64);
    let (_, r, a) = call(&mut ctx, 8, 0);
    assert_eq!((r, a), (SHUTDOWN_RET, SbiAction::Shutdown));
    let (e, _, a) = call(&mut ctx, 0, 12345);
    assert_eq!(a, SbiAction::SetTimer(12345));
    assert_eq!(e.ret[0], 12345);
    let (e, _, a) = call(&mut ctx, 4, 0x8000_1000);
    assert_eq!(a, SbiAction::SendIpi(0x8000_1000));
    let t = e.complete_send_ipi(0b1111_1110, 2);
    assert_eq!(t.targets, vec![1]);
    assert_eq!(t.invalid, 6);
    let (_, _, a) = call(&mut ctx, 0xC00_0007, 0);
    assert_eq!(a, SbiAction::TestSuccess);
    let (e, _, a) = call(&mut ctx, 0xC00_0009, 0);
    assert_eq!(a, SbiAction::Done);
    assert_eq!(e.ret[0], SBI_ERR_NOT_SUPPORTED as u64);
    let (mut e, _, a) = call(&mut ctx, 2, 0);
    assert_eq!(a, SbiAction::GetChar);
    e.console_getchar(b'g' as i32);
    assert_eq!(e.ret[0], b'g' as u64);
}

#[test]
fn test_end_call_stops_the_vcpu() {
    let mut ctx = VcpuCtx::new();
    ctx.set_guest_gpreg(A7, 0xFF);
    match handle_supervisor_ecall(&mut ctx) {
        EcallDecision::TestEnd(v) => assert_eq!(v, ECALL_VM_TEST_END_RET),
        _ => panic!("expected the test end"),
    }
    assert_eq!(ctx.get_host_gpreg(0), 0xdead);
}

#[test]
fn send_ipi_counts_missing_targets() {
    let t = send_ipi_targets(0b1111_0110, 3);
    assert_eq!(t.targets, vec![1, 2]);
    assert_eq!(t.invalid, 4);
    let t = send_ipi_targets(0xff00, 2);
    assert_eq!(t.targets, Vec::<u32>::new());
    assert_eq!(t.invalid, 8);
    let t = send_ipi_targets(1 << 40, 2);
    assert_eq!(t.invalid, 1);
    let t = send_ipi_targets(u64::MAX, 2);
    assert_eq!(t.targets, vec![0, 1]);
    assert_eq!(t.invalid, 62);
    let t = send_ipi_targets(0b1111_1110, 2);
    assert_eq!(t.invalid, 6);
    let t = send_ipi_targets(0b10, 3);
    assert_eq!(t.targets, vec![1]);
    assert_eq!(t.invalid, 0);
}

#[test]
fn virtual_ipi_reaches_only_its_target() {
    let mut vipi = VirtualIpi::new(3);
    for cpu in 0..3u32 {
        vipi.vcpu_regist(cpu, vipi_id_of(0, cpu));
    }
    assert_eq!(vipi.get_vcpu_id_map(1), 2);
    let writes = vipi.send_vipi(0b10);
    assert_eq!(writes, vec![VipiWrite { csr_id: 0, mask: 1 << 2 }]);
    assert_eq!(VirtualIpi::set_vipi(64), VipiWrite { csr_id: 1, mask: 1 });
    assert_eq!(VirtualIpi::clear_vipi(255), VipiWrite { csr_id: 3, mask: 1 << 63 });
    assert_eq!(vipi_id_of(31, 7), 256);
    assert_eq!(vipi.vcpu_num(), 3);
}
