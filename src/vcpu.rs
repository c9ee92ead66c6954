//! The decisions of the vCPU loop: which trap arrived, how a stage-2 fault
//! is resolved, how a faulting MMIO instruction is decoded and emulated,
//! and how an environment call is turned into an SBI call.
//!
//! Entering the guest, CSR accesses and device I/O happen outside; they
//! hand their results to these functions and carry out what comes back.
use vstd::prelude::*;
use crate::gstagemmu::{GStageMmu, PTE_READ, PTE_WRITE, PTE_EXECUTE, PTE_VRWEU, MEM_START};
use crate::sbi::{Ecall, SbiAction, ecall_spec};
use crate::vcpucontext::{VcpuCtx, A0, A1, A2, A3, A4, A5, A6, A7, HUSTATUS, HUGATP};
use crate::utils::{PAGE_SIZE, lemma_page_mask, round_up_spec};
use crate::gstagemmu::leaf_pte;
use crate::hpmallocator::alloc_spec;

verus! {

pub const EXC_VIRTUAL_SUPERVISOR_SYSCALL: u64 = 10;
pub const EXC_INST_GUEST_PAGE_FAULT: u64 = 20;
pub const EXC_LOAD_GUEST_PAGE_FAULT: u64 = 21;
pub const EXC_VIRTUAL_INST_FAULT: u64 = 22;
pub const EXC_STORE_GUEST_PAGE_FAULT: u64 = 23;
pub const EXC_IRQ_MASK: u64 = 0x8000_0000_0000_0000;
pub const IRQ_U_SOFT: u64 = 0;
pub const IRQ_VS_SOFT: u64 = 2;
pub const IRQ_U_TIMER: u64 = 4;
pub const IRQ_VS_TIMER: u64 = 6;
pub const IRQ_VS_EXT: u64 = 10;

pub const EFAILED: i32 = -1;
pub const ENOPERMIT: i32 = -2;
pub const ENOMAPPING: i32 = -3;

/// The environment call that ends a test guest.
pub const ECALL_VM_TEST_END: u64 = 0xFF;
/// What the loop returns, and leaves in host A0, for that call.
pub const ECALL_VM_TEST_END_RET: i32 = 0xdead;

pub const PLIC_HPA: u64 = 0xc00_0000;
pub const PLIC_LENGTH: u64 = 0x400_0000;

/// Guest accesses to this range go to the interrupt controller model.
pub const IRQCHIP_MMIO_END: u64 = 0xd00_0000;

pub const HUGATP_MODE_SV39: u64 = 0x8000_0000_0000_0000;
pub const HUSTATUS_UPIE_SHIFT: u64 = 4;
pub const HUSTATUS_SPV_SHIFT: u64 = 7;
pub const HUSTATUS_SPVP_SHIFT: u64 = 8;
pub const HUSTATUS_VTW_SHIFT: u64 = 21;

/// Why the vCPU last left the guest.
#[derive(Clone, Copy, PartialEq, Eq, Structural, Debug)]
pub enum ExitReason {
    ExitUnknown,
    ExitEaccess,
    ExitMmio,
    ExitIntr,
    ExitSystemEvent,
    ExitRiscvSbi,
}

/// The kinds of trap the loop tells apart.
#[derive(Clone, Copy, PartialEq, Eq, Structural, Debug)]
pub enum Trap {
    /// The user timer fired: post the virtual timer to the guest.
    UTimerIrq,
    /// A vipi arrived: acknowledge it.
    USoftIrq,
    /// Another interrupt: not handled.
    OtherIrq,
    /// A virtual-instruction fault: skip the instruction and yield.
    VirtualInst,
    /// A guest page fault.
    GuestPageFault,
    /// An environment call from the guest kernel.
    SupervisorEcall,
    /// Any other exception: not handled.
    Unknown,
}

pub open spec fn classify_spec(ucause: u64) -> Trap {
    if ucause & EXC_IRQ_MASK != 0 {
        let c = ucause & !EXC_IRQ_MASK;
        if c == IRQ_U_TIMER {
            Trap::UTimerIrq
        } else if c == IRQ_U_SOFT {
            Trap::USoftIrq
        } else {
            Trap::OtherIrq
        }
    } else if ucause == EXC_VIRTUAL_INST_FAULT {
        Trap::VirtualInst
    } else if ucause == EXC_INST_GUEST_PAGE_FAULT || ucause == EXC_LOAD_GUEST_PAGE_FAULT || ucause
        == EXC_STORE_GUEST_PAGE_FAULT {
        Trap::GuestPageFault
    } else if ucause == EXC_VIRTUAL_SUPERVISOR_SYSCALL {
        Trap::SupervisorEcall
    } else {
        Trap::Unknown
    }
}

/// The trap that cause register value `ucause` reports.
pub fn classify_trap(ucause: u64) -> (r: Trap)
    ensures
        r == classify_spec(ucause),
{
    if (ucause & EXC_IRQ_MASK) != 0 {
        let c = ucause & !EXC_IRQ_MASK;
        if c == IRQ_U_TIMER {
            Trap::UTimerIrq
        } else if c == IRQ_U_SOFT {
            Trap::USoftIrq
        } else {
            Trap::OtherIrq
        }
    } else if ucause == EXC_VIRTUAL_INST_FAULT {
        Trap::VirtualInst
    } else if ucause == EXC_INST_GUEST_PAGE_FAULT || ucause == EXC_LOAD_GUEST_PAGE_FAULT || ucause
        == EXC_STORE_GUEST_PAGE_FAULT {
        Trap::GuestPageFault
    } else if ucause == EXC_VIRTUAL_SUPERVISOR_SYSCALL {
        Trap::SupervisorEcall
    } else {
        Trap::Unknown
    }
}

/// The exit reason the loop records for a trap.
pub fn exit_reason_of(trap: Trap) -> (r: ExitReason)
    ensures
        r == (match trap {
            Trap::UTimerIrq | Trap::USoftIrq | Trap::OtherIrq => ExitReason::ExitIntr,
            _ => ExitReason::ExitUnknown,
        }),
{
    match trap {
        Trap::UTimerIrq | Trap::USoftIrq | Trap::OtherIrq => ExitReason::ExitIntr,
        _ => ExitReason::ExitUnknown,
    }
}

/// The handler's result for a trap that needs no further handler: 0 for
/// the timer and vipi interrupts, 1 for another interrupt, -1 for an
/// unknown exception; `None` for the traps that have a handler of their own.
pub fn trap_result(trap: Trap) -> (r: Option<i32>)
    ensures
        r == (match trap {
            Trap::UTimerIrq | Trap::USoftIrq => Some(0i32),
            Trap::OtherIrq => Some(1i32),
            Trap::Unknown => Some(-1i32),
            _ => None::<i32>,
        }),
{
    match trap {
        Trap::UTimerIrq | Trap::USoftIrq => Some(0),
        Trap::OtherIrq => Some(1),
        Trap::Unknown => Some(-1),
        _ => None,
    }
}

/// What the loop does with a handler's result `ret`: a negative result is
/// stored, negated, in host A0 before the vCPU stops.
pub fn finish_vcpu_exit(vcpu_ctx: &mut VcpuCtx, ret: i32)
    ensures
        ret < 0 ==> final(vcpu_ctx).host_ctx.gp_regs.x_reg@ == old(vcpu_ctx).host_ctx.gp_regs.x_reg@.update(
            0,
            (-(ret as int)) as u64,
        ),
        ret >= 0 ==> *final(vcpu_ctx) == *old(vcpu_ctx),
        final(vcpu_ctx).guest_ctx == old(vcpu_ctx).guest_ctx,
        final(vcpu_ctx).host_ctx.hyp_regs == old(vcpu_ctx).host_ctx.hyp_regs,
{
    if ret < 0 {
        let v: i64 = 0i64 - ret as i64;
        vcpu_ctx.set_host_gpreg(0, v as u64);
    }
}

/// A decoded MMIO load or store: instruction length in bytes, access width
/// in bits, and the register loaded into or stored from.
#[derive(Clone, Copy, PartialEq, Eq, Structural, Debug)]
pub struct MmioInst {
    pub inst_len: u64,
    pub bit_width: u64,
    pub target_reg: u64,
}

pub const INST_MATCH_LB: u32 = 0x3;
pub const INST_MATCH_LW: u32 = 0x2003;
pub const INST_MATCH_SB: u32 = 0x23;
pub const INST_MATCH_SW: u32 = 0x2023;
pub const INST_MASK_LS: u32 = 0x707f;
pub const INST_MASK_C_LS: u32 = 0xe003;
pub const INST_MATCH_C_LW: u32 = 0x4000;
pub const INST_MATCH_C_SW: u32 = 0xc000;

pub open spec fn parse_load_spec(inst: u32) -> Option<MmioInst> {
    if inst & 3 != 3 {
        if inst & INST_MASK_C_LS == INST_MATCH_C_LW {
            Some(MmioInst { inst_len: 2, bit_width: 32, target_reg: (((inst >> 2u32) & 7) + 8) as u64 })
        } else {
            None
        }
    } else if inst & INST_MASK_LS == INST_MATCH_LW {
        Some(MmioInst { inst_len: 4, bit_width: 32, target_reg: ((inst >> 7u32) & 0x1f) as u64 })
    } else if inst & INST_MASK_LS == INST_MATCH_LB {
        Some(MmioInst { inst_len: 4, bit_width: 8, target_reg: ((inst >> 7u32) & 0x1f) as u64 })
    } else {
        None
    }
}

pub open spec fn parse_store_spec(inst: u32) -> Option<MmioInst> {
    if inst & 3 != 3 {
        if inst & INST_MASK_C_LS == INST_MATCH_C_SW {
            Some(MmioInst { inst_len: 2, bit_width: 32, target_reg: (((inst >> 2u32) & 7) + 8) as u64 })
        } else {
            None
        }
    } else if inst & INST_MASK_LS == INST_MATCH_SW {
        Some(MmioInst { inst_len: 4, bit_width: 32, target_reg: ((inst >> 20u32) & 0x1f) as u64 })
    } else if inst & INST_MASK_LS == INST_MATCH_SB {
        Some(MmioInst { inst_len: 4, bit_width: 8, target_reg: ((inst >> 20u32) & 0x1f) as u64 })
    } else {
        None
    }
}

proof fn lemma_reg_fields(inst: u32)
    ensures
        ((inst >> 2u32) & 7) + 8 < 32,
        (inst >> 7u32) & 0x1f < 32,
        (inst >> 20u32) & 0x1f < 32,
{
    assert((inst >> 2u32) & 7 < 8 && (inst >> 7u32) & 0x1f < 32 && (inst >> 20u32) & 0x1f < 32) by (bit_vector);
}

/// Decodes a load that faulted on MMIO: `c.lw`, `lw` or `lb`; `None` for
/// any other instruction.
pub fn parse_load_inst(inst: u32) -> (r: Option<MmioInst>)
    ensures
        r == parse_load_spec(inst),
        r matches Some(m) ==> m.target_reg < 32 && (m.bit_width == 8 || m.bit_width == 32),
{
    proof {
        lemma_reg_fields(inst);
    }
    if inst & 0x3 != 0x3 {
        if (inst & INST_MASK_C_LS) == INST_MATCH_C_LW {
            Some(MmioInst { inst_len: 2, bit_width: 32, target_reg: (((inst >> 2) & 0x7) + 8) as u64 })
        } else {
            None
        }
    } else {
        let target_reg = ((inst >> 7) & 0x1f) as u64;
        if (inst & INST_MASK_LS) == INST_MATCH_LW {
            Some(MmioInst { inst_len: 4, bit_width: 32, target_reg })
        } else if (inst & INST_MASK_LS) == INST_MATCH_LB {
            Some(MmioInst { inst_len: 4, bit_width: 8, target_reg })
        } else {
            None
        }
    }
}

/// Decodes a store that faulted on MMIO: `c.sw`, `sw` or `sb`; `None` for
/// any other instruction.
pub fn parse_store_inst(inst: u32) -> (r: Option<MmioInst>)
    ensures
        r == parse_store_spec(inst),
        r matches Some(m) ==> m.target_reg < 32 && (m.bit_width == 8 || m.bit_width == 32),
{
    proof {
        lemma_reg_fields(inst);
    }
    if inst & 0x3 != 0x3 {
        if (inst & INST_MASK_C_LS) == INST_MATCH_C_SW {
            Some(MmioInst { inst_len: 2, bit_width: 32, target_reg: (((inst >> 2) & 0x7) + 8) as u64 })
        } else {
            None
        }
    } else {
        let target_reg = ((inst >> 20) & 0x1f) as u64;
        if (inst & INST_MASK_LS) == INST_MATCH_SW {
            Some(MmioInst { inst_len: 4, bit_width: 32, target_reg })
        } else if (inst & INST_MASK_LS) == INST_MATCH_SB {
            Some(MmioInst { inst_len: 4, bit_width: 8, target_reg })
        } else {
            None
        }
    }
}

/// Whether a guest access at `addr` goes to the interrupt controller model
/// rather than the MMIO bus.
pub fn is_irqchip_mmio(addr: u64) -> (r: bool)
    ensures
        r == (PLIC_HPA <= addr < IRQCHIP_MMIO_END),
{
    PLIC_HPA <= addr && addr < IRQCHIP_MMIO_END
}

/// The low `bit_width` bits of `v`.
pub open spec fn width_mask(bit_width: u64) -> u64 {
    if bit_width == 8 {
        0xff
    } else {
        0xffff_ffff
    }
}

/// The value a store of width `bit_width` sends, from register value `v`.
pub fn store_value(v: u64, bit_width: u64) -> (r: u32)
    requires
        bit_width == 8 || bit_width == 32,
    ensures
        r == (v & width_mask(bit_width)) as u32,
{
    let bit_mask: u64 = if bit_width == 8 {
        0xff
    } else {
        0xffff_ffff
    };
    (v & bit_mask) as u32
}

/// The value a load of width `bit_width` puts in its register, from the
/// device's 32-bit answer `data`.
pub fn load_value(data: u32, bit_width: u64) -> (r: u64)
    requires
        bit_width == 8 || bit_width == 32,
    ensures
        r == (data as u64) & width_mask(bit_width),
{
    let bit_mask: u64 = if bit_width == 8 {
        0xff
    } else {
        0xffff_ffff
    };
    (data as u64) & bit_mask
}

/// The full guest-physical fault address from the trap values.
pub fn fault_address(hutval: u64, utval: u64) -> (r: u64)
    ensures
        r == (hutval << 2u64) | (utval & 3),
{
    (hutval << 2) | (utval & 0x3)
}

/// How a stage-2 fault was dealt with.
#[derive(Clone, Copy, PartialEq, Eq, Structural, Debug)]
pub enum FaultOutcome {
    /// Mapped (or already mapped): resume the guest.
    Resolved,
    /// A device range: emulate the access at this address.
    Mmio(u64),
    /// The page is mapped without the right the access needs.
    NoPermission,
    /// Neither memory nor a device range.
    IllegalGpa,
    /// No host page could be found or reserved for the page, or the
    /// mapping could not be installed.
    OutOfMemory,
}

/// Whether leaf entry value `pte` lacks the right that fault `ucause` needs.
pub open spec fn lacks_permission(ucause: u64, pte: u64) -> bool {
    (ucause == EXC_LOAD_GUEST_PAGE_FAULT && pte & PTE_READ == 0) || (ucause == EXC_STORE_GUEST_PAGE_FAULT && pte
        & PTE_WRITE == 0) || (ucause == EXC_INST_GUEST_PAGE_FAULT && pte & PTE_EXECUTE == 0)
}

pub open spec fn is_leaf_value(v: u64) -> bool {
    !(v & 1 == 0 || v & 0xe == 0)
}

/// The host page that backs guest page `page`: the one the guest-memory
/// map gives, or else the one the allocator would reserve for it.
pub open spec fn backing_hpa(m: GStageMmu, page: u64) -> Option<u64> {
    match m.block_query_spec(page) {
        Some(p) => Some(p.1),
        None => if page >= MEM_START {
            match alloc_spec(m.allocator.hpm_region_list@, (page - MEM_START) as u64, 4096) {
                Some(region) => Some(region.base_address),
                None => None,
            }
        } else {
            None
        },
    }
}

/// Whether page `page` of `m` has a leaf entry with read, write or
/// execute rights.
pub open spec fn has_leaf(m: GStageMmu, page: u64) -> bool {
    m.leaf_spec(page) matches Some(pte) && is_leaf_value(pte.value)
}

/// Resolves a guest page fault at guest-physical `fault_addr` with cause
/// `ucause`. The controller's range is mapped onto itself; other device
/// ranges go to MMIO emulation; a page of guest RAM that is mapped without
/// the right the access needs is refused; one that is not mapped is mapped
/// onto its backing host page, reserving one when there is none.
/// `OutOfMemory` when no host page can be found or reserved, or the mapping
/// cannot be installed.
pub fn handle_stage2_page_fault(gsmmu: &mut GStageMmu, ucause: u64, fault_addr: u64) -> (r: FaultOutcome)
    requires
        old(gsmmu).wf(),
    ensures
        final(gsmmu).wf(),
        final(gsmmu).mmio_manager == old(gsmmu).mmio_manager,
        final(gsmmu).mem_gpa_regions == old(gsmmu).mem_gpa_regions,
        ({
            let page = (fault_addr - fault_addr % 4096) as u64;
            let in_ram = exists|i: int|
                0 <= i < old(gsmmu).mem_gpa_regions@.len() && #[trigger] old(gsmmu).mem_gpa_regions@[i].contains(
                    fault_addr as int,
                );
            let plic = PLIC_HPA <= fault_addr < PLIC_HPA + PLIC_LENGTH;
            let hpa = backing_hpa(*old(gsmmu), page);
            &&& plic ==> (r == FaultOutcome::Resolved <==> old(gsmmu).map_ok(page, page))
            &&& plic && r == FaultOutcome::Resolved ==> (final(gsmmu).query_spec(page) matches Some(pte)
                && pte.level == 2 && pte.value == leaf_pte(page, PTE_VRWEU))
            &&& plic && r != FaultOutcome::Resolved ==> r == FaultOutcome::OutOfMemory && *final(gsmmu)
                == *old(gsmmu)
            &&& !plic && !in_ram && old(gsmmu).mmio_manager.covers(fault_addr as int) ==> r == FaultOutcome::Mmio(
                fault_addr,
            ) && *final(gsmmu) == *old(gsmmu)
            &&& !plic && !in_ram && !old(gsmmu).mmio_manager.covers(fault_addr as int) ==> r
                == FaultOutcome::IllegalGpa && *final(gsmmu) == *old(gsmmu)
            &&& !plic && in_ram && has_leaf(*old(gsmmu), page) ==> *final(gsmmu) == *old(gsmmu) && (r
                == FaultOutcome::NoPermission <==> lacks_permission(ucause, old(gsmmu).leaf_spec(page).unwrap().value))
                && (r == FaultOutcome::NoPermission || r == FaultOutcome::Resolved)
            &&& !plic && in_ram && !has_leaf(*old(gsmmu), page) ==> (r == FaultOutcome::Resolved <==> (hpa matches Some(
                h,
            ) && old(gsmmu).map_ok(page, h)))
            &&& !plic && in_ram && !has_leaf(*old(gsmmu), page) && r == FaultOutcome::Resolved ==> (final(gsmmu).query_spec(page) matches Some(pte) && pte.level == 2 && pte.value == leaf_pte(hpa.unwrap(), PTE_VRWEU))
            &&& !plic && in_ram && !has_leaf(*old(gsmmu), page) && r != FaultOutcome::Resolved ==> r
                == FaultOutcome::OutOfMemory && final(gsmmu).page_table == old(gsmmu).page_table
        }),
{
    proof {
        lemma_page_mask(fault_addr);
    }
    if fault_addr >= PLIC_HPA && fault_addr < PLIC_HPA + PLIC_LENGTH {
        let addr = fault_addr - (fault_addr % 0x1000);
        return match gsmmu.map_page(addr, addr, PTE_VRWEU) {
            Some(_) => FaultOutcome::Resolved,
            None => FaultOutcome::OutOfMemory,
        };
    }
    if !gsmmu.check_gpa(fault_addr) {
        if !gsmmu.check_mmio(fault_addr) {
            return FaultOutcome::IllegalGpa;
        }
        return FaultOutcome::Mmio(fault_addr);
    }
    let page = fault_addr - (fault_addr % 0x1000);
    let query = gsmmu.map_query(page);
    match query {
        Some(pte) => {
            if pte.is_leaf() {
                let v = pte.get_value();
                if (ucause == EXC_LOAD_GUEST_PAGE_FAULT && (v & PTE_READ) == 0) || (ucause
                    == EXC_STORE_GUEST_PAGE_FAULT && (v & PTE_WRITE) == 0) || (ucause == EXC_INST_GUEST_PAGE_FAULT
                    && (v & PTE_EXECUTE) == 0) {
                    return FaultOutcome::NoPermission;
                }
                return FaultOutcome::Resolved;
            }
        },
        None => {},
    }
    let hpa = match gsmmu.gpa_block_query(page) {
        Some((_hva, hpa)) => hpa,
        None => {
            if page < MEM_START {
                return FaultOutcome::OutOfMemory;
            }
            proof {
                assert(round_up_spec(4096) == 4096);
            }
            match gsmmu.gpa_block_add(page, PAGE_SIZE) {
                Ok((_hva, hpa)) => hpa,
                Err(_) => {
                    return FaultOutcome::OutOfMemory;
                },
            }
        },
    };
    match gsmmu.map_page(page, hpa, PTE_VRWEU) {
        Some(_) => FaultOutcome::Resolved,
        None => FaultOutcome::OutOfMemory,
    }
}

/// The handler's result for a fault outcome: `ENOPERMIT` for a refused
/// access, otherwise 0.
pub fn fault_result(outcome: FaultOutcome) -> (r: i32)
    ensures
        r == (if outcome == FaultOutcome::NoPermission {
            ENOPERMIT
        } else {
            0
        }),
{
    if outcome == FaultOutcome::NoPermission {
        ENOPERMIT
    } else {
        0
    }
}

/// The exit reason a fault outcome records, if it records one: a refused
/// access is `ExitEaccess`.
pub fn fault_exit_reason(outcome: FaultOutcome) -> (r: Option<ExitReason>)
    ensures
        r == (if outcome == FaultOutcome::NoPermission {
            Some(ExitReason::ExitEaccess)
        } else {
            None::<ExitReason>
        }),
{
    if outcome == FaultOutcome::NoPermission {
        Some(ExitReason::ExitEaccess)
    } else {
        None
    }
}

/// Emulates a decoded MMIO store: the value the device receives.
pub fn store_emulation(vcpu_ctx: &VcpuCtx, inst: MmioInst) -> (r: u32)
    requires
        inst.target_reg < 32,
        inst.bit_width == 8 || inst.bit_width == 32,
    ensures
        r == (vcpu_ctx.guest_ctx.gp_regs.x_reg@[inst.target_reg as int] & width_mask(inst.bit_width)) as u32,
{
    store_value(vcpu_ctx.get_guest_gpreg(inst.target_reg as usize), inst.bit_width)
}

/// Emulates a decoded MMIO load whose device answered `data`: the register
/// takes the value.
pub fn load_emulation(vcpu_ctx: &mut VcpuCtx, inst: MmioInst, data: u32)
    requires
        inst.target_reg < 32,
        inst.bit_width == 8 || inst.bit_width == 32,
    ensures
        final(vcpu_ctx).guest_ctx.gp_regs.x_reg@ == old(vcpu_ctx).guest_ctx.gp_regs.x_reg@.update(
            inst.target_reg as int,
            (data as u64) & width_mask(inst.bit_width),
        ),
        final(vcpu_ctx).host_ctx == old(vcpu_ctx).host_ctx,
{
    let v = load_value(data, inst.bit_width);
    vcpu_ctx.set_guest_gpreg(inst.target_reg as usize, v);
}

/// Decodes the instruction behind an MMIO fault: the one the hardware
/// reported in `hutinst`, or, when that is zero, the one fetched from the
/// guest as `fetched`; a load for a load fault, a store otherwise.
pub fn handle_mmio(ucause: u64, hutinst: u64, fetched: u32) -> (r: Option<MmioInst>)
    ensures
        ({
            let inst = if hutinst == 0 {
                fetched
            } else {
                hutinst as u32
            };
            r == if ucause == EXC_LOAD_GUEST_PAGE_FAULT {
                parse_load_spec(inst)
            } else {
                parse_store_spec(inst)
            }
        }),
        r matches Some(m) ==> m.target_reg < 32 && (m.bit_width == 8 || m.bit_width == 32),
{
    let inst: u32 = if hutinst == 0 {
        fetched
    } else {
        hutinst as u32
    };
    if ucause == EXC_LOAD_GUEST_PAGE_FAULT {
        parse_load_inst(inst)
    } else {
        parse_store_inst(inst)
    }
}

/// What an environment call from the guest kernel asks for.
pub enum EcallDecision {
    /// The test-end call: stop with this result.
    TestEnd(i32),
    /// An SBI call, with the handler's result and the outside work; finish
    /// it with [`finish_supervisor_ecall`] once that work is done.
    Sbi(Ecall, i32, SbiAction),
}

/// Turns the guest's A0 to A7 into an SBI call and handles it, or ends a
/// test guest on the test-end call (leaving the result in host A0).
pub fn handle_supervisor_ecall(vcpu_ctx: &mut VcpuCtx) -> (r: EcallDecision)
    ensures
        ({
            let g = old(vcpu_ctx).guest_ctx.gp_regs.x_reg@;
            if g[A7 as int] == ECALL_VM_TEST_END {
                &&& r matches EcallDecision::TestEnd(v) && v == ECALL_VM_TEST_END_RET
                &&& final(vcpu_ctx).host_ctx.gp_regs.x_reg@ == old(vcpu_ctx).host_ctx.gp_regs.x_reg@.update(
                    0,
                    ECALL_VM_TEST_END_RET as u64,
                )
                &&& final(vcpu_ctx).guest_ctx == old(vcpu_ctx).guest_ctx
            } else {
                let args = g.subrange(A0 as int, A6 as int);
                let (ret, a0, action) = ecall_spec(g[A7 as int], args);
                &&& *final(vcpu_ctx) == *old(vcpu_ctx)
                &&& r matches EcallDecision::Sbi(e, rv, act) && rv == ret && act == action && e.ext_id == g[A7 as int]
                    && e.func_id == g[A6 as int] && e.arg@ == args && e.ret@[0] == (match a0 {
                    Some(v) => v,
                    None => g[A0 as int],
                }) && e.ret@[1] == g[A1 as int]
            }
        }),
{
    let a0 = vcpu_ctx.get_guest_gpreg(A0);
    let a1 = vcpu_ctx.get_guest_gpreg(A1);
    let a2 = vcpu_ctx.get_guest_gpreg(A2);
    let a3 = vcpu_ctx.get_guest_gpreg(A3);
    let a4 = vcpu_ctx.get_guest_gpreg(A4);
    let a5 = vcpu_ctx.get_guest_gpreg(A5);
    let a6 = vcpu_ctx.get_guest_gpreg(A6);
    let a7 = vcpu_ctx.get_guest_gpreg(A7);
    if a7 == ECALL_VM_TEST_END {
        vcpu_ctx.set_host_gpreg(0, ECALL_VM_TEST_END_RET as u64);
        return EcallDecision::TestEnd(ECALL_VM_TEST_END_RET);
    }
    let mut target_ecall = Ecall::new();
    target_ecall.ext_id = a7;
    target_ecall.func_id = a6;
    target_ecall.arg = [a0, a1, a2, a3, a4, a5];
    target_ecall.ret = [a0, a1];
    assert(target_ecall.arg@ =~= vcpu_ctx.guest_ctx.gp_regs.x_reg@.subrange(A0 as int, A6 as int));
    let (ret, action) = target_ecall.ecall_handler();
    EcallDecision::Sbi(target_ecall, ret, action)
}

/// Finishes an SBI call: its results go to the guest's A0 and A1, and the
/// guest resumes after the `ecall`.
pub fn finish_supervisor_ecall(vcpu_ctx: &mut VcpuCtx, ecall: &Ecall)
    ensures
        final(vcpu_ctx).guest_ctx.gp_regs.x_reg@ == old(vcpu_ctx).guest_ctx.gp_regs.x_reg@.update(
            A0 as int,
            ecall.ret@[0],
        ).update(A1 as int, ecall.ret@[1]),
        final(vcpu_ctx).host_ctx.hyp_regs.uepc == (if old(vcpu_ctx).host_ctx.hyp_regs.uepc + 4 > u64::MAX {
            old(vcpu_ctx).host_ctx.hyp_regs.uepc + 4 - 0x1_0000_0000_0000_0000
        } else {
            old(vcpu_ctx).host_ctx.hyp_regs.uepc + 4
        }),
        final(vcpu_ctx).host_ctx.gp_regs == old(vcpu_ctx).host_ctx.gp_regs,
{
    vcpu_ctx.set_guest_gpreg(A0, ecall.ret[0]);
    vcpu_ctx.set_guest_gpreg(A1, ecall.ret[1]);
    vcpu_ctx.increment_host_uepc(4);
}

/// The guest-translation CSR value for a root table at page `pt_pfn`.
pub fn config_hugatp(vcpu_ctx: &mut VcpuCtx, pt_pfn: u64) -> (r: u64)
    ensures
        r == pt_pfn | HUGATP_MODE_SV39,
        final(vcpu_ctx).host_ctx.hyp_regs.hugatp == r,
        final(vcpu_ctx).guest_ctx == old(vcpu_ctx).guest_ctx,
        final(vcpu_ctx).host_ctx.gp_regs == old(vcpu_ctx).host_ctx.gp_regs,
{
    let hugatp = pt_pfn | HUGATP_MODE_SV39;
    vcpu_ctx.set_host_csr(HUGATP, hugatp);
    hugatp
}

/// The status the guest starts with: return to VS-mode, virtual trap of
/// `wfi`, user interrupts enabled on return.
pub fn config_hustatus(vcpu_ctx: &mut VcpuCtx)
    ensures
        final(vcpu_ctx).host_ctx.hyp_regs.hustatus == 0x20_0190,
        final(vcpu_ctx).guest_ctx == old(vcpu_ctx).guest_ctx,
        final(vcpu_ctx).host_ctx.gp_regs == old(vcpu_ctx).host_ctx.gp_regs,
{
    let v: u64 = (1u64 << HUSTATUS_SPV_SHIFT) | (1u64 << HUSTATUS_SPVP_SHIFT) | (1u64 << HUSTATUS_VTW_SHIFT) | (1u64
        << HUSTATUS_UPIE_SHIFT);
    assert(v == 0x20_0190) by (bit_vector)
        requires
            v == (1u64 << 7u64) | (1u64 << 8u64) | (1u64 << 21u64) | (1u64 << 4u64),
    ;
    vcpu_ctx.set_host_csr(HUSTATUS, v);
}

/// Skips the instruction that raised a virtual-instruction fault.
pub fn handle_virtual_inst_fault(vcpu_ctx: &mut VcpuCtx) -> (r: i32)
    ensures
        r == 0,
        final(vcpu_ctx).host_ctx.hyp_regs.uepc == (if old(vcpu_ctx).host_ctx.hyp_regs.uepc + 4 > u64::MAX {
            old(vcpu_ctx).host_ctx.hyp_regs.uepc + 4 - 0x1_0000_0000_0000_0000
        } else {
            old(vcpu_ctx).host_ctx.hyp_regs.uepc + 4
        }),
        final(vcpu_ctx).guest_ctx == old(vcpu_ctx).guest_ctx,
        final(vcpu_ctx).host_ctx.gp_regs == old(vcpu_ctx).host_ctx.gp_regs,
{
    vcpu_ctx.increment_host_uepc(4);
    0
}

} // verus!
