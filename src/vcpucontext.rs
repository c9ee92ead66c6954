//! The register banks of a vCPU, for the host side and the guest side of
//! the world switch.
use vstd::prelude::*;

verus! {

pub const ZERO: usize = 0;
pub const RA: usize = 1;
pub const SP: usize = 2;
pub const T0: usize = 5;
pub const A0: usize = 10;
pub const A1: usize = 11;
pub const A2: usize = 12;
pub const A3: usize = 13;
pub const A4: usize = 14;
pub const A5: usize = 15;
pub const A6: usize = 16;
pub const A7: usize = 17;

pub const UEPC: u64 = 0x041;
pub const UCAUSE: u64 = 0x042;
pub const UTVAL: u64 = 0x043;
pub const HUSTATUS: u64 = 0x800;
pub const HUCOUNTEREN: u64 = 0x806;
pub const HUTVAL: u64 = 0x843;
pub const HUTINST: u64 = 0x84a;
pub const HUGATP: u64 = 0x880;

/// The host CSRs that can be read from a saved context.
pub open spec fn readable_host_csr(regid: u64) -> bool {
    regid == UEPC || regid == UCAUSE || regid == UTVAL || regid == HUTVAL || regid == HUTINST
}

/// The host CSRs that can be written into a saved context.
pub open spec fn writable_host_csr(regid: u64) -> bool {
    regid == HUCOUNTEREN || regid == UEPC || regid == HUSTATUS || regid == HUGATP
}

/// The 32 integer registers.
pub struct GpRegs {
    pub x_reg: [u64; 32],
}

impl GpRegs {
    pub fn new() -> (r: Self)
        ensures
            forall|i: int| 0 <= i < 32 ==> #[trigger] r.x_reg@[i] == 0,
    {
        Self { x_reg: [0u64; 32] }
    }
}

/// Guest supervisor CSRs, saved while the guest is not resident.
pub struct SysRegs {
    pub huvsstatus: u64,
    pub huvsip: u64,
    pub huvsie: u64,
    pub huvstvec: u64,
    pub huvsscratch: u64,
    pub huvsepc: u64,
    pub huvscause: u64,
    pub huvstval: u64,
    pub huvsatp: u64,
}

impl SysRegs {
    pub fn new() -> (r: Self)
        ensures
            r == sys_zero(),
    {
        Self {
            huvsstatus: 0,
            huvsip: 0,
            huvsie: 0,
            huvstvec: 0,
            huvsscratch: 0,
            huvsepc: 0,
            huvscause: 0,
            huvstval: 0,
            huvsatp: 0,
        }
    }
}

/// Trap-frame and hypervisor CSRs.
pub struct HypRegs {
    pub hustatus: u64,
    pub huedeleg: u64,
    pub huideleg: u64,
    pub huie: u64,
    pub hucounteren: u64,
    pub hutval: u64,
    pub huvip: u64,
    pub huip: u64,
    pub hugeip: u64,
    pub hugeie: u64,
    pub hutimedelta: u64,
    pub hutimedeltah: u64,
    pub hutinst: u64,
    pub hugatp: u64,
    pub utvec: u64,
    pub uepc: u64,
    pub uscratch: u64,
    pub utval: u64,
    pub ucause: u64,
}

/// Hypervisor registers, all zero.
pub open spec fn hyp_zero() -> HypRegs {
    HypRegs {
        hustatus: 0,
        huedeleg: 0,
        huideleg: 0,
        huie: 0,
        hucounteren: 0,
        hutval: 0,
        huvip: 0,
        huip: 0,
        hugeip: 0,
        hugeie: 0,
        hutimedelta: 0,
        hutimedeltah: 0,
        hutinst: 0,
        hugatp: 0,
        utvec: 0,
        uepc: 0,
        uscratch: 0,
        utval: 0,
        ucause: 0,
    }
}

/// Guest supervisor registers, all zero.
pub open spec fn sys_zero() -> SysRegs {
    SysRegs {
        huvsstatus: 0,
        huvsip: 0,
        huvsie: 0,
        huvstvec: 0,
        huvsscratch: 0,
        huvsepc: 0,
        huvscause: 0,
        huvstval: 0,
        huvsatp: 0,
    }
}

impl HypRegs {
    pub fn new() -> (r: Self)
        ensures
            r == hyp_zero(),
    {
        Self {
            hustatus: 0,
            huedeleg: 0,
            huideleg: 0,
            huvip: 0,
            huip: 0,
            huie: 0,
            hugeip: 0,
            hugeie: 0,
            hucounteren: 0,
            hutimedelta: 0,
            hutimedeltah: 0,
            hutval: 0,
            hutinst: 0,
            hugatp: 0,
            utvec: 0,
            uepc: 0,
            uscratch: 0,
            utval: 0,
            ucause: 0,
        }
    }
}

pub struct HostCtx {
    pub gp_regs: GpRegs,
    pub hyp_regs: HypRegs,
}

impl HostCtx {
    pub fn new() -> (r: Self)
        ensures
            forall|i: int| 0 <= i < 32 ==> #[trigger] r.gp_regs.x_reg@[i] == 0,
            r.hyp_regs == hyp_zero(),
    {
        let gp_regs = GpRegs::new();
        let hyp_regs = HypRegs::new();
        Self { gp_regs, hyp_regs }
    }
}

pub struct GuestCtx {
    pub gp_regs: GpRegs,
    pub sys_regs: SysRegs,
    pub hyp_regs: HypRegs,
}

impl GuestCtx {
    pub fn new() -> (r: Self)
        ensures
            forall|i: int| 0 <= i < 32 ==> #[trigger] r.gp_regs.x_reg@[i] == 0,
            r.sys_regs == sys_zero(),
            r.hyp_regs == hyp_zero(),
    {
        let gp_regs = GpRegs::new();
        let sys_regs = SysRegs::new();
        let hyp_regs = HypRegs::new();
        Self { gp_regs, sys_regs, hyp_regs }
    }
}

/// The saved state of both sides of the world switch.
pub struct VcpuCtx {
    pub host_ctx: HostCtx,
    pub guest_ctx: GuestCtx,
}

impl VcpuCtx {
    /// Every register zero.
    pub fn new() -> (r: Self)
        ensures
            forall|i: int| 0 <= i < 32 ==> #[trigger] r.guest_ctx.gp_regs.x_reg@[i] == 0,
            forall|i: int| 0 <= i < 32 ==> #[trigger] r.host_ctx.gp_regs.x_reg@[i] == 0,
            r.host_ctx.hyp_regs == hyp_zero(),
            r.guest_ctx.sys_regs == sys_zero(),
            r.guest_ctx.hyp_regs == hyp_zero(),
    {
        let host_ctx = HostCtx::new();
        let guest_ctx = GuestCtx::new();
        Self { host_ctx, guest_ctx }
    }

    /// The value of a host CSR as [`Self::get_host_csr`] reads it.
    pub open spec fn host_csr(&self, regid: u64) -> u64 {
        if regid == UEPC {
            self.host_ctx.hyp_regs.uepc
        } else if regid == UCAUSE {
            self.host_ctx.hyp_regs.ucause
        } else if regid == UTVAL {
            self.host_ctx.hyp_regs.utval
        } else if regid == HUTVAL {
            self.host_ctx.hyp_regs.hutval
        } else {
            self.host_ctx.hyp_regs.hutinst
        }
    }

    /// No guest CSR is kept in the saved context, so none can be read.
    pub fn get_guest_csr(&self, regid: u64) -> (r: Option<u64>)
        ensures
            r is None,
    {
        None
    }

    /// No guest CSR is kept in the saved context, so every write is
    /// refused (`false`) and nothing changes.
    pub fn set_guest_csr(&self, regid: u64, value: u64) -> (r: bool)
        ensures
            !r,
    {
        false
    }

    pub fn set_guest_gpreg(&mut self, regid: usize, value: u64)
        requires
            regid < 32,
        ensures
            final(self).guest_ctx.gp_regs.x_reg@ == old(self).guest_ctx.gp_regs.x_reg@.update(regid as int, value),
            final(self).host_ctx == old(self).host_ctx,
            final(self).guest_ctx.sys_regs == old(self).guest_ctx.sys_regs,
            final(self).guest_ctx.hyp_regs == old(self).guest_ctx.hyp_regs,
    {
        self.guest_ctx.gp_regs.x_reg[regid] = value;
    }

    pub fn get_guest_gpreg(&self, regid: usize) -> (r: u64)
        requires
            regid < 32,
        ensures
            r == self.guest_ctx.gp_regs.x_reg@[regid as int],
    {
        self.guest_ctx.gp_regs.x_reg[regid]
    }

    pub fn set_host_gpreg(&mut self, regid: usize, value: u64)
        requires
            regid < 32,
        ensures
            final(self).host_ctx.gp_regs.x_reg@ == old(self).host_ctx.gp_regs.x_reg@.update(regid as int, value),
            final(self).host_ctx.hyp_regs == old(self).host_ctx.hyp_regs,
            final(self).guest_ctx == old(self).guest_ctx,
    {
        self.host_ctx.gp_regs.x_reg[regid] = value;
    }

    pub fn get_host_gpreg(&self, regid: usize) -> (r: u64)
        requires
            regid < 32,
        ensures
            r == self.host_ctx.gp_regs.x_reg@[regid as int],
    {
        self.host_ctx.gp_regs.x_reg[regid]
    }

    pub fn get_host_csr(&self, regid: u64) -> (r: u64)
        requires
            readable_host_csr(regid),
        ensures
            r == self.host_csr(regid),
    {
        if regid == UEPC {
            self.host_ctx.hyp_regs.uepc
        } else if regid == UCAUSE {
            self.host_ctx.hyp_regs.ucause
        } else if regid == UTVAL {
            self.host_ctx.hyp_regs.utval
        } else if regid == HUTVAL {
            self.host_ctx.hyp_regs.hutval
        } else {
            self.host_ctx.hyp_regs.hutinst
        }
    }

    pub fn set_host_csr(&mut self, regid: u64, value: u64)
        requires
            writable_host_csr(regid),
        ensures
            final(self).guest_ctx == old(self).guest_ctx,
            final(self).host_ctx.gp_regs == old(self).host_ctx.gp_regs,
            final(self).host_ctx.hyp_regs == (if regid == HUCOUNTEREN {
                HypRegs { hucounteren: value, ..old(self).host_ctx.hyp_regs }
            } else if regid == UEPC {
                HypRegs { uepc: value, ..old(self).host_ctx.hyp_regs }
            } else if regid == HUSTATUS {
                HypRegs { hustatus: value, ..old(self).host_ctx.hyp_regs }
            } else {
                HypRegs { hugatp: value, ..old(self).host_ctx.hyp_regs }
            }),
    {
        if regid == HUCOUNTEREN {
            self.host_ctx.hyp_regs.hucounteren = value;
        } else if regid == UEPC {
            self.host_ctx.hyp_regs.uepc = value;
        } else if regid == HUSTATUS {
            self.host_ctx.hyp_regs.hustatus = value;
        } else {
            self.host_ctx.hyp_regs.hugatp = value;
        }
    }

    /// Moves the guest's resume address forward by `value` bytes (wrapping,
    /// as the program counter does).
    pub fn increment_host_uepc(&mut self, value: u64)
        ensures
            final(self).host_ctx.hyp_regs == (HypRegs {
                uepc: (if old(self).host_ctx.hyp_regs.uepc + value > u64::MAX {
                    old(self).host_ctx.hyp_regs.uepc + value - 0x1_0000_0000_0000_0000
                } else {
                    old(self).host_ctx.hyp_regs.uepc + value
                }) as u64,
                ..old(self).host_ctx.hyp_regs
            }),
            final(self).host_ctx.gp_regs == old(self).host_ctx.gp_regs,
            final(self).guest_ctx == old(self).guest_ctx,
    {
        self.host_ctx.hyp_regs.uepc = self.host_ctx.hyp_regs.uepc.wrapping_add(value);
    }
}

} // verus!
