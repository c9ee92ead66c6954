//! Virtual inter-processor interrupts: which vipi-id each vCPU answers to,
//! and which bit of which of the four vipi CSR banks a vipi-id is.
use vstd::prelude::*;

verus! {

/// The most vCPUs a guest can have.
pub const MAX_VCPU: u32 = 8;

/// A write into a vipi CSR bank: set or clear the bits of `mask` in bank
/// `csr_id` (0 to 3).
#[derive(Clone, Copy, PartialEq, Eq, Structural, Debug)]
pub struct VipiWrite {
    pub csr_id: u32,
    pub mask: u64,
}

/// The bank and bit of vipi-id `vipi_id` (1 to 255).
pub open spec fn vipi_write_spec(vipi_id: u64) -> VipiWrite {
    VipiWrite { csr_id: (vipi_id / 64) as u32, mask: 1u64 << (vipi_id % 64) }
}

/// The vipi-id of vCPU `vcpu_id` of the guest with identifier `vmid`.
pub open spec fn vipi_id_spec(vmid: u64, vcpu_id: u32) -> int {
    vmid * MAX_VCPU + vcpu_id + 1
}

/// The vipi-id that vCPU `vcpu_id` of guest `vmid` registers.
pub fn vipi_id_of(vmid: u64, vcpu_id: u32) -> (r: u64)
    requires
        vmid < 32,
        vcpu_id < MAX_VCPU,
    ensures
        r == vipi_id_spec(vmid, vcpu_id),
        1 <= r <= 256,
{
    assert(vmid * 8 <= 248) by (nonlinear_arith)
        requires
            vmid < 32,
    ;
    vmid * (MAX_VCPU as u64) + vcpu_id as u64 + 1
}

/// Distinct vCPUs of up to 32 guests of up to eight vCPUs each get
/// distinct vipi-ids.
pub proof fn lemma_vipi_id_unique(vm_a: u64, cpu_a: u32, vm_b: u64, cpu_b: u32)
    requires
        vm_a < 32,
        vm_b < 32,
        cpu_a < MAX_VCPU,
        cpu_b < MAX_VCPU,
        (vm_a, cpu_a) != (vm_b, cpu_b),
    ensures
        vipi_id_spec(vm_a, cpu_a) != vipi_id_spec(vm_b, cpu_b),
{
    if vm_a == vm_b {
    } else if vm_a < vm_b {
        assert(vm_a * 8 + 8 <= vm_b * 8) by (nonlinear_arith)
            requires
                vm_a < vm_b,
        ;
    } else {
        assert(vm_b * 8 + 8 <= vm_a * 8) by (nonlinear_arith)
            requires
                vm_b < vm_a,
        ;
    }
}

/// Which vipi-id each vCPU of the guest answers to.
pub struct VirtualIpi {
    pub vcpu_id_map: Vec<u64>,
    pub vcpu_num: u32,
}

impl VirtualIpi {
    /// No vCPU registered yet (every vipi-id 0).
    pub fn new(vcpu_num: u32) -> (r: Self)
        ensures
            r.vcpu_num == vcpu_num,
            r.vcpu_id_map@ == Seq::new(vcpu_num as nat, |i: int| 0u64),
    {
        let mut vcpu_id_map: Vec<u64> = Vec::new();
        let mut i: u32 = 0;
        while i < vcpu_num
            invariant
                i <= vcpu_num,
                vcpu_id_map@ == Seq::new(i as nat, |k: int| 0u64),
            decreases vcpu_num - i,
        {
            vcpu_id_map.push(0);
            i = i + 1;
            assert(vcpu_id_map@ =~= Seq::new(i as nat, |k: int| 0u64));
        }
        Self { vcpu_id_map, vcpu_num }
    }

    /// Records that vCPU `vcpu_id` answers to `vipi_id`.
    pub fn vcpu_regist(&mut self, vcpu_id: u32, vipi_id: u64)
        requires
            vcpu_id < old(self).vcpu_id_map@.len(),
        ensures
            final(self).vcpu_id_map@ == old(self).vcpu_id_map@.update(vcpu_id as int, vipi_id),
            final(self).vcpu_num == old(self).vcpu_num,
    {
        self.vcpu_id_map.set(vcpu_id as usize, vipi_id);
    }

    /// The vipi writes that kick every vCPU whose bit is set in `hart_mask`
    /// (the first eight bits are looked at), in vCPU order.
    pub fn send_vipi(&self, hart_mask: u64) -> (r: Vec<VipiWrite>)
        requires
            forall|i: u64|
                i < MAX_VCPU && #[trigger] ((hart_mask >> i) & 1) == 1 ==> i < self.vcpu_id_map@.len() && 1
                    <= self.vcpu_id_map@[i as int] <= 255,
        ensures
            r@ == send_vipi_spec(self.vcpu_id_map@, hart_mask, MAX_VCPU as int),
    {
        let mut writes: Vec<VipiWrite> = Vec::new();
        let mut i: u64 = 0;
        while i < MAX_VCPU as u64
            invariant
                i <= MAX_VCPU,
                forall|k: u64|
                    k < MAX_VCPU && #[trigger] ((hart_mask >> k) & 1) == 1 ==> k < self.vcpu_id_map@.len() && 1
                        <= self.vcpu_id_map@[k as int] <= 255,
                writes@ == send_vipi_spec(self.vcpu_id_map@, hart_mask, i as int),
            decreases MAX_VCPU - i,
        {
            if (hart_mask >> i) & 1 == 1 {
                let vipi_id = self.vcpu_id_map[i as usize];
                writes.push(VirtualIpi::set_vipi(vipi_id));
            }
            i = i + 1;
        }
        writes
    }

    fn set_vipi_bit(csr_id: u32, vipi_id: u64) -> (r: VipiWrite)
        requires
            csr_id < 4,
            csr_id * 64 <= vipi_id < csr_id * 64 + 64,
        ensures
            r == (VipiWrite { csr_id, mask: 1u64 << (vipi_id - csr_id * 64) as u64 }),
    {
        if csr_id == 0 {
            VipiWrite { csr_id, mask: 1u64 << vipi_id }
        } else if csr_id == 1 {
            VipiWrite { csr_id, mask: 1u64 << (vipi_id - 64) }
        } else if csr_id == 2 {
            VipiWrite { csr_id, mask: 1u64 << (vipi_id - 128) }
        } else {
            VipiWrite { csr_id, mask: 1u64 << (vipi_id - 192) }
        }
    }

    /// The bank that holds `vipi_id`.
    fn vipi_bank(vipi_id: u64) -> (r: u32)
        requires
            1 <= vipi_id <= 255,
        ensures
            r == vipi_id / 64,
    {
        if vipi_id <= 63 {
            0
        } else if vipi_id <= 127 {
            1
        } else if vipi_id <= 191 {
            2
        } else {
            3
        }
    }

    /// The bit to set to post a vipi to `vipi_id`.
    pub fn set_vipi(vipi_id: u64) -> (r: VipiWrite)
        requires
            1 <= vipi_id <= 255,
        ensures
            r == vipi_write_spec(vipi_id),
    {
        let csr_id = VirtualIpi::vipi_bank(vipi_id);
        VirtualIpi::set_vipi_bit(csr_id, vipi_id)
    }

    fn clear_vipi_bit(csr_id: u32, vipi_id: u64) -> (r: VipiWrite)
        requires
            csr_id < 4,
            csr_id * 64 <= vipi_id < csr_id * 64 + 64,
        ensures
            r == (VipiWrite { csr_id, mask: 1u64 << (vipi_id - csr_id * 64) as u64 }),
    {
        VirtualIpi::set_vipi_bit(csr_id, vipi_id)
    }

    /// The bit to clear to acknowledge a vipi to `vipi_id`.
    pub fn clear_vipi(vipi_id: u64) -> (r: VipiWrite)
        requires
            1 <= vipi_id <= 255,
        ensures
            r == vipi_write_spec(vipi_id),
    {
        let csr_id = VirtualIpi::vipi_bank(vipi_id);
        VirtualIpi::clear_vipi_bit(csr_id, vipi_id)
    }

    pub fn get_vcpu_id_map(&self, i: u32) -> (r: u64)
        requires
            i < self.vcpu_id_map@.len(),
        ensures
            r == self.vcpu_id_map@[i as int],
    {
        self.vcpu_id_map[i as usize]
    }

    pub fn vcpu_num(&self) -> (r: u32)
        ensures
            r == self.vcpu_num,
    {
        self.vcpu_num
    }
}

/// The vipi writes for the vCPUs below `n` whose bit is set in `hart_mask`.
pub open spec fn send_vipi_spec(map: Seq<u64>, hart_mask: u64, n: int) -> Seq<VipiWrite>
    decreases n,
{
    if n <= 0 {
        Seq::empty()
    } else {
        let prev = send_vipi_spec(map, hart_mask, n - 1);
        if (hart_mask >> (n - 1) as u64) & 1 == 1 {
            prev.push(vipi_write_spec(map[n - 1]))
        } else {
            prev
        }
    }
}

} // verus!
