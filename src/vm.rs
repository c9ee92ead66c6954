//! The state a guest's vCPUs share: its identifier, the driver handle and
//! the stage-2 MMU.
use vstd::prelude::*;
use crate::gstagemmu::{GStageMmu, MEM_START};
use crate::hpmallocator::alloc_spec;
use crate::utils::round_up_spec;

verus! {

pub struct VmSharedState {
    pub vm_id: u64,
    pub ioctl_fd: i32,
    pub gsmmu: GStageMmu,
}

impl VmSharedState {
    pub fn new(ioctl_fd: i32, gsmmu: GStageMmu, vm_id: u64) -> (r: Self)
        ensures
            r.vm_id == vm_id,
            r.ioctl_fd == ioctl_fd,
            r.gsmmu == gsmmu,
    {
        Self { vm_id, ioctl_fd, gsmmu }
    }

    pub fn get_vmid(&self) -> (r: u64)
        ensures
            r == self.vm_id,
    {
        self.vm_id
    }

    pub fn get_ioctl_fd(&self) -> (r: i32)
        ensures
            r == self.ioctl_fd,
    {
        self.ioctl_fd
    }

    pub fn get_gsmmu(&self) -> (r: &GStageMmu)
        ensures
            *r == self.gsmmu,
    {
        &self.gsmmu
    }

    /// The host page number of the stage-2 root table.
    pub fn get_pt_pfn(&self) -> (r: u64)
        ensures
            r == self.gsmmu.page_table.paddr >> 12u64,
    {
        self.gsmmu.get_pt_region().get_paddr() >> 12
    }

    /// Maps a page through the shared MMU, as [`GStageMmu::map_page`] does.
    pub fn map_page(&mut self, gpa: u64, hpa: u64, flag: u64) -> (r: Option<u32>)
        requires
            old(self).gsmmu.wf(),
        ensures
            final(self).gsmmu.wf(),
            final(self).vm_id == old(self).vm_id,
            final(self).ioctl_fd == old(self).ioctl_fd,
            r is Some <==> gpa % 4096 == 0 && hpa % 4096 == 0 && old(self).gsmmu.tables_needed(gpa) * 4096
                <= old(self).gsmmu.page_table.length - old(self).gsmmu.page_table.free_offset,
            r is None ==> final(self).gsmmu == old(self).gsmmu,
            r is Some ==> (final(self).gsmmu.query_spec(gpa) matches Some(pte) && pte.level == 2 && pte.value
                == crate::gstagemmu::leaf_pte(hpa, flag)),
    {
        self.gsmmu.map_page(gpa, hpa, flag)
    }

    /// Reserves a guest block through the shared MMU, as
    /// [`GStageMmu::gpa_block_add`] does.
    pub fn gpa_block_add(&mut self, gpa: u64, length: u64) -> (r: Result<(u64, u64), u64>)
        requires
            old(self).gsmmu.wf(),
            gpa % 4096 == 0,
            gpa >= MEM_START,
            length <= u64::MAX - 4095,
        ensures
            final(self).gsmmu.wf(),
            final(self).vm_id == old(self).vm_id,
            final(self).ioctl_fd == old(self).ioctl_fd,
            match alloc_spec(
                old(self).gsmmu.allocator.hpm_region_list@,
                (gpa - MEM_START) as u64,
                round_up_spec(length as int) as u64,
            ) {
                Some(region) => r == Ok::<(u64, u64), u64>((region.hpm_vptr, region.base_address)),
                None => r == Err::<(u64, u64), u64>(0),
            },
            old(self).gsmmu.guest_mem.regions@.len() == 0 && gpa - MEM_START < old(self).gsmmu.mem_size ==> (r matches Ok(
                p,
            ) ==> final(self).gsmmu.block_query_spec(gpa) == Some(p)),
    {
        self.gsmmu.gpa_block_add(gpa, length)
    }
}

} // verus!
