//! Host-physical memory regions handed out by the driver, and the allocator
//! that carves guest blocks and page-table space out of them.
use vstd::prelude::*;
use crate::utils::{linear_spec, va_to_hpa_helper, hpa_to_va_helper, PAGE_TABLE_REGION_SIZE};

verus! {

/// Size of the physical region asked of the driver when the guest is small.
pub const DEFAULT_PMP_SIZE: u64 = 0x2000_0000;

/// A contiguous host region: mapped at `hpm_vptr` in this process and at
/// `base_address` in host-physical memory.
#[derive(Clone, Copy)]
pub struct HpmRegion {
    pub hpm_vptr: u64,
    pub base_address: u64,
    pub length: u64,
    pub offset: u64,
}

impl HpmRegion {
    pub fn new(hpm_vptr: u64, base_address: u64, length: u64) -> (r: Self)
        ensures
            r.hpm_vptr == hpm_vptr,
            r.base_address == base_address,
            r.length == length,
            r.offset == 0,
    {
        Self { hpm_vptr, base_address, length, offset: 0 }
    }

    pub fn get_hpm_vpr(&self) -> (r: u64)
        ensures
            r == self.hpm_vptr,
    {
        self.hpm_vptr
    }

    pub fn get_base_address(&self) -> (r: u64)
        ensures
            r == self.base_address,
    {
        self.base_address
    }

    pub fn get_length(&self) -> (r: u64)
        ensures
            r == self.length,
    {
        self.length
    }

    pub fn va_to_hpa(&self, va: u64) -> (r: Option<u64>)
        ensures
            r == linear_spec(self.hpm_vptr, self.base_address, va, self.length),
    {
        va_to_hpa_helper(self.hpm_vptr, self.base_address, va, self.length)
    }

    pub fn hpa_to_va(&self, hpa: u64) -> (r: Option<u64>)
        ensures
            r == linear_spec(self.base_address, self.hpm_vptr, hpa, self.length),
    {
        hpa_to_va_helper(self.hpm_vptr, self.base_address, hpa, self.length)
    }

    /// Whether `length` more bytes fit after the part already used.
    pub open spec fn fits(&self, length: u64) -> bool {
        self.offset <= self.length && length <= self.length - self.offset
    }
}

/// Hands out host-physical memory from the regions that the driver reserved.
pub struct HpmAllocator {
    pub hpm_region_list: Vec<HpmRegion>,
    pub ioctl_fd: i32,
    pub mem_size: u64,
}

/// Index of the first region, from `start` on, where `length` bytes fit.
pub open spec fn first_fit(list: Seq<HpmRegion>, length: u64, start: int) -> Option<int>
    decreases list.len() - start,
{
    if start < 0 || start >= list.len() {
        None
    } else if list[start].fits(length) {
        Some(start)
    } else {
        first_fit(list, length, start + 1)
    }
}

/// The block that an allocation of `length` bytes at `gpa_offset` yields.
pub open spec fn alloc_spec(list: Seq<HpmRegion>, gpa_offset: u64, length: u64) -> Option<HpmRegion> {
    match first_fit(list, length, 0) {
        Some(i) => {
            let t = list[i];
            if t.hpm_vptr + gpa_offset <= u64::MAX && t.base_address + gpa_offset <= u64::MAX {
                Some(
                    HpmRegion {
                        hpm_vptr: (t.hpm_vptr + gpa_offset) as u64,
                        base_address: (t.base_address + gpa_offset) as u64,
                        length,
                        offset: 0,
                    },
                )
            } else {
                None
            }
        },
        None => None,
    }
}

impl HpmAllocator {
    /// An allocator with no region yet, for a guest of `mem_size` bytes plus
    /// the page-table arena.
    pub fn new(ioctl_fd: i32, mem_size: u64) -> (r: Self)
        requires
            mem_size <= u64::MAX - PAGE_TABLE_REGION_SIZE,
        ensures
            r.hpm_region_list@.len() == 0,
            r.ioctl_fd == ioctl_fd,
            r.mem_size == mem_size + PAGE_TABLE_REGION_SIZE,
    {
        Self { hpm_region_list: Vec::new(), ioctl_fd, mem_size: mem_size + PAGE_TABLE_REGION_SIZE }
    }

    /// The size of the next region to ask of the driver: the default, or the
    /// whole budget when that is not smaller.
    pub fn pmp_buf_size(&self) -> (r: u64)
        ensures
            r == (if DEFAULT_PMP_SIZE <= self.mem_size { self.mem_size } else { DEFAULT_PMP_SIZE }),
    {
        if DEFAULT_PMP_SIZE <= self.mem_size {
            self.mem_size
        } else {
            DEFAULT_PMP_SIZE
        }
    }

    /// Records a region that the driver reserved.
    pub fn add_region(&mut self, region: HpmRegion)
        ensures
            final(self).hpm_region_list@ == old(self).hpm_region_list@.push(region),
            final(self).ioctl_fd == old(self).ioctl_fd,
            final(self).mem_size == old(self).mem_size,
    {
        self.hpm_region_list.push(region);
    }

    /// The first region with `length` bytes left.
    pub fn find_hpm_region_by_length(&self, length: u64) -> (r: Option<HpmRegion>)
        ensures
            r == (match first_fit(self.hpm_region_list@, length, 0) {
                Some(i) => Some(self.hpm_region_list@[i]),
                None => None::<HpmRegion>,
            }),
    {
        let mut i: usize = 0;
        while i < self.hpm_region_list.len()
            invariant
                i <= self.hpm_region_list@.len(),
                first_fit(self.hpm_region_list@, length, 0) == first_fit(self.hpm_region_list@, length, i as int),
            decreases self.hpm_region_list@.len() - i,
        {
            let region = self.hpm_region_list[i];
            if region.offset <= region.length && length <= region.length - region.offset {
                return Some(region);
            }
            i = i + 1;
        }
        None
    }

    /// A block of `length` bytes at `gpa_offset` into the first region that
    /// has room: `None` when no region has room (the caller then reserves one
    /// more) or when the addresses would leave the 64-bit space.
    pub fn hpm_alloc(&mut self, gpa_offset: u64, length: u64) -> (r: Option<Vec<HpmRegion>>)
        ensures
            *final(self) == *old(self),
            match r {
                Some(v) => alloc_spec(old(self).hpm_region_list@, gpa_offset, length) == Some(v@[0])
                    && v@.len() == 1,
                None => alloc_spec(old(self).hpm_region_list@, gpa_offset, length) is None,
            },
    {
        match self.find_hpm_region_by_length(length) {
            Some(target) => {
                let va = target.hpm_vptr.checked_add(gpa_offset);
                let pa = target.base_address.checked_add(gpa_offset);
                match (va, pa) {
                    (Some(result_va), Some(result_pa)) => {
                        let mut result: Vec<HpmRegion> = Vec::new();
                        result.push(HpmRegion::new(result_va, result_pa, length));
                        Some(result)
                    },
                    _ => None,
                }
            },
            None => None,
        }
    }

    pub fn set_ioctl_fd(&mut self, ioctl_fd: i32)
        ensures
            final(self).ioctl_fd == ioctl_fd,
            final(self).hpm_region_list@ == old(self).hpm_region_list@,
            final(self).mem_size == old(self).mem_size,
    {
        self.ioctl_fd = ioctl_fd;
    }
}

} // verus!
