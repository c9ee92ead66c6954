//! The guest-memory map: which host memory backs which guest-physical range.
use vstd::prelude::*;

verus! {

/// Guest-physical `[gpa_base, gpa_base + size)` backed by host-virtual
/// `hva_base` and host-physical `hpa_base`, at equal offsets.
#[derive(Clone, Copy)]
pub struct MemRegion {
    pub hva_base: u64,
    pub gpa_base: u64,
    pub hpa_base: u64,
    pub size: u64,
}

impl MemRegion {
    pub open spec fn contains(&self, gpa: u64) -> bool {
        self.gpa_base <= gpa && gpa - self.gpa_base < self.size
    }

    /// The `(hva, hpa)` pair at the offset of `gpa`, if it fits in 64 bits.
    pub open spec fn translate(&self, gpa: u64) -> Option<(u64, u64)> {
        let off = gpa - self.gpa_base;
        if self.hva_base + off <= u64::MAX && self.hpa_base + off <= u64::MAX {
            Some(((self.hva_base + off) as u64, (self.hpa_base + off) as u64))
        } else {
            None
        }
    }
}

/// The regions of guest memory, in the order they were inserted.
pub struct GuestMemory {
    pub regions: Vec<MemRegion>,
}

/// Index of the first region, from `start` on, that holds `gpa`.
pub open spec fn first_holding(regions: Seq<MemRegion>, gpa: u64, start: int) -> Option<int>
    decreases regions.len() - start,
{
    if start < 0 || start >= regions.len() {
        None
    } else if regions[start].contains(gpa) {
        Some(start)
    } else {
        first_holding(regions, gpa, start + 1)
    }
}

impl GuestMemory {
    /// What a lookup of `gpa` yields: the translation in the first region
    /// that holds it.
    pub open spec fn lookup(&self, gpa: u64) -> Option<(u64, u64)> {
        match first_holding(self.regions@, gpa, 0) {
            Some(i) => self.regions@[i].translate(gpa),
            None => None,
        }
    }

    pub fn new() -> (r: Self)
        ensures
            r.regions@.len() == 0,
    {
        GuestMemory { regions: Vec::new() }
    }

    pub fn num_regions(&self) -> (r: usize)
        ensures
            r == self.regions@.len(),
    {
        self.regions.len()
    }

    /// Records that guest-physical `gpa_base` onwards is backed at
    /// `hva_base` / `hpa_base` for `size` bytes.
    pub fn insert_region(&mut self, hva_base: u64, gpa_base: u64, hpa_base: u64, size: u64)
        ensures
            final(self).regions@ == old(self).regions@.push(MemRegion { hva_base, gpa_base, hpa_base, size }),
    {
        self.regions.push(MemRegion { hva_base, gpa_base, hpa_base, size });
    }

    /// The host-virtual and host-physical addresses that back `gpa`.
    pub fn query_region(&self, gpa: u64) -> (r: Option<(u64, u64)>)
        ensures
            r == self.lookup(gpa),
    {
        let mut i: usize = 0;
        while i < self.regions.len()
            invariant
                i <= self.regions@.len(),
                first_holding(self.regions@, gpa, 0) == first_holding(self.regions@, gpa, i as int),
            decreases self.regions@.len() - i,
        {
            let r = self.regions[i];
            if r.gpa_base <= gpa && gpa - r.gpa_base < r.size {
                let off = gpa - r.gpa_base;
                match (r.hva_base.checked_add(off), r.hpa_base.checked_add(off)) {
                    (Some(hva), Some(hpa)) => {
                        return Some((hva, hpa));
                    },
                    _ => {
                        return None;
                    },
                }
            }
            i = i + 1;
        }
        None
    }
}

} // verus!
