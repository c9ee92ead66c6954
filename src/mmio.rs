//! The list of guest-physical ranges that belong to emulated devices.
use vstd::prelude::*;
use crate::gparegion::GpaRegion;

verus! {

/// The range fits in the 64-bit address space.
pub open spec fn fits(r: GpaRegion) -> bool {
    r.gpa + r.length <= u64::MAX
}

/// The two ranges share no address.
pub open spec fn disjoint(a: GpaRegion, b: GpaRegion) -> bool {
    a.gpa + a.length <= b.gpa || b.gpa + b.length <= a.gpa
}

/// Every range fits and no two overlap.
pub open spec fn regions_valid(s: Seq<GpaRegion>) -> bool {
    &&& forall|k: int| 0 <= k < s.len() ==> #[trigger] fits(s[k])
    &&& forall|a: int, b: int| 0 <= a < b < s.len() ==> disjoint(#[trigger] s[a], #[trigger] s[b])
}

pub struct MmioManager {
    pub gpa_regions: Vec<GpaRegion>,
}

impl MmioManager {
    /// A manager holding `mmio_regions`, in the order given.
    pub fn new(mmio_regions: Vec<GpaRegion>) -> (r: Self)
        ensures
            r.gpa_regions@ == mmio_regions@,
    {
        let mut gpa_regions: Vec<GpaRegion> = Vec::new();
        let mut i: usize = 0;
        while i < mmio_regions.len()
            invariant
                i <= mmio_regions@.len(),
                gpa_regions@ == mmio_regions@.subrange(0, i as int),
            decreases mmio_regions@.len() - i,
        {
            let region = GpaRegion::new(mmio_regions[i].gpa, mmio_regions[i].length);
            gpa_regions.push(region);
            i = i + 1;
            assert(gpa_regions@ =~= mmio_regions@.subrange(0, i as int));
        }
        assert(gpa_regions@ =~= mmio_regions@);
        Self { gpa_regions }
    }

    pub fn get_gpa_regions(&self) -> (r: &Vec<GpaRegion>)
        ensures
            r@ == self.gpa_regions@,
    {
        &self.gpa_regions
    }

    /// Appends the range `[gpa, gpa + length)`.
    pub fn mmio_add(&mut self, gpa: u64, length: u64)
        ensures
            final(self).gpa_regions@ == old(self).gpa_regions@.push(GpaRegion { gpa, length }),
    {
        let gpa_region = GpaRegion::new(gpa, length);
        self.gpa_regions.push(gpa_region);
    }

    /// Whether the ranges fit in the address space and are pairwise
    /// disjoint.
    pub fn check_valid(&self) -> (r: bool)
        ensures
            r == regions_valid(self.gpa_regions@),
    {
        let regions = &self.gpa_regions;
        let n = regions.len();
        let mut i: usize = 0;
        while i < n
            invariant
                n == regions@.len(),
                regions@ == self.gpa_regions@,
                i <= n,
                forall|k: int| 0 <= k < i ==> #[trigger] fits(regions@[k]),
                forall|a: int, b: int| 0 <= a < b < n && a < i ==> disjoint(#[trigger] regions@[a], #[trigger] regions@[b]),
            decreases n - i,
        {
            let ri = &regions[i];
            if ri.gpa > u64::MAX - ri.length {
                assert(!fits(regions@[i as int]));
                return false;
            }
            let mut j: usize = i + 1;
            while j < n
                invariant
                    n == regions@.len(),
                    regions@ == self.gpa_regions@,
                    i < j <= n,
                    *ri == regions@[i as int],
                    forall|b: int| i < b < j ==> disjoint(regions@[i as int], #[trigger] regions@[b]),
                decreases n - j,
            {
                let rj = &regions[j];
                let separate = (ri.gpa as u128) + (ri.length as u128) <= rj.gpa as u128 || (rj.gpa as u128) + (
                rj.length as u128) <= ri.gpa as u128;
                if !separate {
                    assert(!disjoint(regions@[i as int], regions@[j as int]));
                    assert(!regions_valid(self.gpa_regions@));
                    return false;
                }
                j = j + 1;
            }
            i = i + 1;
        }
        true
    }

    /// Whether `addr` falls inside one of the device ranges.
    pub open spec fn covers(&self, addr: int) -> bool {
        exists|i: int| 0 <= i < self.gpa_regions@.len() && #[trigger] self.gpa_regions@[i].contains(addr)
    }
}

} // verus!
