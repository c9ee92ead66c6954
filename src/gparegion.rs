//! Half-open ranges of guest-physical addresses.
use vstd::prelude::*;

verus! {

/// The guest-physical range `[gpa, gpa + length)`.
pub struct GpaRegion {
    pub gpa: u64,
    pub length: u64,
}

impl GpaRegion {
    pub open spec fn contains(&self, addr: int) -> bool {
        self.gpa <= addr < self.gpa + self.length
    }

    pub fn new(gpa: u64, length: u64) -> (r: Self)
        ensures
            r.gpa == gpa,
            r.length == length,
    {
        Self { gpa, length }
    }

    pub fn get_gpa(&self) -> (r: u64)
        ensures
            r == self.gpa,
    {
        self.gpa
    }

    pub fn get_length(&self) -> (r: u64)
        ensures
            r == self.length,
    {
        self.length
    }
}

} // verus!
