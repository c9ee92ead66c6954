//! Page arithmetic and linear address translation shared by the memory code.
use vstd::prelude::*;

verus! {

pub const PAGE_SIZE_SHIFT: u64 = 12;
pub const PAGE_SIZE: u64 = 4096;
pub const PAGE_SIZE_MASK: u64 = 4095;
pub const PAGE_SHIFT: u64 = 12;
pub const PAGE_ORDER: u64 = 9;
pub const KB_SHIFT: u64 = 10;
pub const MB_SHIFT: u64 = 20;
pub const PAGE_TABLE_REGION_SIZE: u64 = 0x200_0000;

/// The low twelve bits of `x` are its offset in the page.
pub proof fn lemma_page_mask(x: u64)
    ensures
        x & 0xfff == x % 4096,
        (x & 0xfff == 0) == (x % 4096 == 0),
{
    assert(x & 0xfff == x % 4096) by (bit_vector);
}

/// The smallest multiple of the page size that is not below `length`.
pub open spec fn round_up_spec(length: int) -> int {
    if length % 4096 == 0 {
        length
    } else {
        length - length % 4096 + 4096
    }
}

/// Rounds `length` up to a whole number of pages.
pub fn page_size_round_up(length: u64) -> (r: u64)
    requires
        length <= u64::MAX - 4095,
    ensures
        r == round_up_spec(length as int),
        r % 4096 == 0,
        r >= length,
{
    let low = length & PAGE_SIZE_MASK;
    assert(length & 4095 == length % 4096) by (bit_vector);
    if low == 0 {
        return length;
    }
    let result: u64 = (length - low) + PAGE_SIZE;
    result
}

/// Translation through a linear window `[base_from, base_from + length)` onto
/// `base_to`: the address at the same offset, if `addr` falls in the window.
pub open spec fn linear_spec(base_from: u64, base_to: u64, addr: u64, length: u64) -> Option<u64> {
    if addr < base_from || addr - base_from >= length || addr - base_from + base_to > u64::MAX {
        None
    } else {
        Some((addr - base_from + base_to) as u64)
    }
}

/// The host-physical address of host-virtual `va` in a region mapped at
/// `va_base` onto `hpa_base`.
pub fn va_to_hpa_helper(va_base: u64, hpa_base: u64, va: u64, length: u64) -> (r: Option<u64>)
    ensures
        r == linear_spec(va_base, hpa_base, va, length),
{
    if va < va_base {
        return None;
    }
    let offset: u64 = va - va_base;
    if offset >= length {
        return None;
    }
    offset.checked_add(hpa_base)
}

/// The host-virtual address of host-physical `hpa` in a region mapped at
/// `va_base` onto `hpa_base`.
pub fn hpa_to_va_helper(va_base: u64, hpa_base: u64, hpa: u64, length: u64) -> (r: Option<u64>)
    ensures
        r == linear_spec(hpa_base, va_base, hpa, length),
{
    if hpa < hpa_base {
        return None;
    }
    let offset: u64 = hpa - hpa_base;
    if offset >= length {
        return None;
    }
    offset.checked_add(va_base)
}

} // verus!
