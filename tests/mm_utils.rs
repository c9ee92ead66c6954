use duvisor::gparegion::GpaRegion;
use duvisor::guestmem::GuestMemory;
use duvisor::hpmallocator::{HpmAllocator, HpmRegion};
use duvisor::mmio::MmioManager;
use duvisor::utils::{hpa_to_va_helper, page_size_round_up, va_to_hpa_helper};

#[test]
fn round_up_keeps_whole_pages() {
    assert_eq!(page_size_round_up(0), 0);
    assert_eq!(page_size_round_up(0x1000), 0x1000);
    assert_eq!(page_size_round_up(1), 0x1000);
    assert_eq!(page_size_round_up(0x1001), 0x2000);
    assert_eq!(page_size_round_up(0x2fff), 0x3000);
}

#[test]
fn linear_translation_in_and_out_of_window() {
    assert_eq!(va_to_hpa_helper(0x5000, 0x3000, 0x5800, 0x2000), Some(0x3800));
    assert_eq!(va_to_hpa_helper(0x5000, 0x3000, 0x4fff, 0x2000), None);
    assert_eq!(va_to_hpa_helper(0x5000, 0x3000, 0x7000, 0x2000), None);
    assert_eq!(hpa_to_va_helper(0x5000, 0x3000, 0x4fff, 0x2000), Some(0x6fff));
    assert_eq!(hpa_to_va_helper(0x5000, 0x3000, 0x5000, 0x2000), None);
}

#[test]
fn test_hpm_region_new() {
    let hpm_region = HpmRegion::new(0x5000, 0x3000, 0x1000);
    assert_eq!(hpm_region.get_hpm_vpr(), 0x5000);
    assert_eq!(hpm_region.get_base_address(), 0x3000);
    assert_eq!(hpm_region.get_length(), 0x1000);
    assert_eq!(hpm_region.va_to_hpa(0x5010), Some(0x3010));
    assert_eq!(hpm_region.hpa_to_va(0x4000), None);
}

#[test]
fn allocator_needs_a_region_first() {
    let mut allocator = HpmAllocator::new(3, 512 << 20);
    assert_eq!(allocator.mem_size, (512 << 20) + (32 << 20));
    assert!(allocator.hpm_alloc(0, 0x2000).is_none());
    assert_eq!(allocator.pmp_buf_size(), (512 << 20) + (32 << 20));
    allocator.add_region(HpmRegion::new(0x10_0000, 0x8000_0000, 0x4000_0000));
    let result = allocator.hpm_alloc(0x3000, 0x2000).unwrap();
    assert_eq!(result.len(), 1);
    assert_eq!(result[0].get_hpm_vpr(), 0x10_3000);
    assert_eq!(result[0].get_base_address(), 0x8000_3000);
    assert_eq!(result[0].get_length(), 0x2000);
    assert!(allocator.hpm_alloc(0, 0x8000_0000).is_none());
}

#[test]
fn small_guest_asks_for_the_default_size() {
    let allocator = HpmAllocator::new(3, 1 << 20);
    assert_eq!(allocator.pmp_buf_size(), 512 << 20);
}

#[test]
fn guest_memory_lookup() {
    let mut mem = GuestMemory::new();
    assert_eq!(mem.num_regions(), 0);
    assert_eq!(mem.query_region(0x8000_0000), None);
    mem.insert_region(0x7f00_0000_0000, 0x8000_0000, 0x1_0000_0000, 0x10_0000);
    assert_eq!(mem.num_regions(), 1);
    assert_eq!(mem.query_region(0x8000_1234), Some((0x7f00_0000_1234, 0x1_0000_1234)));
    assert_eq!(mem.query_region(0x8010_0000), None);
}

#[test]
fn mmio_manager_keeps_order() {
    let regions = vec![GpaRegion::new(0x3f8, 8), GpaRegion::new(0x1000_0000, 0x200)];
    let mut m = MmioManager::new(regions);
    m.mmio_add(0x1000_0200, 0x200);
    let r = m.get_gpa_regions();
    assert_eq!(r.len(), 3);
    assert_eq!(r[0].get_gpa(), 0x3f8);
    assert_eq!(r[2].get_gpa(), 0x1000_0200);
    assert!(m.check_valid());
}

#[test]
fn overlapping_device_ranges_are_refused() {
    let same = MmioManager::new(vec![GpaRegion::new(0x1000, 0x100), GpaRegion::new(0x1000, 0x100)]);
    assert!(!same.check_valid());
    let overlap = MmioManager::new(vec![GpaRegion::new(0x1000, 0x100), GpaRegion::new(0x10ff, 0x10)]);
    assert!(!overlap.check_valid());
    let apart = MmioManager::new(vec![GpaRegion::new(0x1000, 0x100), GpaRegion::new(0x1100, 0x10)]);
    assert!(apart.check_valid());
    let wraps = MmioManager::new(vec![GpaRegion::new(u64::MAX - 1, 0x10)]);
    assert!(!wraps.check_valid());
    assert!(MmioManager::new(Vec::new()).check_valid());
}
