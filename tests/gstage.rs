use duvisor::gparegion::GpaRegion;
use duvisor::gstagemmu::{GStageMmu, MEM_START, PTE_EXECUTE, PTE_READ, PTE_USER, PTE_VALID, PTE_WRITE};
use duvisor::guestmem::GuestMemory;
use duvisor::hpmallocator::{HpmAllocator, HpmRegion};
use duvisor::vcpu::{
    fault_result, finish_vcpu_exit, handle_stage2_page_fault, FaultOutcome, EXC_INST_GUEST_PAGE_FAULT,
    EXC_LOAD_GUEST_PAGE_FAULT, EXC_STORE_GUEST_PAGE_FAULT,
};
use duvisor::vcpucontext::VcpuCtx;

const PT_HPA: u64 = 0x1_0000_0000;

fn mmu_with(mmio: Vec<GpaRegion>, mem_size: u64) -> GStageMmu {
    let mut allocator = HpmAllocator::new(3, mem_size);
    allocator.add_region(HpmRegion::new(0x7f00_0000_0000, PT_HPA, 0x4000_0000));
    GStageMmu::new(allocator, mem_size, GuestMemory::new(), mmio).unwrap()
}

fn mmu() -> GStageMmu {
    mmu_with(Vec::new(), 1 << 30)
}

#[test]
fn new_mmu_has_root_and_no_mapping() {
    let m = mmu();
    assert_eq!(m.page_table.free_offset, 16384);
    assert_eq!(m.page_table.words.len(), 2048);
    assert!(m.page_table.words.iter().all(|w| *w == 0));
    assert!(m.map_query(0x1000).is_none());
    assert_eq!(m.get_pt_region().get_paddr(), PT_HPA);
}

#[test]
fn map_then_query_gives_leaf() {
    let mut m = mmu();
    let flags = PTE_READ | PTE_WRITE | PTE_USER;
    assert_eq!(m.map_page(0x1000, 0x2000, flags), Some(0));
    let pte = m.map_query(0x1000).unwrap();
    assert_eq!(pte.get_level(), 2);
    assert_eq!(pte.get_value() >> 10, 0x2000 >> 12);
    assert_eq!(pte.get_value() & 0x3ff, flags | PTE_VALID);
    assert!(pte.is_leaf());
    // two new tables: one below the root, one below that
    assert_eq!(m.page_table.free_offset, 16384 + 2 * 4096);
}

#[test]
fn map_page_walk_indices() {
    let mut m = mmu();
    let gpa: u64 = (3 << 30) | (5 << 21) | (7 << 12);
    assert_eq!(m.map_page(gpa, 0x9000, PTE_READ), Some(0));
    let offsets = m.gpa_to_ptregion_offset(gpa).unwrap();
    assert_eq!(offsets[0], 3 * 8);
    assert_eq!(offsets[1], 16384 + 5 * 8);
    assert_eq!(offsets[2], 16384 + 4096 + 7 * 8);
    let root = m.page_table.words[3];
    assert_eq!(root & 0x3ff, PTE_VALID);
    assert_eq!((root >> 10) << 12, PT_HPA + 16384);
    let leaf = m.page_table.words[(16384 + 4096) / 8 + 7];
    assert_eq!(leaf, ((0x9000 >> 12) << 10) | PTE_READ | PTE_VALID);
}

#[test]
fn test_map_page_invalid_hpa() {
    let mut m = mmu();
    assert_eq!(m.map_page(0x1000, 0x2001, PTE_READ), None);
    assert_eq!(m.page_table.free_offset, 16384);
}

#[test]
fn test_map_page_invalid_gpa() {
    let mut m = mmu();
    assert_eq!(m.map_page(0x1001, 0x2000, PTE_READ), None);
    assert!(m.map_query(0x1000).is_none());
}

#[test]
fn unmap_releases_empty_tables() {
    let mut m = mmu();
    m.map_page(0x1000, 0x2000, PTE_READ | PTE_EXECUTE);
    assert_eq!(m.unmap_page(0x1000), Some(0));
    assert!(m.map_query(0x1000).is_none());
    assert_eq!(m.page_table.words[0], 0);
    assert_eq!(m.unmap_page(0x1001), None);
}

#[test]
fn unmap_keeps_tables_still_in_use() {
    let mut m = mmu();
    m.map_page(0x1000, 0x2000, PTE_READ);
    m.map_page(0x3000, 0x4000, PTE_READ);
    assert_eq!(m.unmap_page(0x1000), Some(0));
    assert!(m.map_query(0x1000).is_none());
    // the tables above stay, since 0x3000 still uses them
    assert_ne!(m.page_table.words[0], 0);
    assert_eq!(m.map_query(0x3000).unwrap().get_level(), 2);
}

#[test]
fn map_range_and_unmap_range() {
    let mut m = mmu();
    assert_eq!(m.map_range(0x1000, 0x2000, 0x2000, PTE_READ | PTE_WRITE | PTE_EXECUTE), Some(0));
    assert_eq!(m.map_query(0x1000).unwrap().get_value() >> 10, 0x2);
    assert_eq!(m.map_query(0x2000).unwrap().get_value() >> 10, 0x3);
    assert_eq!(m.map_range(0x1000, 0x2000, 0x1001, PTE_READ), None);
    assert_eq!(m.unmap_range(0x1000, 0x2000), Some(0));
    assert!(m.map_query(0x1000).is_none());
    assert!(m.map_query(0x2000).is_none());
    assert_eq!(m.unmap_range(0x1000, 0x10), None);
}

#[test]
fn test_map_protect() {
    let mut m = mmu();
    m.map_page(0x1000, 0x5000, PTE_READ | PTE_WRITE | PTE_EXECUTE);
    assert_eq!(m.map_protect(0x1000, PTE_READ | PTE_EXECUTE), Some(0));
    let pte = m.map_query(0x1000).unwrap();
    assert_eq!(pte.get_value() >> 10, 0x5);
    assert_eq!(pte.get_value() & 0x3ff, PTE_READ | PTE_EXECUTE | PTE_VALID);
    assert_eq!(m.map_protect(0x40_0000, PTE_READ), None);
}

#[test]
fn memory_regions_fill_gaps_between_devices() {
    let mmio = vec![GpaRegion::new(0x3f8, 8), GpaRegion::new(0xc00_0000, 0x400_0000)];
    let m = mmu_with(mmio, 0x1000_0000);
    let r = m.get_mem_gpa_regions();
    assert_eq!(r.len(), 3);
    assert_eq!((r[0].get_gpa(), r[0].get_length()), (0, 0x3f8));
    assert_eq!((r[1].get_gpa(), r[1].get_length()), (0x400, 0xc00_0000 - 0x400));
    assert_eq!((r[2].get_gpa(), r[2].get_length()), (0x1000_0000, MEM_START + 0x1000_0000 - 0x1000_0000));
    assert!(m.check_gpa(0x0));
    assert!(!m.check_gpa(0x3f8));
    assert!(m.check_mmio(0x3f8));
    assert!(m.check_mmio(0xc00_0000));
    assert!(!m.check_mmio(0x500));
    assert!(!m.check_gpa(MEM_START + 0x1000_0000));
}

#[test]
fn test_gpa_block_add() {
    let mut m = mmu_with(Vec::new(), 1 << 20);
    assert_eq!(m.gpa_block_query(MEM_START), None);
    let (hva, hpa) = m.gpa_block_add(MEM_START + 0x2000, 0x1000).unwrap();
    assert_eq!(hpa, PT_HPA + 0x2000);
    assert_eq!(hva, 0x7f00_0000_0000 + 0x2000);
    assert_eq!(m.guest_mem.num_regions(), 1);
    assert_eq!(m.gpa_block_query(MEM_START + 0x5123), Some((0x7f00_0000_5123, PT_HPA + 0x5123)));
}

#[test]
fn gpa_block_add_without_room_fails() {
    let mut allocator = HpmAllocator::new(3, 1 << 20);
    allocator.add_region(HpmRegion::new(0x7f00_0000_0000, PT_HPA, 0x200_0000));
    let mut m = GStageMmu::new(allocator, 1 << 20, GuestMemory::new(), Vec::new()).unwrap();
    assert_eq!(m.gpa_block_add(MEM_START, 0x400_0000), Err(0));
}

#[test]
fn read_only_page_refuses_store() {
    let mut m = mmu();
    m.map_page(0x3000, 0x3000, PTE_READ | PTE_WRITE | PTE_EXECUTE);
    m.map_protect(0x3000, PTE_READ);
    let outcome = handle_stage2_page_fault(&mut m, EXC_STORE_GUEST_PAGE_FAULT, 0x3000);
    assert_eq!(outcome, FaultOutcome::NoPermission);
    let ret = fault_result(outcome);
    let mut ctx = VcpuCtx::new();
    finish_vcpu_exit(&mut ctx, ret);
    assert_eq!(ctx.get_host_gpreg(0), 2);
    assert_eq!(handle_stage2_page_fault(&mut m, EXC_LOAD_GUEST_PAGE_FAULT, 0x3008), FaultOutcome::Resolved);
}

#[test]
fn execute_only_page_refuses_fetch_elsewhere() {
    let mut m = mmu();
    m.map_page(0x3000, 0x3000, PTE_READ | PTE_WRITE | PTE_EXECUTE);
    m.map_protect(0x3000, PTE_READ | PTE_WRITE);
    let outcome = handle_stage2_page_fault(&mut m, EXC_INST_GUEST_PAGE_FAULT, 0x3000);
    assert_eq!(outcome, FaultOutcome::NoPermission);
    let mut ctx = VcpuCtx::new();
    finish_vcpu_exit(&mut ctx, fault_result(outcome));
    assert_eq!(ctx.get_host_gpreg(0), 2);
}

#[test]
fn fault_on_unmapped_ram_maps_a_fresh_page() {
    let mut m = mmu_with(Vec::new(), 1 << 30);
    let gpa = MEM_START + 0x5000;
    assert_eq!(handle_stage2_page_fault(&mut m, EXC_LOAD_GUEST_PAGE_FAULT, gpa + 0x10), FaultOutcome::Resolved);
    let pte = m.map_query(gpa).unwrap();
    assert_eq!(pte.get_level(), 2);
    assert_eq!(pte.get_value() & 0x1f, 0x1f);
    assert_eq!(pte.get_value() >> 10, (PT_HPA + 0x5000) >> 12);
}

#[test]
fn fault_classification_by_range() {
    let mmio = vec![GpaRegion::new(0x1000_0000, 0x200)];
    let mut m = mmu_with(mmio, 1 << 20);
    assert_eq!(
        handle_stage2_page_fault(&mut m, EXC_LOAD_GUEST_PAGE_FAULT, 0x1000_0010),
        FaultOutcome::Mmio(0x1000_0010)
    );
    assert_eq!(handle_stage2_page_fault(&mut m, EXC_LOAD_GUEST_PAGE_FAULT, 0xc00_1234), FaultOutcome::Resolved);
    let pte = m.map_query(0xc00_1000).unwrap();
    assert_eq!(pte.get_value() >> 10, 0xc00_1000 >> 12);
    assert_eq!(
        handle_stage2_page_fault(&mut m, EXC_LOAD_GUEST_PAGE_FAULT, 0x1_0000_0000_0000),
        FaultOutcome::IllegalGpa
    );
}

#[test]
fn overlapping_devices_give_no_mmu() {
    let mut allocator = HpmAllocator::new(3, 1 << 20);
    allocator.add_region(HpmRegion::new(0x7f00_0000_0000, PT_HPA, 0x4000_0000));
    let mmio = vec![GpaRegion::new(0x3f8, 8), GpaRegion::new(0x3fc, 8)];
    assert!(GStageMmu::new(allocator, 1 << 20, GuestMemory::new(), mmio).is_none());
}

#[test]
fn unmap_range_clears_every_page() {
    let mut m = mmu();
    for k in 0..4u64 {
        m.map_page(0x10_0000 + 0x1000 * k, 0x20_0000 + 0x1000 * k, PTE_READ);
    }
    assert_eq!(m.unmap_range(0x10_0000, 0x3000), Some(0));
    for k in 0..3u64 {
        assert!(m.map_query(0x10_0000 + 0x1000 * k).is_none());
    }
    assert_eq!(m.map_query(0x10_3000).unwrap().get_level(), 2);
}

#[test]
fn map_range_refuses_without_room() {
    let mut allocator = HpmAllocator::new(3, 1 << 20);
    allocator.add_region(HpmRegion::new(0x7f00_0000_0000, PT_HPA, 0x200_0000));
    let mut m = GStageMmu::new(allocator, 1 << 20, GuestMemory::new(), Vec::new()).unwrap();
    let free = m.page_table.free_offset;
    assert_eq!(m.map_range(0, 0x1000, 0x200_0000, PTE_READ), None);
    assert_eq!(m.page_table.free_offset, free);
    assert_eq!(m.map_range(0, 0x1000, 0x3000, PTE_READ), Some(0));
    for k in 0..3u64 {
        assert_eq!(m.map_query(0x1000 * k).unwrap().get_value() >> 10, 1 + k);
    }
}

#[test]
fn fault_without_room_reports_out_of_memory() {
    let mut allocator = HpmAllocator::new(3, 1 << 36);
    allocator.add_region(HpmRegion::new(0x7f00_0000_0000, PT_HPA, 0x200_0000));
    let mut m = GStageMmu::new(allocator, 1 << 36, GuestMemory::new(), Vec::new()).unwrap();
    // use up the page-table arena: each of these needs a new table
    let mut full = false;
    'fill: for a in 0..2048u64 {
        for b in 0..512u64 {
            if m.map_page((a << 30) | (b << 21), 0x1000, PTE_READ).is_none() {
                full = true;
                break 'fill;
            }
        }
    }
    assert!(full);
    let page: u64 = 40 << 30;
    let out = handle_stage2_page_fault(&mut m, EXC_LOAD_GUEST_PAGE_FAULT, page);
    assert_eq!(out, FaultOutcome::OutOfMemory);
    assert!(m.map_query(page).is_none());
}
