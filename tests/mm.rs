use duvisor::gparegion::GpaRegion;
use duvisor::mmio::MmioManager;

#[test]
fn test_gpa_region_new() {
    let gpa = 0x8000;
    let length = 0x2000;
    let gpa_region = GpaRegion::new(gpa, length);

    assert_eq!(gpa_region.gpa, gpa);
    assert_eq!(gpa_region.length, length);
}

#[test]
fn test_mmio_add() {
    let mut gpa: u64 = 0;
    let mut length: u64 = 0;
    let gpa_ans = 0x4000;
    let length_ans = 0x1000;
    let mmio_regions: Vec<GpaRegion> = Vec::new();
    let mut mmio_manager = MmioManager::new(mmio_regions);

    mmio_manager.mmio_add(gpa_ans, length_ans);

    let len = mmio_manager.gpa_regions.len();
    assert_eq!(len, 1);

    for i in mmio_manager.gpa_regions {
        gpa = i.get_gpa();
        length = i.get_length();
    }

    assert_eq!(gpa_ans, gpa);
    assert_eq!(length_ans, length);
}
