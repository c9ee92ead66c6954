use duvisor::dtb::{
    memory_reg_cells, plic_interrupts_extended, DeviceTree, DtbConfig, MachineMeta, INITRD_END, INITRD_START, MEM_START,
};
use duvisor::vplic::VPlic;

#[test]
fn test_dtb_memory() {
    let mem_size_mb: u64 = 1024;
    let cells = memory_reg_cells(mem_size_mb << 20);
    assert_eq!(cells, vec![0, MEM_START, 0, (mem_size_mb << 20) as u32]);
    let big = memory_reg_cells(0x3_4000_0000);
    assert_eq!(big, vec![0, 0x8000_0000, 3, 0x4000_0000]);
    assert_eq!(((big[2] as u64) << 32) | big[3] as u64, 0x3_4000_0000);
}

#[test]
fn interrupt_wiring_per_cpu() {
    assert_eq!(
        plic_interrupts_extended(2),
        vec![2, 0xffff_ffff, 2, 0xffff_ffff, 2, 9, 3, 0xffff_ffff, 3, 0xffff_ffff, 3, 9]
    );
    assert_eq!(plic_interrupts_extended(0), Vec::<u32>::new());
}

#[test]
fn generated_tree() {
    let cfg = DtbConfig {
        vcpu_count: 2,
        mem_size: 1 << 30,
        bootargs: String::from("console=ttyS0"),
        need_virtio_blk: true,
        need_vmtap: false,
    };
    let t = DeviceTree::new(&cfg).unwrap();
    let blob = t.get_dtb();
    assert_eq!(&blob[0..4], &[0xd0, 0x0d, 0xfe, 0xed]);
    assert_eq!(t.get_initrd_start(), INITRD_START);
    assert_eq!(t.get_initrd_end(), INITRD_END);
    let needle = b"linux,dummy-virt";
    assert!(blob.windows(needle.len()).any(|w| w == needle));
    let cpu = b"cpu@1";
    assert!(blob.windows(cpu.len()).any(|w| w == cpu));
    let blk = b"virtio@268435456";
    assert!(blob.windows(blk.len()).any(|w| w == blk));
}

#[test]
fn reg_lists_decode() {
    let mut m = MachineMeta::new();
    m.soc_parse(&[0, 0x1000_0000, 0, 0x200, 1, 2, 0, 0x1000], 2, 2);
    assert_eq!(m.soc_regions.len(), 2);
    assert_eq!((m.soc_regions[0].offset, m.soc_regions[0].size), (0x1000_0000, 0x200));
    assert_eq!((m.soc_regions[1].offset, m.soc_regions[1].size), (0x1_0000_0002, 0x1000));
    m.memory_parse(&[0x8000_0000, 0x4000_0000], 1, 1);
    assert_eq!((m.memory_regions[0].offset, m.memory_regions[0].size), (0x8000_0000, 0x4000_0000));
    m.initrd_parse(&[0, 0x8539_07f8], 2, 2, 0);
    assert_eq!(m.initrd_region.start, 0x8539_07f8);
    m.initrd_parse(&[0x87ff_fff8], 2, 1, 1);
    assert_eq!(m.initrd_region.end, 0x87ff_fff8);
    m.apply();
    assert_eq!(m.initrd_region.start, INITRD_START);
}

#[test]
fn posted_interrupt_word() {
    let v = VPlic::new(0x7000_0000);
    assert_eq!(v.pending_vector, 0x7000_0000 + 0x1f0_0000);
    assert!(VPlic::check_virt_irq(0x80));
    assert!(!VPlic::check_virt_irq(11));
    assert_eq!(v.send_posted_interrupt(0x83), Some(1 << 3));
    assert_eq!(v.send_posted_interrupt(11), None);
}
