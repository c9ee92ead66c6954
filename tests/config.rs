use duvisor::config::{check_config, ConfigError};

fn verify(vcpu: u32, mem: u64, machine: &str, kernel_exists: bool, initrd: Option<bool>, dtb: Option<bool>) -> bool {
    check_config(vcpu, mem, machine.as_bytes(), kernel_exists, initrd, dtb).is_ok()
}

#[test]
fn test_verify_args_normal() {
    assert_eq!(verify(2, 20, "duvisor_virt", true, None, None), true);
}

#[test]
fn test_verify_args_vcpu_count_large_value() {
    assert_eq!(verify(1024, 20, "duvisor_virt", true, None, None), false);
}

#[test]
fn test_verify_args_vcpu_count_zero() {
    assert_eq!(verify(0, 20, "duvisor_virt", true, None, None), false);
}

#[test]
fn test_verify_args_mem_zero() {
    assert_eq!(verify(4, 0, "duvisor_virt", true, None, None), false);
}

#[test]
fn test_verify_args_type_invalid() {
    assert_eq!(verify(4, 1024, "duvisor_virt2", true, None, None), false);
}

#[test]
fn test_verify_args_kernel_img_not_exist() {
    assert_eq!(verify(4, 1024, "duvisor_virt", false, None, None), false);
}

#[test]
fn test_verify_args_initrd_invalid() {
    assert_eq!(verify(4, 1024, "duvisor_virt", true, Some(false), None), false);
}

#[test]
fn test_verify_args_dtb_invalid() {
    assert_eq!(verify(4, 1024, "duvisor_virt", true, None, Some(false)), false);
}

#[test]
fn config_errors_name_the_rule() {
    assert_eq!(check_config(9, 1, b"test_type", true, None, None), Err(ConfigError::VcpuCount));
    assert_eq!(check_config(8, 0, b"test_type", true, None, None), Err(ConfigError::MemorySize));
    assert_eq!(check_config(8, 1, b"duvisor", true, None, None), Err(ConfigError::MachineType));
    assert_eq!(check_config(8, 1, b"test_type", false, None, None), Err(ConfigError::KernelImage));
    assert_eq!(check_config(1, 1, b"test_type", true, Some(false), Some(false)), Err(ConfigError::Initrd));
    assert_eq!(check_config(1, 1, b"test_type", true, Some(true), Some(false)), Err(ConfigError::Dtb));
    assert_eq!(check_config(1, 1, b"test_type", true, Some(true), Some(true)), Ok(()));
}

use duvisor::config::ConfigValues;

fn parse(contents: &str) -> (bool, ConfigValues) {
    let mut v = ConfigValues::new();
    let ok = v.parse_vm_config_file(contents.as_bytes());
    (ok, v)
}

fn check(v: &ConfigValues, smp: u32, mem: u64, kernel: &str, machine: &str, initrd: &str, dtb: &str) {
    assert_eq!(v.vcpu_count, smp);
    assert_eq!(v.mem_size_mb, mem);
    assert_eq!(v.kernel_img_path, kernel.as_bytes());
    assert_eq!(v.machine_type, machine.as_bytes());
    assert_eq!(v.initrd_path, initrd.as_bytes());
    assert_eq!(v.dtb_path, dtb.as_bytes());
}

#[test]
fn test_parse_vm_config_file_normal() {
    let (ok, v) = parse(
        "smp = 3\r\nmemory = 320\r\nkernel = kernel.file\r\ninitrd = initrd.file\r\ndtb = dtb.file\r\nmachine = test_type",
    );
    assert_eq!(true, ok);
    check(&v, 3, 320, "kernel.file", "test_type", "initrd.file", "dtb.file");
}

#[test]
fn test_parse_vm_config_file_smp_invalid() {
    let (ok, v) = parse(
        "smp = asd\r\nmemory = 320\r\nkernel = kernel.file\r\ninitrd = initrd.file\r\ndtb = dtb.file\r\nmachine = test_type",
    );
    assert_eq!(true, ok);
    check(&v, 0, 320, "kernel.file", "test_type", "initrd.file", "dtb.file");
}

#[test]
fn test_parse_vm_config_file_smp_empty() {
    let (ok, v) = parse(
        "smp =\r\nmemory = 320\r\nkernel = kernel.file\r\ninitrd = initrd.file\r\ndtb = dtb.file\r\nmachine = test_type",
    );
    assert_eq!(true, ok);
    check(&v, 0, 320, "kernel.file", "test_type", "initrd.file", "dtb.file");
}

#[test]
fn test_parse_vm_config_file_smp_no_equalsymbol() {
    let (ok, v) = parse(
        "smp\r\nmemory = 320\r\nkernel = kernel.file\r\ninitrd = initrd.file\r\ndtb = dtb.file\r\nmachine = test_type",
    );
    assert_eq!(true, ok);
    check(&v, 0, 320, "kernel.file", "test_type", "initrd.file", "dtb.file");
}

#[test]
fn test_parse_vm_config_file_memory_invalid() {
    let (ok, v) = parse(
        "smp = 3\r\nmemory = asdas\r\nkernel = kernel.file\r\ninitrd = initrd.file\r\ndtb = dtb.file\r\nmachine = test_type",
    );
    assert_eq!(true, ok);
    check(&v, 3, 0, "kernel.file", "test_type", "initrd.file", "dtb.file");
}

#[test]
fn test_parse_vm_config_file_memory_emptry() {
    let (ok, v) = parse(
        "smp = 3\r\nmemory =\r\nkernel = kernel.file\r\ninitrd = initrd.file\r\ndtb = dtb.file\r\nmachine = test_type",
    );
    assert_eq!(true, ok);
    check(&v, 3, 0, "kernel.file", "test_type", "initrd.file", "dtb.file");
}

#[test]
fn test_parse_vm_config_file_memory_no_equalsymbol() {
    let (ok, v) = parse(
        "smp = 3\r\nmemory\r\nkernel = kernel.file\r\ninitrd = initrd.file\r\ndtb = dtb.file\r\nmachine = test_type",
    );
    assert_eq!(true, ok);
    check(&v, 3, 0, "kernel.file", "test_type", "initrd.file", "dtb.file");
}

#[test]
fn test_parse_vm_config_file_multiple_values_in_one_line() {
    let (ok, v) = parse(
        "smp = 3\r\nmemory = 320\r\nkernel = kernel.file = two = three\r\ninitrd = initrd.file\r\ndtb = dtb.file\r\nmachine = test_type",
    );
    assert_eq!(true, ok);
    check(&v, 3, 320, "kernel.file", "test_type", "initrd.file", "dtb.file");
}

#[test]
fn test_parse_vm_config_file_long_string_value() {
    let (ok, v) = parse(
        "smp = 3\r\nmemory = 320\r\nkernel = kernel.file\r\ninitrd = initrd.fileeeeeeeeeeeeeeeeeeeeeeeeee\ndtb = dtb.file\r\nmachine = test_type",
    );
    assert_eq!(true, ok);
    check(&v, 3, 320, "kernel.file", "test_type", "initrd.fileeeeeeeeeeeeeeeeeeeeeeeeee", "dtb.file");
}

#[test]
fn test_parse_vm_config_file_invalid_arg() {
    let (ok, v) = parse(
        "smp = 3\r\nmemory = 320\r\ninvalid = invalid\r\nkernel = kernel.file\r\ninitrd = initrd.file\ndtb = dtb.file\r\nmachine = test_type\r\n",
    );
    assert_eq!(false, ok);
    check(&v, 0, 0, "", "", "", "");
}

#[test]
fn config_numbers_and_blank_lines() {
    let (ok, v) = parse("smp = +7\nmemory = 18446744073709551615\n");
    assert!(ok);
    assert_eq!(v.vcpu_count, 7);
    assert_eq!(v.mem_size_mb, u64::MAX);
    let (_, v) = parse("smp = 4294967296\n");
    assert_eq!(v.vcpu_count, 0);
    let (_, v) = parse("smp = -1\n");
    assert_eq!(v.vcpu_count, 0);
    let (ok, _) = parse("smp = 1\n\nmemory = 2\n");
    assert!(!ok);
    let (ok, v) = parse("");
    assert!(ok);
    assert_eq!(v.vcpu_count, 0);
}
