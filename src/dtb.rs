//! The device tree handed to the guest: the values it carries (memory
//! range, interrupt wiring, initrd range), the tree itself built through
//! vm-fdt, and the decoding of `reg`-style cell lists.
use vstd::prelude::*;
use vm_fdt::{FdtWriter, FdtWriterNode};

verus! {

pub const DTB_GPA: u64 = 0x8220_0000;
pub const BLOCK_DEV_MMIO_ADDR: u64 = 0x1000_0000;
pub const BLOCK_DEV_MMIO_LEN: u64 = 0x200;
pub const NET_DEV_MMIO_ADDR: u64 = 0x1000_0200;
pub const NET_DEV_MMIO_LEN: u64 = 0x200;
pub const MEM_START: u32 = 0x8000_0000;
pub const INITRD_START: u64 = 0x8539_07f8;
pub const INITRD_END: u64 = 0x87ff_fff8;
pub const PLIC_HPA: u64 = 0xc00_0000;
pub const PLIC_LENGTH: u64 = 0x400_0000;
pub const VIRT_SERIAL_IRQ: u64 = 11;
pub const VIRT_BLOCK_IRQ: u64 = 12;
pub const VIRT_NET_IRQ: u64 = 13;

/// The most vCPUs the tree describes.
pub const MAX_DTB_CPUS: u32 = 8;

#[verifier::external_type_specification]
#[verifier::external_body]
pub struct ExFdtWriter(vm_fdt::FdtWriter);

#[verifier::external_type_specification]
#[verifier::external_body]
pub struct ExFdtWriterNode(vm_fdt::FdtWriterNode);

#[verifier::external_type_specification]
#[verifier::external_body]
pub struct ExFdtError(vm_fdt::Error);

/// Every property a writer has been given so far, in order: its name and
/// its value bytes.
pub uninterp spec fn fdt_props(w: FdtWriter) -> Seq<(Seq<char>, Seq<u8>)>;

/// Every property a finished blob holds, in order: its name and its value
/// bytes.
pub uninterp spec fn blob_props(b: Seq<u8>) -> Seq<(Seq<char>, Seq<u8>)>;

/// `new` is `old` with one more property, named `name`, at the end.
pub open spec fn extends(old: Seq<(Seq<char>, Seq<u8>)>, new: Seq<(Seq<char>, Seq<u8>)>, name: Seq<char>) -> bool {
    &&& new.len() == old.len() + 1
    &&& forall|i: int| 0 <= i < old.len() ==> #[trigger] new[i] == old[i]
    &&& new[old.len() as int].0 == name
}

/// `new` keeps every property of `old` where it was.
pub open spec fn keeps(old: Seq<(Seq<char>, Seq<u8>)>, new: Seq<(Seq<char>, Seq<u8>)>) -> bool {
    &&& old.len() <= new.len()
    &&& forall|i: int| 0 <= i < old.len() ==> #[trigger] new[i] == old[i]
}

/// The big-endian bytes of a list of cells.
pub open spec fn be_cells(c: Seq<u32>) -> Seq<u8> {
    Seq::new(4 * c.len(), |j: int| ((c[j / 4] >> (8 * (3 - j % 4)) as u32) & 0xff) as u8)
}

/// How deep the writer is in open nodes.
pub uninterp spec fn fdt_depth(w: FdtWriter) -> nat;

/// Whether the writer's last step closed a node (a property may then not
/// follow until another node opens).
pub uninterp spec fn fdt_ended(w: FdtWriter) -> bool;

/// How many bytes the writer holds: its header and structure block plus
/// its strings block.
pub uninterp spec fn fdt_size(w: FdtWriter) -> nat;

/// The depth of the node a handle closes.
pub uninterp spec fn node_depth(n: FdtWriterNode) -> nat;

/// The most nodes that can be open at once.
pub const FDT_MAX_NODE_DEPTH: u64 = 64;

/// The longest node name (before `@`) and property name.
pub const FDT_NAME_MAX_LEN: u64 = 31;

pub open spec fn is_letter(c: char) -> bool {
    ('a' <= c && c <= 'z') || ('A' <= c && c <= 'Z')
}

/// A character a node name may hold.
pub open spec fn node_char(c: char) -> bool {
    ('0' <= c && c <= '9') || is_letter(c) || c == ',' || c == '.' || c == '_' || c == '+' || c == '-'
}

/// A character a property name may hold.
pub open spec fn prop_char(c: char) -> bool {
    node_char(c) || c == '?' || c == '#'
}

pub open spec fn prop_chars_from(s: Seq<char>, i: int) -> bool
    decreases s.len() - i,
{
    if i < 0 || i >= s.len() {
        true
    } else {
        prop_char(s[i]) && prop_chars_from(s, i + 1)
    }
}

/// Every character of `s` from `i` on is a node-name character, but the
/// one at `k`.
pub open spec fn node_chars_except(s: Seq<char>, i: int, k: int) -> bool
    decreases s.len() - i,
{
    if i < 0 || i >= s.len() {
        true
    } else {
        (i == k || node_char(s[i])) && node_chars_except(s, i + 1, k)
    }
}

/// The first `@` of `s` from `i` on, or the length.
pub open spec fn first_at(s: Seq<char>, i: int) -> int
    decreases s.len() - i,
{
    if i < 0 || i >= s.len() {
        s.len() as int
    } else if s[i] == '@' {
        i
    } else {
        first_at(s, i + 1)
    }
}

/// No NUL character in `s` from `i` on.
pub open spec fn no_nul_from(s: Seq<char>, i: int) -> bool
    decreases s.len() - i,
{
    if i < 0 || i >= s.len() {
        true
    } else {
        s[i] != '\0' && no_nul_from(s, i + 1)
    }
}

/// A name vm-fdt takes for a property: 1 to 31 allowed characters.
pub open spec fn valid_prop_name(s: Seq<char>) -> bool {
    0 < s.len() <= FDT_NAME_MAX_LEN && prop_chars_from(s, 0)
}

/// A name vm-fdt takes for a node: empty, or a letter, then allowed
/// characters, at most 31 before an optional single `@` and unit address.
pub open spec fn valid_node_name(s: Seq<char>) -> bool {
    s.len() == 0 || (is_letter(s[0]) && first_at(s, 0) <= FDT_NAME_MAX_LEN && node_chars_except(s, 0, first_at(s, 0)))
}

/// The big-endian bytes of a 64-bit value.
pub open spec fn be_u64(v: u64) -> Seq<u8> {
    Seq::new(8, |j: int| ((v >> (8 * (7 - j)) as u64) & 0xff) as u8)
}

/// The value bytes of a string property: the UTF-8 bytes, then a NUL.
pub open spec fn string_value(s: Seq<char>) -> Seq<u8> {
    vstd::utf8::encode_utf8(s) + seq![0u8]
}

/// Whether a property named `name` with up to `value_len` value bytes can
/// be written: a node is open and not just closed, the name is valid, and
/// the blob stays within 32-bit sizes.
pub open spec fn can_add_prop(w: FdtWriter, name: Seq<char>, value_len: int) -> bool {
    &&& fdt_depth(w) > 0
    &&& !fdt_ended(w)
    &&& valid_prop_name(name)
    &&& fdt_size(w) + 140 + value_len <= u32::MAX
}

/// After a property of up to `value_len` bytes: open nodes unchanged, and
/// at most that many bytes more (name and header included).
pub open spec fn prop_added(old: FdtWriter, new: FdtWriter, value_len: int) -> bool {
    &&& fdt_depth(new) == fdt_depth(old)
    &&& fdt_ended(new) == fdt_ended(old)
    &&& fdt_size(new) <= fdt_size(old) + 140 + value_len
}

/// Relies on vm_fdt::FdtWriter::new, which with no memory reservation
/// always gives an empty writer: no node open, header and empty
/// reservation map only.
#[verifier::external_body]
fn fdt_new() -> (r: Result<FdtWriter, vm_fdt::Error>)
    ensures
        r is Ok,
        r matches Ok(w) ==> fdt_props(w).len() == 0 && fdt_depth(w) == 0 && !fdt_ended(w) && fdt_size(w) <= 64,
{
    FdtWriter::new()
}

/// Relies on vm_fdt::FdtWriter::begin_node, which opens node `name` and
/// writes no property; it fails only on a name it does not take or at the
/// depth limit.
#[verifier::external_body]
fn fdt_begin_node(fdt: &mut FdtWriter, name: &str) -> (r: Result<FdtWriterNode, vm_fdt::Error>)
    ensures
        fdt_props(*final(fdt)) == fdt_props(*old(fdt)),
        fdt_depth(*old(fdt)) < FDT_MAX_NODE_DEPTH && valid_node_name(name@) ==> r is Ok,
        r matches Ok(n) ==> fdt_depth(*final(fdt)) == fdt_depth(*old(fdt)) + 1 && node_depth(n) == fdt_depth(
            *final(fdt),
        ) && !fdt_ended(*final(fdt)) && fdt_size(*final(fdt)) <= fdt_size(*old(fdt)) + 4 * name@.len() + 8,
{
    fdt.begin_node(name)
}

/// Relies on vm_fdt::FdtWriter::end_node, which closes `node` and writes no
/// property; it fails only when `node` is not the innermost open node.
#[verifier::external_body]
fn fdt_end_node(fdt: &mut FdtWriter, node: FdtWriterNode) -> (r: Result<(), vm_fdt::Error>)
    ensures
        fdt_props(*final(fdt)) == fdt_props(*old(fdt)),
        node_depth(node) == fdt_depth(*old(fdt)) ==> r is Ok,
        r is Ok ==> fdt_depth(*old(fdt)) > 0 && fdt_depth(*final(fdt)) == fdt_depth(*old(fdt)) - 1 && fdt_ended(
            *final(fdt),
        ) && fdt_size(*final(fdt)) <= fdt_size(*old(fdt)) + 4,
{
    fdt.end_node(node)
}

/// Relies on vm_fdt::FdtWriter::property_null, which writes property `name`
/// with an empty value.
#[verifier::external_body]
fn fdt_property_null(fdt: &mut FdtWriter, name: &str) -> (r: Result<(), vm_fdt::Error>)
    ensures
        can_add_prop(*old(fdt), name@, 0) ==> r is Ok,
        r is Ok ==> extends(fdt_props(*old(fdt)), fdt_props(*final(fdt)), name@),
        r is Ok ==> fdt_props(*final(fdt)).last().1.len() == 0,
        r is Ok ==> prop_added(*old(fdt), *final(fdt), 0),
{
    fdt.property_null(name)
}

/// Relies on vm_fdt::FdtWriter::property_string, which writes property
/// `name` holding the string's UTF-8 bytes and a NUL, and fails on a
/// string that holds a NUL.
#[verifier::external_body]
fn fdt_property_string(fdt: &mut FdtWriter, name: &str, val: &str) -> (r: Result<(), vm_fdt::Error>)
    ensures
        can_add_prop(*old(fdt), name@, 4 * val@.len() as int + 1) && no_nul_from(val@, 0) ==> r is Ok,
        r is Ok ==> extends(fdt_props(*old(fdt)), fdt_props(*final(fdt)), name@),
        r is Ok ==> fdt_props(*final(fdt)).last().1 == string_value(val@),
        r is Ok ==> prop_added(*old(fdt), *final(fdt), 4 * val@.len() as int + 1),
{
    fdt.property_string(name, val)
}

/// Relies on vm_fdt::FdtWriter::property_u32, which writes property `name`
/// holding one big-endian cell.
#[verifier::external_body]
fn fdt_property_u32(fdt: &mut FdtWriter, name: &str, val: u32) -> (r: Result<(), vm_fdt::Error>)
    ensures
        can_add_prop(*old(fdt), name@, 4) ==> r is Ok,
        r is Ok ==> extends(fdt_props(*old(fdt)), fdt_props(*final(fdt)), name@),
        r is Ok ==> fdt_props(*final(fdt)).last().1 == be_cells(seq![val]),
        r is Ok ==> prop_added(*old(fdt), *final(fdt), 4),
{
    fdt.property_u32(name, val)
}

/// Relies on vm_fdt::FdtWriter::property_u64, which writes property `name`
/// holding the value's 8 big-endian bytes.
#[verifier::external_body]
fn fdt_property_u64(fdt: &mut FdtWriter, name: &str, val: u64) -> (r: Result<(), vm_fdt::Error>)
    ensures
        can_add_prop(*old(fdt), name@, 8) ==> r is Ok,
        r is Ok ==> extends(fdt_props(*old(fdt)), fdt_props(*final(fdt)), name@),
        r is Ok ==> fdt_props(*final(fdt)).last().1 == be_u64(val),
        r is Ok ==> prop_added(*old(fdt), *final(fdt), 8),
{
    fdt.property_u64(name, val)
}

/// Relies on vm_fdt::FdtWriter::property_array_u32, which writes property
/// `name` holding the cells in order, big-endian.
#[verifier::external_body]
fn fdt_property_array_u32(fdt: &mut FdtWriter, name: &str, cells: &Vec<u32>) -> (r: Result<(), vm_fdt::Error>)
    ensures
        can_add_prop(*old(fdt), name@, 4 * cells@.len() as int) ==> r is Ok,
        r is Ok ==> extends(fdt_props(*old(fdt)), fdt_props(*final(fdt)), name@),
        r is Ok ==> fdt_props(*final(fdt)).last().1 == be_cells(cells@),
        r is Ok ==> prop_added(*old(fdt), *final(fdt), 4 * cells@.len() as int),
{
    fdt.property_array_u32(name, cells)
}

/// Relies on vm_fdt::FdtWriter::finish, which returns the blob of every
/// property written; it fails only with a node still open or past 32-bit
/// sizes.
#[verifier::external_body]
fn fdt_finish(fdt: FdtWriter) -> (r: Result<Vec<u8>, vm_fdt::Error>)
    ensures
        fdt_depth(fdt) == 0 && fdt_size(fdt) + 4 <= u32::MAX ==> r is Ok,
        r matches Ok(b) ==> blob_props(b@) == fdt_props(fdt),
{
    fdt.finish()
}

/// The names and string values the tree uses are ones vm-fdt takes.
proof fn lemma_dtb_names()
    ensures
        valid_node_name(""@) && ""@.len() <= 32,
        valid_node_name("chosen"@) && "chosen"@.len() <= 32,
        valid_node_name("memory"@) && "memory"@.len() <= 32,
        valid_node_name("cpus"@) && "cpus"@.len() <= 32,
        valid_node_name("smb"@) && "smb"@.len() <= 32,
        valid_node_name("interrupt-controller@0c000000"@) && "interrupt-controller@0c000000"@.len() <= 32,
        valid_node_name("U6_16550A@3f8"@) && "U6_16550A@3f8"@.len() <= 32,
        valid_node_name("aliases"@) && "aliases"@.len() <= 32,
        valid_node_name("interrupt-controller"@) && "interrupt-controller"@.len() <= 32,
        valid_node_name("cpu@0"@) && "cpu@0"@.len() <= 32,
        valid_node_name("cpu@1"@) && "cpu@1"@.len() <= 32,
        valid_node_name("cpu@2"@) && "cpu@2"@.len() <= 32,
        valid_node_name("cpu@3"@) && "cpu@3"@.len() <= 32,
        valid_node_name("cpu@4"@) && "cpu@4"@.len() <= 32,
        valid_node_name("cpu@5"@) && "cpu@5"@.len() <= 32,
        valid_node_name("cpu@6"@) && "cpu@6"@.len() <= 32,
        valid_node_name("cpu@7"@) && "cpu@7"@.len() <= 32,
        valid_node_name("virtio@268435456"@) && "virtio@268435456"@.len() <= 32,
        valid_node_name("virtio@268435968"@) && "virtio@268435968"@.len() <= 32,
        valid_prop_name("compatible"@),
        valid_prop_name("#address-cells"@),
        valid_prop_name("#size-cells"@),
        valid_prop_name("bootargs"@),
        valid_prop_name("stdout-path"@),
        valid_prop_name("linux,initrd-start"@),
        valid_prop_name("linux,initrd-end"@),
        valid_prop_name("device_type"@),
        valid_prop_name("reg"@),
        valid_prop_name("timebase-frequency"@),
        valid_prop_name("mmu-type"@),
        valid_prop_name("riscv,isa"@),
        valid_prop_name("status"@),
        valid_prop_name("#interrupt-cells"@),
        valid_prop_name("interrupt-controller"@),
        valid_prop_name("phandle"@),
        valid_prop_name("interrupt-parent"@),
        valid_prop_name("ranges"@),
        valid_prop_name("riscv,max-priority"@),
        valid_prop_name("riscv,ndev"@),
        valid_prop_name("interrupts-extended"@),
        valid_prop_name("interrupts"@),
        valid_prop_name("clock-frequency"@),
        valid_prop_name("dma-coherent"@),
        valid_prop_name("serial0"@),
        no_nul_from("linux,dummy-virt"@, 0) && "linux,dummy-virt"@.len() <= 32,
        no_nul_from("sbi"@, 0) && "sbi"@.len() <= 32,
        no_nul_from("memory"@, 0) && "memory"@.len() <= 32,
        no_nul_from("cpu"@, 0) && "cpu"@.len() <= 32,
        no_nul_from("riscv"@, 0) && "riscv"@.len() <= 32,
        no_nul_from("riscv,sv48"@, 0) && "riscv,sv48"@.len() <= 32,
        no_nul_from("rv64imafdcsu"@, 0) && "rv64imafdcsu"@.len() <= 32,
        no_nul_from("okay"@, 0) && "okay"@.len() <= 32,
        no_nul_from("riscv,cpu-intc"@, 0) && "riscv,cpu-intc"@.len() <= 32,
        no_nul_from("simple-bus"@, 0) && "simple-bus"@.len() <= 32,
        no_nul_from("riscv,plic0"@, 0) && "riscv,plic0"@.len() <= 32,
        no_nul_from("ns16550a"@, 0) && "ns16550a"@.len() <= 32,
        no_nul_from("virtio,mmio"@, 0) && "virtio,mmio"@.len() <= 32,
        no_nul_from("/U6_16550A@3f8"@, 0) && "/U6_16550A@3f8"@.len() <= 32,
{
    reveal_strlit("");
    reveal_strlit("#address-cells");
    reveal_strlit("#interrupt-cells");
    reveal_strlit("#size-cells");
    reveal_strlit("/U6_16550A@3f8");
    reveal_strlit("U6_16550A@3f8");
    reveal_strlit("aliases");
    reveal_strlit("bootargs");
    reveal_strlit("chosen");
    reveal_strlit("clock-frequency");
    reveal_strlit("compatible");
    reveal_strlit("cpu");
    reveal_strlit("cpu@0");
    reveal_strlit("cpu@1");
    reveal_strlit("cpu@2");
    reveal_strlit("cpu@3");
    reveal_strlit("cpu@4");
    reveal_strlit("cpu@5");
    reveal_strlit("cpu@6");
    reveal_strlit("cpu@7");
    reveal_strlit("cpus");
    reveal_strlit("device_type");
    reveal_strlit("dma-coherent");
    reveal_strlit("interrupt-controller");
    reveal_strlit("interrupt-controller@0c000000");
    reveal_strlit("interrupt-parent");
    reveal_strlit("interrupts");
    reveal_strlit("interrupts-extended");
    reveal_strlit("linux,dummy-virt");
    reveal_strlit("linux,initrd-end");
    reveal_strlit("linux,initrd-start");
    reveal_strlit("memory");
    reveal_strlit("mmu-type");
    reveal_strlit("ns16550a");
    reveal_strlit("okay");
    reveal_strlit("phandle");
    reveal_strlit("ranges");
    reveal_strlit("reg");
    reveal_strlit("riscv");
    reveal_strlit("riscv,cpu-intc");
    reveal_strlit("riscv,isa");
    reveal_strlit("riscv,max-priority");
    reveal_strlit("riscv,ndev");
    reveal_strlit("riscv,plic0");
    reveal_strlit("riscv,sv48");
    reveal_strlit("rv64imafdcsu");
    reveal_strlit("sbi");
    reveal_strlit("serial0");
    reveal_strlit("simple-bus");
    reveal_strlit("smb");
    reveal_strlit("status");
    reveal_strlit("stdout-path");
    reveal_strlit("timebase-frequency");
    reveal_strlit("virtio,mmio");
    reveal_strlit("virtio@268435456");
    reveal_strlit("virtio@268435968");
    reveal_with_fuel(prop_chars_from, 33);
    reveal_with_fuel(node_chars_except, 33);
    reveal_with_fuel(first_at, 33);
    reveal_with_fuel(no_nul_from, 33);
}

/// The cells of the memory node's `reg`: address `(0, MEM_START)` and size
/// `(hi, lo)`, two cells each.
pub fn memory_reg_cells(mem_size: u64) -> (r: Vec<u32>)
    ensures
        r@.len() == 4,
        r@[0] == 0,
        r@[1] == MEM_START,
        ((r@[2] as u64) << 32u64) | (r@[3] as u64) == mem_size,
        r@[2] == (mem_size >> 32u64) as u32,
        r@[3] == (mem_size & 0xffff_ffff) as u32,
{
    let mem_sz_lo: u32 = (mem_size & 0xffff_ffff) as u32;
    let mem_sz_hi: u32 = (mem_size >> 32) as u32;
    assert((((mem_size >> 32u64) as u32 as u64) << 32u64) | ((mem_size & 0xffff_ffff) as u32 as u64) == mem_size)
        by (bit_vector);
    vec![0, MEM_START, mem_sz_hi, mem_sz_lo]
}

/// Cell `j` of the controller's `interrupts-extended`: for each vCPU `i`,
/// its interrupt-controller phandle (`i + 2`) with the external interrupt
/// lines `-1`, `-1` and `9`.
pub open spec fn int_ext_cell(j: int) -> u32 {
    if j % 6 == 1 || j % 6 == 3 {
        0xffff_ffff
    } else if j % 6 == 5 {
        9
    } else {
        (j / 6 + 2) as u32
    }
}

/// The `interrupts-extended` cells of the interrupt controller for
/// `cpu_nr` vCPUs.
pub fn plic_interrupts_extended(cpu_nr: u32) -> (r: Vec<u32>)
    requires
        cpu_nr <= MAX_DTB_CPUS,
    ensures
        r@ == Seq::new(6 * cpu_nr as nat, |j: int| int_ext_cell(j)),
{
    let mut int_ext: Vec<u32> = Vec::new();
    let mut i: u32 = 0;
    while i < cpu_nr
        invariant
            i <= cpu_nr <= MAX_DTB_CPUS,
            int_ext@ == Seq::new(6 * i as nat, |j: int| int_ext_cell(j)),
        decreases cpu_nr - i,
    {
        int_ext.push(i + 2);
        int_ext.push(0xffff_ffff);
        int_ext.push(i + 2);
        int_ext.push(0xffff_ffff);
        int_ext.push(i + 2);
        int_ext.push(0x9);
        i = i + 1;
        assert(int_ext@ =~= Seq::new(6 * i as nat, |j: int| int_ext_cell(j)));
    }
    int_ext
}

/// The cells of the memory node's `reg` for `mem_size` bytes.
pub open spec fn memory_cells_spec(mem_size: u64) -> Seq<u32> {
    seq![0u32, MEM_START, (mem_size >> 32u64) as u32, (mem_size & 0xffff_ffff) as u32]
}

/// The longest boot-argument string the tree takes.
pub const BOOTARGS_MAX_LEN: u64 = 0x1000_0000;

/// The tree's ninth property is the memory node's `reg` for `mem_size`
/// bytes (after the root's three, the chosen node's four and the memory
/// node's `device_type`).
pub open spec fn memory_node_reg(props: Seq<(Seq<char>, Seq<u8>)>, mem_size: u64) -> bool {
    &&& props.len() > 8
    &&& props[7] == ("device_type"@, string_value("memory"@))
    &&& props[8] == ("reg"@, be_cells(memory_cells_spec(mem_size)))
}

/// The first properties of the tree: the root's `compatible`, the chosen
/// node's boot arguments and fixed initrd range, and the memory node.
pub open spec fn dtb_head(props: Seq<(Seq<char>, Seq<u8>)>, cfg: &DtbConfig) -> bool {
    &&& props.len() > 8
    &&& props[0] == ("compatible"@, string_value("linux,dummy-virt"@))
    &&& props[1] == ("#address-cells"@, be_cells(seq![2u32]))
    &&& props[2] == ("#size-cells"@, be_cells(seq![2u32]))
    &&& props[3] == ("bootargs"@, string_value(cfg.bootargs@))
    &&& props[4] == ("stdout-path"@, string_value("sbi"@))
    &&& props[5] == ("linux,initrd-start"@, be_u64(INITRD_START))
    &&& props[6] == ("linux,initrd-end"@, be_u64(INITRD_END))
    &&& memory_node_reg(props, cfg.mem_size)
}

/// What the tree describes.
pub struct DtbConfig {
    pub vcpu_count: u32,
    pub mem_size: u64,
    pub bootargs: String,
    pub need_virtio_blk: bool,
    pub need_vmtap: bool,
}

/// A bus range found in a tree.
#[derive(Clone, Copy, PartialEq, Eq, Structural, Debug)]
pub struct BusRegion {
    pub offset: u64,
    pub size: u64,
}

impl BusRegion {
    pub fn new(offset: u64, size: u64) -> (r: Self)
        ensures
            r.offset == offset,
            r.size == size,
    {
        Self { offset, size }
    }
}

#[derive(PartialEq, Eq, Structural)]
pub struct InitrdRegion {
    pub start: u64,
    pub end: u64,
}

impl InitrdRegion {
    pub fn new() -> (r: Self)
        ensures
            r.start == 0,
            r.end == 0,
    {
        Self { start: 0, end: 0 }
    }
}

/// The value of the first `n` cells of `s` from `start`, most significant
/// first, 32 bits each (older cells shift out past 64 bits).
pub open spec fn cells_value(s: Seq<u32>, start: int, n: int) -> u64
    decreases n,
{
    if n <= 0 {
        0
    } else {
        (((cells_value(s, start, n - 1) << 32u64) as int) + s[start + n - 1] as int) as u64
    }
}

proof fn lemma_cell_step(x: u64, c: u32)
    ensures
        (x << 32u64) as int + c as int <= u64::MAX,
{
    assert((x << 32u64) as int + c as int <= 0xffff_ffff_ffff_ffff) by (bit_vector);
}

/// Reads `n` cells of `s` from `start` as one number.
fn read_cells(s: &[u32], start: usize, n: u32) -> (r: u64)
    requires
        start + n <= s@.len(),
    ensures
        r == cells_value(s@, start as int, n as int),
{
    let len = s.len();
    let mut v: u64 = 0;
    let mut j: u32 = 0;
    while j < n
        invariant
            len == s@.len(),
            j <= n,
            start + n <= s@.len(),
            v == cells_value(s@, start as int, j as int),
        decreases n - j,
    {
        proof {
            lemma_cell_step(v, s@[start + j]);
        }
        v = (v << 32) + (s[start + j as usize] as u64);
        j = j + 1;
    }
    v
}

/// The bus ranges of a `reg` list of `(address, size)` pairs.
pub open spec fn regions_spec(s: Seq<u32>, ac: u32, sc: u32, k: int) -> Seq<BusRegion>
    decreases k,
{
    if k <= 0 {
        Seq::empty()
    } else {
        let t = ac + sc;
        let base = (k - 1) * t;
        regions_spec(s, ac, sc, k - 1).push(
            BusRegion { offset: cells_value(s, base, ac as int), size: cells_value(s, base + ac, sc as int) },
        )
    }
}

/// What was learned of the machine from a tree.
pub struct MachineMeta {
    pub address_cells: Vec<u32>,
    pub size_cells: Vec<u32>,
    pub memory_regions: Vec<BusRegion>,
    pub soc_regions: Vec<BusRegion>,
    pub initrd_region: InitrdRegion,
}

pub const INITRD_START_PROP: i32 = 0;
pub const INITRD_END_PROP: i32 = 1;

impl MachineMeta {
    pub fn new() -> (r: Self)
        ensures
            r.address_cells@.len() == 0,
            r.size_cells@.len() == 0,
            r.memory_regions@.len() == 0,
            r.soc_regions@.len() == 0,
            r.initrd_region.start == 0,
            r.initrd_region.end == 0,
    {
        Self {
            address_cells: Vec::new(),
            size_cells: Vec::new(),
            memory_regions: Vec::new(),
            soc_regions: Vec::new(),
            initrd_region: InitrdRegion::new(),
        }
    }

    /// Takes the fixed initrd range that the generated tree announces.
    pub fn apply(&mut self)
        ensures
            final(self).initrd_region.start == INITRD_START,
            final(self).initrd_region.end == INITRD_END,
            final(self).memory_regions@ == old(self).memory_regions@,
            final(self).soc_regions@ == old(self).soc_regions@,
    {
        self.initrd_region.start = INITRD_START;
        self.initrd_region.end = INITRD_END;
    }

    /// Appends the bus ranges of a `reg` list with `address_cells` address
    /// cells and `size_cells` size cells per range.
    fn parse_regions(v: &[u32], address_cells: u32, size_cells: u32, out: &mut Vec<BusRegion>)
        requires
            address_cells + size_cells > 0,
            address_cells + size_cells <= u32::MAX,
            v@.len() <= u32::MAX,
            v@.len() as int % (address_cells + size_cells) as int == 0,
        ensures
            final(out)@ == old(out)@ + regions_spec(
                v@,
                address_cells,
                size_cells,
                v@.len() as int / (address_cells + size_cells) as int,
            ),
    {
        let len = v.len() as u32;
        let t = address_cells + size_cells;
        let cycle: u32 = len / t;
        let mut i: u32 = 0;
        while i < cycle
            invariant
                i <= cycle,
                cycle == len / t,
                t == address_cells + size_cells,
                t > 0,
                len == v@.len(),
                out@ == old(out)@ + regions_spec(v@, address_cells, size_cells, i as int),
            decreases cycle - i,
        {
            assert(i * t + t <= len) by (nonlinear_arith)
                requires
                    i < cycle,
                    cycle == len / t,
                    t > 0,
            ;
            let base: usize = (i * t) as usize;
            let offset = read_cells(v, base, address_cells);
            let size = read_cells(v, base + address_cells as usize, size_cells);
            out.push(BusRegion::new(offset, size));
            i = i + 1;
            assert(out@ =~= old(out)@ + regions_spec(v@, address_cells, size_cells, i as int));
        }
    }

    /// Records the soc ranges of a `reg` list.
    pub fn soc_parse(&mut self, value_u32_list: &[u32], address_cells: u32, size_cells: u32)
        requires
            address_cells + size_cells > 0,
            address_cells + size_cells <= u32::MAX,
            value_u32_list@.len() <= u32::MAX,
            value_u32_list@.len() as int % (address_cells + size_cells) as int == 0,
        ensures
            final(self).soc_regions@ == old(self).soc_regions@ + regions_spec(
                value_u32_list@,
                address_cells,
                size_cells,
                value_u32_list@.len() as int / (address_cells + size_cells) as int,
            ),
            final(self).memory_regions@ == old(self).memory_regions@,
            final(self).address_cells@ == old(self).address_cells@,
            final(self).size_cells@ == old(self).size_cells@,
            final(self).initrd_region == old(self).initrd_region,
    {
        MachineMeta::parse_regions(value_u32_list, address_cells, size_cells, &mut self.soc_regions);
    }

    /// Records the memory ranges of a `reg` list.
    pub fn memory_parse(&mut self, value_u32_list: &[u32], address_cells: u32, size_cells: u32)
        requires
            address_cells + size_cells > 0,
            address_cells + size_cells <= u32::MAX,
            value_u32_list@.len() <= u32::MAX,
            value_u32_list@.len() as int % (address_cells + size_cells) as int == 0,
        ensures
            final(self).memory_regions@ == old(self).memory_regions@ + regions_spec(
                value_u32_list@,
                address_cells,
                size_cells,
                value_u32_list@.len() as int / (address_cells + size_cells) as int,
            ),
            final(self).soc_regions@ == old(self).soc_regions@,
            final(self).address_cells@ == old(self).address_cells@,
            final(self).size_cells@ == old(self).size_cells@,
            final(self).initrd_region == old(self).initrd_region,
    {
        MachineMeta::parse_regions(value_u32_list, address_cells, size_cells, &mut self.memory_regions);
    }

    /// Records the initrd start (`value_type` 0, `address_cells` cells) or
    /// end (otherwise, `size_cells` cells).
    pub fn initrd_parse(&mut self, value_u32_list: &[u32], address_cells: u32, size_cells: u32, value_type: i32)
        requires
            (if value_type == INITRD_START_PROP {
                address_cells
            } else {
                size_cells
            }) <= value_u32_list@.len(),
        ensures
            value_type == INITRD_START_PROP ==> final(self).initrd_region.start == cells_value(
                value_u32_list@,
                0,
                address_cells as int,
            ) && final(self).initrd_region.end == old(self).initrd_region.end,
            value_type != INITRD_START_PROP ==> final(self).initrd_region.end == cells_value(
                value_u32_list@,
                0,
                size_cells as int,
            ) && final(self).initrd_region.start == old(self).initrd_region.start,
            final(self).memory_regions@ == old(self).memory_regions@,
            final(self).soc_regions@ == old(self).soc_regions@,
            final(self).address_cells@ == old(self).address_cells@,
            final(self).size_cells@ == old(self).size_cells@,
    {
        let cells: u32 = if value_type == INITRD_START_PROP {
            address_cells
        } else {
            size_cells
        };
        let prop_value = read_cells(value_u32_list, 0, cells);
        if value_type == INITRD_START_PROP {
            self.initrd_region.start = prop_value;
        } else {
            self.initrd_region.end = prop_value;
        }
    }

    /// The node name of vCPU `cpu_id`.
    fn cpu_node_name(cpu_id: u32) -> (r: &'static str)
        requires
            cpu_id < MAX_DTB_CPUS,
        ensures
            valid_node_name(r@),
            r@.len() <= 32,
    {
        proof {
            lemma_dtb_names();
        }
        if cpu_id == 0 {
            "cpu@0"
        } else if cpu_id == 1 {
            "cpu@1"
        } else if cpu_id == 2 {
            "cpu@2"
        } else if cpu_id == 3 {
            "cpu@3"
        } else if cpu_id == 4 {
            "cpu@4"
        } else if cpu_id == 5 {
            "cpu@5"
        } else if cpu_id == 6 {
            "cpu@6"
        } else {
            "cpu@7"
        }
    }

    /// Writes the node of vCPU `cpu_id`, with its interrupt controller.
    fn gen_cpu_dtb(cpu_id: u32, fdt: &mut FdtWriter) -> (r: Result<u32, vm_fdt::Error>)
        requires
            cpu_id < MAX_DTB_CPUS,
        ensures
            r matches Ok(v) ==> v == 0,
            r is Ok ==> keeps(fdt_props(*old(fdt)), fdt_props(*final(fdt))),
            r is Ok ==> fdt_depth(*final(fdt)) == fdt_depth(*old(fdt)) && fdt_size(*final(fdt)) <= fdt_size(*old(fdt))
                + 4000,
            fdt_depth(*old(fdt)) >= 1 && fdt_depth(*old(fdt)) + 2 < FDT_MAX_NODE_DEPTH && fdt_size(*old(fdt)) + 4000
                <= u32::MAX ==> r is Ok,
    {
        proof {
            lemma_dtb_names();
        }
        let s = MachineMeta::cpu_node_name(cpu_id);
        let cpu_node = fdt_begin_node(fdt, s)?;
        fdt_property_string(fdt, "device_type", "cpu")?;
        fdt_property_string(fdt, "compatible", "riscv")?;
        fdt_property_string(fdt, "mmu-type", "riscv,sv48")?;
        fdt_property_string(fdt, "riscv,isa", "rv64imafdcsu")?;
        fdt_property_u32(fdt, "reg", cpu_id)?;
        fdt_property_string(fdt, "status", "okay")?;
        let intc = fdt_begin_node(fdt, "interrupt-controller")?;
        fdt_property_string(fdt, "compatible", "riscv,cpu-intc")?;
        fdt_property_u32(fdt, "#interrupt-cells", 0x1)?;
        fdt_property_null(fdt, "interrupt-controller")?;
        fdt_property_u32(fdt, "phandle", cpu_id + 2)?;
        fdt_end_node(fdt, intc)?;
        fdt_end_node(fdt, cpu_node)?;
        Ok(0)
    }

    /// Writes the device tree of the guest: memory, one node per vCPU, the
    /// interrupt controller wired to every vCPU, the UART, and the virtio
    /// devices that are configured. It is built whenever the boot arguments
    /// hold no NUL and fit the tree's 32-bit sizes.
    pub fn gen_dtb(cfg: &DtbConfig) -> (r: Result<Vec<u8>, vm_fdt::Error>)
        requires
            cfg.vcpu_count <= MAX_DTB_CPUS,
        ensures
            r matches Ok(b) ==> dtb_head(blob_props(b@), cfg),
            no_nul_from(cfg.bootargs@, 0) && cfg.bootargs@.len() <= BOOTARGS_MAX_LEN ==> r is Ok,
    {
        proof {
            lemma_dtb_names();
        }
        let mut writer = fdt_new()?;
        let cpu_nr = cfg.vcpu_count;

        let root_node = fdt_begin_node(&mut writer, "")?;
        fdt_property_string(&mut writer, "compatible", "linux,dummy-virt")?;
        fdt_property_u32(&mut writer, "#address-cells", 0x2)?;
        fdt_property_u32(&mut writer, "#size-cells", 0x2)?;

        let chosen_node = fdt_begin_node(&mut writer, "chosen")?;
        fdt_property_string(&mut writer, "bootargs", cfg.bootargs.as_str())?;
        fdt_property_string(&mut writer, "stdout-path", "sbi")?;
        fdt_property_u64(&mut writer, "linux,initrd-start", INITRD_START)?;
        fdt_property_u64(&mut writer, "linux,initrd-end", INITRD_END)?;
        fdt_end_node(&mut writer, chosen_node)?;

        let memory_node = fdt_begin_node(&mut writer, "memory")?;
        let reg = memory_reg_cells(cfg.mem_size);
        fdt_property_string(&mut writer, "device_type", "memory")?;
        fdt_property_array_u32(&mut writer, "reg", &reg)?;
        assert(reg@ =~= memory_cells_spec(cfg.mem_size));
        assert(dtb_head(fdt_props(writer), cfg));
        fdt_end_node(&mut writer, memory_node)?;
        assert(fdt_size(writer) <= 4 * cfg.bootargs@.len() + 4000);

        let cpus_node = fdt_begin_node(&mut writer, "cpus")?;
        fdt_property_u32(&mut writer, "#address-cells", 0x1)?;
        fdt_property_u32(&mut writer, "#size-cells", 0x0)?;
        fdt_property_u32(&mut writer, "timebase-frequency", 0x989680)?;
        let mut i: u32 = 0;
        while i < cpu_nr
            invariant
                cpu_nr == cfg.vcpu_count,
                cpu_nr <= MAX_DTB_CPUS,
                i <= cpu_nr,
                dtb_head(fdt_props(writer), cfg),
                fdt_depth(writer) == 2,
                node_depth(cpus_node) == 2,
                fdt_size(writer) <= 4 * cfg.bootargs@.len() + 5000 + 4000 * i,
            decreases cpu_nr - i,
        {
            MachineMeta::gen_cpu_dtb(i, &mut writer)?;
            i = i + 1;
        }
        fdt_end_node(&mut writer, cpus_node)?;
        assert(fdt_size(writer) <= 4 * cfg.bootargs@.len() + 40000);

        let smb = fdt_begin_node(&mut writer, "smb")?;
        fdt_property_string(&mut writer, "compatible", "simple-bus")?;
        fdt_property_u32(&mut writer, "#address-cells", 0x2)?;
        fdt_property_u32(&mut writer, "#size-cells", 0x2)?;
        fdt_property_u32(&mut writer, "interrupt-parent", 0x1)?;
        fdt_property_null(&mut writer, "ranges")?;
        let smb_intc = fdt_begin_node(&mut writer, "interrupt-controller@0c000000")?;
        fdt_property_string(&mut writer, "compatible", "riscv,plic0")?;
        let reg = vec![0x0, PLIC_HPA as u32, 0x0, PLIC_LENGTH as u32];
        fdt_property_array_u32(&mut writer, "reg", &reg)?;
        fdt_property_u32(&mut writer, "#interrupt-cells", 0x1)?;
        fdt_property_null(&mut writer, "interrupt-controller")?;
        fdt_property_u32(&mut writer, "riscv,max-priority", 0xf)?;
        fdt_property_u32(&mut writer, "riscv,ndev", 0x1f)?;
        fdt_property_u32(&mut writer, "phandle", 0x1)?;
        let int_ext = plic_interrupts_extended(cpu_nr);
        fdt_property_array_u32(&mut writer, "interrupts-extended", &int_ext)?;
        fdt_end_node(&mut writer, smb_intc)?;
        assert(fdt_size(writer) <= 4 * cfg.bootargs@.len() + 45000);

        let u6 = fdt_begin_node(&mut writer, "U6_16550A@3f8")?;
        fdt_property_string(&mut writer, "compatible", "ns16550a")?;
        let reg = vec![0x0, 0x3f8, 0x0, 0x8];
        fdt_property_array_u32(&mut writer, "reg", &reg)?;
        fdt_property_u32(&mut writer, "interrupts", VIRT_SERIAL_IRQ as u32)?;
        fdt_property_u32(&mut writer, "clock-frequency", 0x1c2000)?;
        fdt_end_node(&mut writer, u6)?;
        assert(fdt_size(writer) <= 4 * cfg.bootargs@.len() + 46000);

        if cfg.need_virtio_blk {
            let virtio_blk = fdt_begin_node(&mut writer, "virtio@268435456")?;
            fdt_property_string(&mut writer, "compatible", "virtio,mmio")?;
            let reg = vec![0x00, BLOCK_DEV_MMIO_ADDR as u32, 0x00, BLOCK_DEV_MMIO_LEN as u32];
            fdt_property_array_u32(&mut writer, "reg", &reg)?;
            fdt_property_null(&mut writer, "dma-coherent")?;
            fdt_property_u32(&mut writer, "interrupts", VIRT_BLOCK_IRQ as u32)?;
            fdt_end_node(&mut writer, virtio_blk)?;
        }
        assert(fdt_size(writer) <= 4 * cfg.bootargs@.len() + 47000);
        if cfg.need_vmtap {
            let virtio_net = fdt_begin_node(&mut writer, "virtio@268435968")?;
            fdt_property_string(&mut writer, "compatible", "virtio,mmio")?;
            let reg = vec![0x00, NET_DEV_MMIO_ADDR as u32, 0x00, NET_DEV_MMIO_LEN as u32];
            fdt_property_array_u32(&mut writer, "reg", &reg)?;
            fdt_property_null(&mut writer, "dma-coherent")?;
            fdt_property_u32(&mut writer, "interrupts", VIRT_NET_IRQ as u32)?;
            fdt_end_node(&mut writer, virtio_net)?;
        }
        assert(fdt_size(writer) <= 4 * cfg.bootargs@.len() + 48000);
        fdt_end_node(&mut writer, smb)?;

        let alias = fdt_begin_node(&mut writer, "aliases")?;
        fdt_property_string(&mut writer, "serial0", "/U6_16550A@3f8")?;
        fdt_end_node(&mut writer, alias)?;

        fdt_end_node(&mut writer, root_node)?;
        fdt_finish(writer)
    }
}

/// The generated tree and what the machine takes from it.
pub struct DeviceTree {
    pub file_data: Vec<u8>,
    pub meta_data: MachineMeta,
}

impl DeviceTree {
    /// The tree for `cfg`, with the fixed initrd range applied.
    pub fn new(cfg: &DtbConfig) -> (r: Result<DeviceTree, vm_fdt::Error>)
        requires
            cfg.vcpu_count <= MAX_DTB_CPUS,
        ensures
            r matches Ok(t) ==> t.meta_data.initrd_region.start == INITRD_START && t.meta_data.initrd_region.end
                == INITRD_END && dtb_head(blob_props(t.file_data@), cfg),
            no_nul_from(cfg.bootargs@, 0) && cfg.bootargs@.len() <= BOOTARGS_MAX_LEN ==> r is Ok,
    {
        let mut meta_data = MachineMeta::new();
        meta_data.apply();
        let file_data = MachineMeta::gen_dtb(cfg)?;
        Ok(DeviceTree { file_data, meta_data })
    }

    pub fn get_initrd_start(&self) -> (r: u64)
        ensures
            r == self.meta_data.initrd_region.start,
    {
        self.meta_data.initrd_region.start
    }

    pub fn get_initrd_end(&self) -> (r: u64)
        ensures
            r == self.meta_data.initrd_region.end,
    {
        self.meta_data.initrd_region.end
    }

    pub fn get_dtb(&self) -> (r: &Vec<u8>)
        ensures
            r@ == self.file_data@,
    {
        &self.file_data
    }
}

} // verus!
