//! The rules a guest configuration must meet.
use vstd::prelude::*;

verus! {

/// The most vCPUs a guest can have.
pub const MAX_VCPU: u32 = 8;

/// The first rule a configuration breaks.
#[derive(Clone, Copy, PartialEq, Eq, Structural, Debug)]
pub enum ConfigError {
    VcpuCount,
    MemorySize,
    MachineType,
    KernelImage,
    Initrd,
    Dtb,
}

/// The machine types a guest can be.
pub open spec fn known_machine(m: Seq<u8>) -> bool {
    m =~= "duvisor_virt"@.map_values(|c: char| c as u8) || m =~= "test_type"@.map_values(|c: char| c as u8)
}

fn bytes_equal(a: &[u8], b: &[u8]) -> (r: bool)
    ensures
        r == (a@ =~= b@),
{
    if a.len() != b.len() {
        return false;
    }
    let mut i: usize = 0;
    while i < a.len()
        invariant
            a@.len() == b@.len(),
            i <= a@.len(),
            forall|k: int| 0 <= k < i ==> a@[k] == b@[k],
        decreases a@.len() - i,
    {
        if a[i] != b[i] {
            return false;
        }
        i = i + 1;
    }
    true
}

/// Checks a configuration: 1 to `MAX_VCPU` vCPUs, some memory, a known
/// machine type, a kernel image that exists, and an initrd and a tree
/// that exist when given (`None`: not given). Returns the first rule
/// broken, in that order.
pub fn check_config(
    vcpu_count: u32,
    mem_size_mb: u64,
    machine_type: &[u8],
    kernel_exists: bool,
    initrd_exists: Option<bool>,
    dtb_exists: Option<bool>,
) -> (r: Result<(), ConfigError>)
    ensures
        r == (if vcpu_count == 0 || vcpu_count > MAX_VCPU {
            Err(ConfigError::VcpuCount)
        } else if mem_size_mb == 0 {
            Err(ConfigError::MemorySize)
        } else if !known_machine(machine_type@) {
            Err(ConfigError::MachineType)
        } else if !kernel_exists {
            Err(ConfigError::KernelImage)
        } else if initrd_exists == Some(false) {
            Err(ConfigError::Initrd)
        } else if dtb_exists == Some(false) {
            Err(ConfigError::Dtb)
        } else {
            Ok(())
        }),
{
    if vcpu_count == 0 || vcpu_count > MAX_VCPU {
        return Err(ConfigError::VcpuCount);
    }
    if mem_size_mb == 0 {
        return Err(ConfigError::MemorySize);
    }
    let virt: &[u8] = &[100, 117, 118, 105, 115, 111, 114, 95, 118, 105, 114, 116];
    let test: &[u8] = &[116, 101, 115, 116, 95, 116, 121, 112, 101];
    proof {
        reveal_strlit("duvisor_virt");
        reveal_strlit("test_type");
        assert(virt@ =~= "duvisor_virt"@.map_values(|c: char| c as u8));
        assert(test@ =~= "test_type"@.map_values(|c: char| c as u8));
    }
    if !bytes_equal(machine_type, virt) && !bytes_equal(machine_type, test) {
        return Err(ConfigError::MachineType);
    }
    if !kernel_exists {
        return Err(ConfigError::KernelImage);
    }
    if initrd_exists == Some(false) {
        return Err(ConfigError::Initrd);
    }
    if dtb_exists == Some(false) {
        return Err(ConfigError::Dtb);
    }
    Ok(())
}

} // verus!

verus! {

/// The settings a configuration file gives, as values.
pub struct CfgView {
    pub vcpu_count: u32,
    pub mem_size_mb: u64,
    pub machine_type: Seq<u8>,
    pub kernel_img_path: Seq<u8>,
    pub initrd_path: Seq<u8>,
    pub dtb_path: Seq<u8>,
}

/// The settings a configuration file gives.
pub struct ConfigValues {
    pub vcpu_count: u32,
    pub mem_size_mb: u64,
    pub machine_type: Vec<u8>,
    pub kernel_img_path: Vec<u8>,
    pub initrd_path: Vec<u8>,
    pub dtb_path: Vec<u8>,
}

impl View for ConfigValues {
    type V = CfgView;

    open spec fn view(&self) -> CfgView {
        CfgView {
            vcpu_count: self.vcpu_count,
            mem_size_mb: self.mem_size_mb,
            machine_type: self.machine_type@,
            kernel_img_path: self.kernel_img_path@,
            initrd_path: self.initrd_path@,
            dtb_path: self.dtb_path@,
        }
    }
}

pub open spec fn is_ws(c: u8) -> bool {
    c == 32 || (9 <= c && c <= 13)
}

/// The first index in `[i, end)` holding `b`, or `end`.
pub open spec fn find_spec(s: Seq<u8>, b: u8, i: int, end: int) -> int
    decreases end - i,
{
    if i >= end {
        end
    } else if s[i] == b {
        i
    } else {
        find_spec(s, b, i + 1, end)
    }
}

/// The first index in `[i, end)` past the leading white space.
pub open spec fn skip_ws(s: Seq<u8>, i: int, end: int) -> int
    decreases end - i,
{
    if i < end && is_ws(s[i]) {
        skip_ws(s, i + 1, end)
    } else {
        i
    }
}

/// The end of `[start, j)` without its trailing white space.
pub open spec fn drop_ws(s: Seq<u8>, start: int, j: int) -> int
    decreases j - start,
{
    if j > start && is_ws(s[j - 1]) {
        drop_ws(s, start, j - 1)
    } else {
        j
    }
}

/// The decimal number of the digits in `[i, end)` after `acc`, if all are
/// digits and it stays within `max`.
pub open spec fn digits_spec(s: Seq<u8>, i: int, end: int, acc: int, max: int) -> Option<int>
    decreases end - i,
{
    if i >= end {
        Some(acc)
    } else if 48 <= s[i] <= 57 && acc * 10 + (s[i] - 48) <= max {
        digits_spec(s, i + 1, end, acc * 10 + (s[i] - 48), max)
    } else {
        None
    }
}

/// The unsigned number written in `[i, end)` (an optional `+`, then
/// digits), or 0 when it is not one or exceeds `max`.
pub open spec fn number_spec(s: Seq<u8>, i: int, end: int, max: int) -> int {
    let j = if i < end && s[i] == 43 {
        i + 1
    } else {
        i
    };
    if j >= end {
        0
    } else {
        match digits_spec(s, j, end, 0, max) {
            Some(v) => v,
            None => 0,
        }
    }
}

/// The settings after a line that names an unknown key.
pub open spec fn reset_spec(c: CfgView) -> CfgView {
    CfgView {
        vcpu_count: 0,
        mem_size_mb: 0,
        machine_type: Seq::empty(),
        kernel_img_path: Seq::empty(),
        initrd_path: Seq::empty(),
        dtb_path: Seq::empty(),
    }
}

pub open spec fn key_is(s: Seq<u8>, ks: int, ke: int, key: Seq<u8>) -> bool {
    s.subrange(ks, ke) =~= key
}

/// What the line `[ls, ce)` does to the settings: `None` for an unknown key.
pub open spec fn line_spec(s: Seq<u8>, ls: int, ce: int, c: CfgView) -> Option<CfgView> {
    let k_end = find_spec(s, 61, ls, ce);
    let ks = skip_ws(s, ls, k_end);
    let ke = drop_ws(s, ks, k_end);
    let has_value = k_end < ce;
    let ve0 = find_spec(s, 61, k_end + 1, ce);
    let vs = skip_ws(s, k_end + 1, ve0);
    let ve = drop_ws(s, vs, ve0);
    let value = s.subrange(vs, ve);
    if key_is(s, ks, ke, seq![115u8, 109, 112]) {
        Some(
            if has_value {
                CfgView { vcpu_count: number_spec(s, vs, ve, u32::MAX as int) as u32, ..c }
            } else {
                c
            },
        )
    } else if key_is(s, ks, ke, seq![109u8, 101, 109, 111, 114, 121]) {
        Some(
            if has_value {
                CfgView { mem_size_mb: number_spec(s, vs, ve, u64::MAX as int) as u64, ..c }
            } else {
                c
            },
        )
    } else if key_is(s, ks, ke, seq![107u8, 101, 114, 110, 101, 108]) {
        Some(
            if has_value {
                CfgView { kernel_img_path: value, ..c }
            } else {
                c
            },
        )
    } else if key_is(s, ks, ke, seq![105u8, 110, 105, 116, 114, 100]) {
        Some(
            if has_value {
                CfgView { initrd_path: value, ..c }
            } else {
                c
            },
        )
    } else if key_is(s, ks, ke, seq![100u8, 116, 98]) {
        Some(
            if has_value {
                CfgView { dtb_path: value, ..c }
            } else {
                c
            },
        )
    } else if key_is(s, ks, ke, seq![109u8, 97, 99, 104, 105, 110, 101]) {
        Some(
            if has_value {
                CfgView { machine_type: value, ..c }
            } else {
                c
            },
        )
    } else {
        None
    }
}

/// The settings after the lines of `s` from `pos` on, and whether every
/// key was known. Lines end at `\n`, a `\r` before it is dropped; a line
/// reads `key = value`, with white space around either, and text after a
/// second `=` ignored. An unknown key clears the settings and stops.
pub open spec fn parse_spec(s: Seq<u8>, pos: int, c: CfgView) -> (bool, CfgView)
    decreases s.len() - pos,
{
    if pos < 0 || pos >= s.len() {
        (true, c)
    } else {
        let le = find_spec(s, 10, pos, s.len() as int);
        let ce = if le < s.len() && le > pos && s[le - 1] == 13 {
            le - 1
        } else {
            le
        };
        match line_spec(s, pos, ce, c) {
            Some(c2) => if le < pos || le >= s.len() {
                (true, c2)
            } else {
                parse_spec(s, le + 1, c2)
            },
            None => (false, reset_spec(c)),
        }
    }
}

proof fn lemma_find_bounds(s: Seq<u8>, b: u8, i: int, end: int)
    requires
        i <= end,
    ensures
        i <= find_spec(s, b, i, end) <= end,
    decreases end - i,
{
    if i < end && s[i] != b {
        lemma_find_bounds(s, b, i + 1, end);
    }
}

proof fn lemma_skip_bounds(s: Seq<u8>, i: int, end: int)
    requires
        i <= end,
    ensures
        i <= skip_ws(s, i, end) <= end,
    decreases end - i,
{
    if i < end && is_ws(s[i]) {
        lemma_skip_bounds(s, i + 1, end);
    }
}

proof fn lemma_drop_bounds(s: Seq<u8>, start: int, j: int)
    requires
        start <= j,
    ensures
        start <= drop_ws(s, start, j) <= j,
    decreases j - start,
{
    if j > start && is_ws(s[j - 1]) {
        lemma_drop_bounds(s, start, j - 1);
    }
}

fn find_byte(s: &[u8], b: u8, i: usize, end: usize) -> (r: usize)
    requires
        i <= end <= s@.len(),
    ensures
        r == find_spec(s@, b, i as int, end as int),
        i <= r <= end,
{
    let mut k = i;
    while k < end
        invariant
            i <= k <= end <= s@.len(),
            find_spec(s@, b, i as int, end as int) == find_spec(s@, b, k as int, end as int),
        decreases end - k,
    {
        if s[k] == b {
            return k;
        }
        k = k + 1;
    }
    k
}

fn skip_white(s: &[u8], i: usize, end: usize) -> (r: usize)
    requires
        i <= end <= s@.len(),
    ensures
        r == skip_ws(s@, i as int, end as int),
        i <= r <= end,
{
    let mut k = i;
    while k < end && (s[k] == 32 || (9 <= s[k] && s[k] <= 13))
        invariant
            i <= k <= end <= s@.len(),
            skip_ws(s@, i as int, end as int) == skip_ws(s@, k as int, end as int),
        decreases end - k,
    {
        k = k + 1;
    }
    k
}

fn drop_white(s: &[u8], start: usize, j: usize) -> (r: usize)
    requires
        start <= j <= s@.len(),
    ensures
        r == drop_ws(s@, start as int, j as int),
        start <= r <= j,
{
    let mut k = j;
    while k > start && (s[k - 1] == 32 || (9 <= s[k - 1] && s[k - 1] <= 13))
        invariant
            start <= k <= j <= s@.len(),
            drop_ws(s@, start as int, j as int) == drop_ws(s@, start as int, k as int),
        decreases k - start,
    {
        k = k - 1;
    }
    k
}

/// The number written in `[i, end)`, as [`number_spec`] reads it.
fn parse_number(s: &[u8], i: usize, end: usize, max: u64) -> (r: u64)
    requires
        i <= end <= s@.len(),
    ensures
        r == number_spec(s@, i as int, end as int, max as int),
{
    let j = if i < end && s[i] == 43 {
        i + 1
    } else {
        i
    };
    if j >= end {
        return 0;
    }
    let mut acc: u64 = 0;
    let mut k = j;
    while k < end
        invariant
            j <= k <= end <= s@.len(),
            j < end,
            j == (if i < end && s@[i as int] == 43 {
                i + 1
            } else {
                i as int
            }),
            acc <= max,
            digits_spec(s@, j as int, end as int, 0, max as int) == digits_spec(
                s@,
                k as int,
                end as int,
                acc as int,
                max as int,
            ),
        decreases end - k,
    {
        let c = s[k];
        if c < 48 || c > 57 {
            assert(digits_spec(s@, k as int, end as int, acc as int, max as int) is None);
            assert(digits_spec(s@, j as int, end as int, 0, max as int) is None);
            return 0;
        }
        let d = (c - 48) as u64;
        if d > max || acc > (max - d) / 10 {
            assert(acc * 10 + d > max) by (nonlinear_arith)
                requires
                    acc > (max - d) / 10,
                    d <= max || acc * 10 + d > max,
            ;
            assert(digits_spec(s@, k as int, end as int, acc as int, max as int) is None);
            assert(digits_spec(s@, j as int, end as int, 0, max as int) is None);
            return 0;
        }
        assert(acc * 10 + d <= max) by (nonlinear_arith)
            requires
                acc <= (max - d) / 10,
                d <= max,
        ;
        acc = acc * 10 + d;
        k = k + 1;
    }
    acc
}

fn key_equals(s: &[u8], ks: usize, ke: usize, key: &[u8]) -> (r: bool)
    requires
        ks <= ke <= s@.len(),
    ensures
        r == key_is(s@, ks as int, ke as int, key@),
{
    if ke - ks != key.len() {
        assert(s@.subrange(ks as int, ke as int).len() != key@.len());
        return false;
    }
    let mut i: usize = 0;
    while i < key.len()
        invariant
            ke - ks == key@.len(),
            ks <= ke <= s@.len(),
            i <= key@.len(),
            forall|k: int| 0 <= k < i ==> s@[ks + k] == key@[k],
        decreases key@.len() - i,
    {
        if s[ks + i] != key[i] {
            assert(s@.subrange(ks as int, ke as int)[i as int] != key@[i as int]);
            return false;
        }
        i = i + 1;
    }
    assert(s@.subrange(ks as int, ke as int) =~= key@);
    true
}

fn copy_range(s: &[u8], start: usize, end: usize) -> (r: Vec<u8>)
    requires
        start <= end <= s@.len(),
    ensures
        r@ == s@.subrange(start as int, end as int),
{
    let mut v: Vec<u8> = Vec::new();
    let mut k = start;
    while k < end
        invariant
            start <= k <= end <= s@.len(),
            v@ == s@.subrange(start as int, k as int),
        decreases end - k,
    {
        v.push(s[k]);
        k = k + 1;
        assert(v@ =~= s@.subrange(start as int, k as int));
    }
    v
}

impl ConfigValues {
    pub fn new() -> (r: Self)
        ensures
            r@ == reset_spec(r@),
    {
        ConfigValues {
            vcpu_count: 0,
            mem_size_mb: 0,
            machine_type: Vec::new(),
            kernel_img_path: Vec::new(),
            initrd_path: Vec::new(),
            dtb_path: Vec::new(),
        }
    }

    fn reset(&mut self)
        ensures
            final(self)@ == reset_spec(old(self)@),
    {
        self.vcpu_count = 0;
        self.mem_size_mb = 0;
        self.machine_type = Vec::new();
        self.kernel_img_path = Vec::new();
        self.initrd_path = Vec::new();
        self.dtb_path = Vec::new();
    }

    /// Applies the line `[ls, ce)` of `s`; `false` for an unknown key.
    fn apply_line(&mut self, s: &[u8], ls: usize, ce: usize) -> (r: bool)
        requires
            ls <= ce <= s@.len(),
        ensures
            match line_spec(s@, ls as int, ce as int, old(self)@) {
                Some(c) => r && final(self)@ == c,
                None => !r && final(self)@ == old(self)@,
            },
    {
        let k_end = find_byte(s, 61, ls, ce);
        let ks = skip_white(s, ls, k_end);
        let ke = drop_white(s, ks, k_end);
        let has_value = k_end < ce;
        let vstart = if has_value {
            k_end + 1
        } else {
            ce
        };
        let ve0 = find_byte(s, 61, vstart, ce);
        let vs = skip_white(s, vstart, ve0);
        let ve = drop_white(s, vs, ve0);
        proof {
            if !has_value {
                assert(k_end == ce);
            }
        }
        if key_equals(s, ks, ke, &[115, 109, 112]) {
            if has_value {
                self.vcpu_count = parse_number(s, vs, ve, 0xffff_ffff) as u32;
            }
            return true;
        }
        if key_equals(s, ks, ke, &[109, 101, 109, 111, 114, 121]) {
            if has_value {
                self.mem_size_mb = parse_number(s, vs, ve, 0xffff_ffff_ffff_ffff);
            }
            return true;
        }
        if key_equals(s, ks, ke, &[107, 101, 114, 110, 101, 108]) {
            if has_value {
                self.kernel_img_path = copy_range(s, vs, ve);
            }
            return true;
        }
        if key_equals(s, ks, ke, &[105, 110, 105, 116, 114, 100]) {
            if has_value {
                self.initrd_path = copy_range(s, vs, ve);
            }
            return true;
        }
        if key_equals(s, ks, ke, &[100, 116, 98]) {
            if has_value {
                self.dtb_path = copy_range(s, vs, ve);
            }
            return true;
        }
        if key_equals(s, ks, ke, &[109, 97, 99, 104, 105, 110, 101]) {
            if has_value {
                self.machine_type = copy_range(s, vs, ve);
            }
            return true;
        }
        false
    }

    /// Reads a configuration file of `key = value` lines into the settings,
    /// as [`parse_spec`] says; `false`, with the settings cleared, at the
    /// first unknown key.
    pub fn parse_vm_config_file(&mut self, contents: &[u8]) -> (r: bool)
        ensures
            (r, final(self)@) == parse_spec(contents@, 0, old(self)@),
    {
        let len = contents.len();
        let mut pos: usize = 0;
        while pos < len
            invariant
                len == contents@.len(),
                pos <= len + 1,
                parse_spec(contents@, 0, old(self)@) == parse_spec(contents@, pos as int, self@),
            decreases len + 1 - pos,
        {
            let le = find_byte(contents, 10, pos, len);
            let ce = if le < len && le > pos && contents[le - 1] == 13 {
                le - 1
            } else {
                le
            };
            let ghost before = self@;
            if !self.apply_line(contents, pos, ce) {
                self.reset();
                return false;
            }
            if le == len {
                return true;
            }
            pos = le + 1;
        }
        true
    }
}

} // verus!
