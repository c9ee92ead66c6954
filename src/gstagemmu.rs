//! The stage-2 (guest-physical to host-physical) page-table engine.
//!
//! The table is a three-level radix tree (the root spans four pages) kept in
//! an arena of 64-bit words that grows one page at a time. An interior entry
//! names its sub-table by host-physical page number, as the hardware walker
//! expects; the arena starts at host-physical `paddr`.
use vstd::prelude::*;
use crate::gparegion::GpaRegion;
use crate::guestmem::GuestMemory;
use crate::hpmallocator::{HpmAllocator, HpmRegion, alloc_spec};
use crate::mmio::{MmioManager, regions_valid};
use crate::utils::{
    lemma_page_mask,
    linear_spec, va_to_hpa_helper, hpa_to_va_helper, page_size_round_up, round_up_spec,
    PAGE_SIZE, PAGE_TABLE_REGION_SIZE,
};

verus! {

/// Number of levels of the stage-2 tree.
pub const S2PT_MODE: i32 = 3;

pub const PTE_VALID: u64 = 0x1;
pub const PTE_READ: u64 = 0x2;
pub const PTE_WRITE: u64 = 0x4;
pub const PTE_EXECUTE: u64 = 0x8;
pub const PTE_USER: u64 = 0x10;
pub const PTE_GLOBAL: u64 = 0x20;
pub const PTE_ACCESS: u64 = 0x40;
pub const PTE_DIRTY: u64 = 0x80;
pub const PTE_VRWEU: u64 = 0x1f;
pub const PTE_PPN_SHIFT: u64 = 10;

/// Keeps the physical page number of an entry and drops its flag bits.
pub const PTE_PPN_MASK: u64 = 0xFFFF_FFFF_FFFF_FC00;

/// Guest RAM starts here.
pub const MEM_START: u64 = 0x8000_0000;

/// Words in the root table and in every other table.
pub const ROOT_WORDS: u64 = 2048;
pub const TABLE_WORDS: u64 = 512;

/// Host-physical addresses that the table may hold stay below this bound,
/// so that a page number fits the entry.
pub const HPA_LIMIT: u64 = 0x3F_FFFF_FFFF_FFFF;

pub open spec fn valid(e: u64) -> bool {
    e & 1 != 0
}

/// Host-physical address of the page an entry names.
pub open spec fn pte_hpa(e: u64) -> u64 {
    (e >> 10u64) << 12u64
}

/// Index into the root table (eleven bits, for the fourfold root).
pub open spec fn idx0(gpa: u64) -> int {
    ((gpa >> 30u64) & 0x7ffu64) as int
}

pub open spec fn idx1(gpa: u64) -> int {
    ((gpa >> 21u64) & 0x1ffu64) as int
}

pub open spec fn idx2(gpa: u64) -> int {
    ((gpa >> 12u64) & 0x1ffu64) as int
}

/// The entry `set_pte_flag` makes: page number kept, flags replaced by
/// `flag` at the last level, valid bit always set.
pub open spec fn set_flag_spec(pte: u64, level: u64, flag: u64) -> u64 {
    if level == 2 {
        (pte & PTE_PPN_MASK) | flag | PTE_VALID
    } else {
        (pte & PTE_PPN_MASK) | PTE_VALID
    }
}

/// The interior entry that points at the table at host-physical `h`.
pub open spec fn table_pte(h: u64) -> u64 {
    set_flag_spec((h >> 12u64) << 10u64, 0, 0)
}

/// The leaf entry that maps onto host-physical `hpa` with `flag`.
pub open spec fn leaf_pte(hpa: u64, flag: u64) -> u64 {
    set_flag_spec(hpa >> 2u64, 2, flag)
}

/// The table that holds word `p` of the arena: the root for the first four
/// pages, otherwise the page itself.
pub open spec fn owner(p: int) -> int {
    if p < ROOT_WORDS {
        0
    } else {
        p / 512
    }
}

/// A page-table entry found by a walk: its byte offset from the start of the
/// arena, its value and its level.
#[derive(Clone, Copy)]
pub struct Pte {
    pub offset: u64,
    pub value: u64,
    pub level: u32,
}

impl Pte {
    pub fn new(offset: u64, value: u64, level: u32) -> (r: Self)
        ensures
            r.offset == offset,
            r.value == value,
            r.level == level,
    {
        Self { offset, value, level }
    }

    /// Valid, and readable, writable or executable.
    pub fn is_leaf(&self) -> (r: bool)
        ensures
            r == !(self.value & 1 == 0 || self.value & 0xe == 0),
    {
        !(self.value & 0x1 == 0 || self.value & 0xE == 0)
    }

    pub fn get_offset(&self) -> (r: u64)
        ensures
            r == self.offset,
    {
        self.offset
    }

    pub fn get_value(&self) -> (r: u64)
        ensures
            r == self.value,
    {
        self.value
    }

    pub fn get_level(&self) -> (r: u32)
        ensures
            r == self.level,
    {
        self.level
    }
}

/// The arena of page-table words. `vaddr` and `paddr` are where the arena's
/// first byte lives in this process and in host-physical memory; `length`
/// is how many bytes it may grow to; `free_offset` is how many are in use.
pub struct PageTableRegion {
    pub vaddr: u64,
    pub paddr: u64,
    pub length: u64,
    pub free_offset: u64,
    pub words: Vec<u64>,
}

impl PageTableRegion {
    pub open spec fn wf(&self) -> bool {
        &&& self.words@.len() * 8 == self.free_offset
        &&& self.free_offset <= self.length
        &&& self.free_offset % 4096 == 0
        &&& self.paddr % 4096 == 0
        &&& self.paddr + self.length <= HPA_LIMIT
    }

    /// Word index of the table an entry names, if that table lies wholly in
    /// the used part of the arena.
    pub open spec fn follow(&self, e: u64) -> Option<int> {
        let h = pte_hpa(e);
        if h < self.paddr || h - self.paddr + 4096 > self.free_offset {
            None
        } else {
            Some((h - self.paddr) / 8)
        }
    }

    /// An arena over the region the allocator gives for page tables.
    pub fn new(allocator: &mut HpmAllocator) -> (r: Option<Self>)
        ensures
            *final(allocator) == *old(allocator),
            match r {
                Some(t) => {
                    &&& t.wf()
                    &&& t.free_offset == 0
                    &&& alloc_spec(old(allocator).hpm_region_list@, 0, PAGE_TABLE_REGION_SIZE) == Some(
                        HpmRegion { hpm_vptr: t.vaddr, base_address: t.paddr, length: t.length, offset: 0 },
                    )
                },
                None => {
                    alloc_spec(old(allocator).hpm_region_list@, 0, PAGE_TABLE_REGION_SIZE) is None
                    || !(alloc_spec(old(allocator).hpm_region_list@, 0, PAGE_TABLE_REGION_SIZE).unwrap().base_address % 4096 == 0
                        && alloc_spec(old(allocator).hpm_region_list@, 0, PAGE_TABLE_REGION_SIZE).unwrap().base_address
                        + PAGE_TABLE_REGION_SIZE <= HPA_LIMIT)
                },
            },
    {
        let region_wrap = allocator.hpm_alloc(0, PAGE_TABLE_REGION_SIZE);
        match region_wrap {
            Some(region) => {
                let vaddr = region[0].get_hpm_vpr();
                let paddr = region[0].get_base_address();
                let length = region[0].get_length();
                if paddr % 4096 != 0 || paddr > HPA_LIMIT - length {
                    return None;
                }
                Some(Self { vaddr, paddr, length, free_offset: 0, words: Vec::new() })
            },
            None => None,
        }
    }

    pub fn get_paddr(&self) -> (r: u64)
        ensures
            r == self.paddr,
    {
        self.paddr
    }

    pub fn va_to_hpa(&self, va: u64) -> (r: Option<u64>)
        ensures
            r == linear_spec(self.vaddr, self.paddr, va, self.length),
    {
        va_to_hpa_helper(self.vaddr, self.paddr, va, self.length)
    }

    pub fn hpa_to_va(&self, hpa: u64) -> (r: Option<u64>)
        ensures
            r == linear_spec(self.paddr, self.vaddr, hpa, self.length),
    {
        hpa_to_va_helper(self.vaddr, self.paddr, hpa, self.length)
    }

    /// A new zeroed table for `level` (four pages for the root, one page
    /// otherwise): its byte offset in the arena, or `None` when the arena is
    /// full.
    pub fn page_table_create(&mut self, level: u64) -> (r: Option<u64>)
        requires
            old(self).wf(),
        ensures
            final(self).wf(),
            ({
                let size: int = if level == 0 { 16384 } else { 4096 };
                match r {
                    Some(off) => {
                        &&& off == old(self).free_offset
                        &&& old(self).free_offset + size <= old(self).length
                        &&& final(self).free_offset == old(self).free_offset + size
                        &&& final(self).words@ == old(self).words@ + Seq::new((size / 8) as nat, |i: int| 0u64)
                        &&& final(self).vaddr == old(self).vaddr
                        &&& final(self).paddr == old(self).paddr
                        &&& final(self).length == old(self).length
                    },
                    None => {
                        &&& old(self).free_offset + size > old(self).length
                        &&& *final(self) == *old(self)
                    },
                }
            }),
    {
        let mut size: u64 = PAGE_SIZE;
        if level == 0 {
            size = PAGE_SIZE * 4;
        }
        self.page_table_alloc(size)
    }

    /// Takes `length` zeroed bytes from the arena.
    pub fn page_table_alloc(&mut self, length: u64) -> (r: Option<u64>)
        requires
            old(self).wf(),
            length % 4096 == 0,
        ensures
            final(self).wf(),
            match r {
                Some(off) => {
                    &&& off == old(self).free_offset
                    &&& old(self).free_offset + length <= old(self).length
                    &&& final(self).free_offset == old(self).free_offset + length
                    &&& final(self).words@ == old(self).words@ + Seq::new((length / 8) as nat, |i: int| 0u64)
                    &&& final(self).vaddr == old(self).vaddr
                    &&& final(self).paddr == old(self).paddr
                    &&& final(self).length == old(self).length
                },
                None => {
                    &&& old(self).free_offset + length > old(self).length
                    &&& *final(self) == *old(self)
                },
            },
    {
        if length > self.length - self.free_offset {
            return None;
        }
        let offset = self.free_offset;
        let n: u64 = length / 8;
        let ghost w0 = self.words@;
        let mut i: u64 = 0;
        while i < n
            invariant
                0 <= i <= n,
                n == length / 8,
                self.words@ == w0 + Seq::new(i as nat, |j: int| 0u64),
                self.free_offset == old(self).free_offset,
                self.length == old(self).length,
                self.paddr == old(self).paddr,
                self.vaddr == old(self).vaddr,
                w0 == old(self).words@,
                length <= old(self).length - old(self).free_offset,
            decreases n - i,
        {
            self.words.push(0);
            i = i + 1;
            assert(self.words@ =~= w0 + Seq::new(i as nat, |j: int| 0u64));
        }
        self.free_offset = self.free_offset + length;
        Some(offset)
    }

    /// Word index of the table an entry names, as [`Self::follow`] says.
    fn follow_exec(&self, e: u64) -> (r: Option<u64>)
        requires
            self.wf(),
        ensures
            r == (match self.follow(e) {
                Some(t) => Some(t as u64),
                None => None::<u64>,
            }),
            r matches Some(t) ==> t + 512 <= self.words@.len(),
    {
        let h = (e >> 10) << 12;
        if h < self.paddr || h - self.paddr > self.free_offset || self.free_offset - (h - self.paddr) < 4096 {
            return None;
        }
        Some((h - self.paddr) / 8)
    }
}

proof fn lemma_zero_invalid()
    ensures
        !valid(0),
{
    assert(0u64 & 1u64 == 0) by (bit_vector);
}

proof fn lemma_index_bounds(gpa: u64)
    ensures
        0 <= idx0(gpa) < 2048,
        0 <= idx1(gpa) < 512,
        0 <= idx2(gpa) < 512,
{
    assert((gpa >> 30u64) & 0x7ffu64 < 2048) by (bit_vector);
    assert((gpa >> 21u64) & 0x1ffu64 < 512) by (bit_vector);
    assert((gpa >> 12u64) & 0x1ffu64 < 512) by (bit_vector);
}

proof fn lemma_table_pte(h: u64)
    requires
        h % 4096 == 0,
        h <= HPA_LIMIT,
    ensures
        valid(table_pte(h)),
        pte_hpa(table_pte(h)) == h,
{
    assert(h % 4096 == 0 && h <= 0x3F_FFFF_FFFF_FFFF ==> (((((h >> 12u64) << 10u64) & 0xFFFF_FFFF_FFFF_FC00u64)
        | 1u64) & 1u64 != 0 && ((((((h >> 12u64) << 10u64) & 0xFFFF_FFFF_FFFF_FC00u64) | 1u64) >> 10u64)
        << 12u64) == h)) by (bit_vector);
}

proof fn lemma_leaf_pte(hpa: u64, flag: u64)
    requires
        hpa % 4096 == 0,
        flag < 1024,
    ensures
        valid(leaf_pte(hpa, flag)),
        leaf_pte(hpa, flag) >> 10u64 == hpa >> 12u64,
        leaf_pte(hpa, flag) & 0x3ffu64 == flag | 1u64,
{
    assert(hpa % 4096 == 0 && flag < 1024 ==> ((((hpa >> 2u64) & 0xFFFF_FFFF_FFFF_FC00u64) | flag | 1u64) & 1u64
        != 0 && (((hpa >> 2u64) & 0xFFFF_FFFF_FFFF_FC00u64) | flag | 1u64) >> 10u64 == hpa >> 12u64 && (((hpa
        >> 2u64) & 0xFFFF_FFFF_FFFF_FC00u64) | flag | 1u64) & 0x3ffu64 == flag | 1u64)) by (bit_vector);
}

proof fn lemma_leaf_valid(hpa: u64, flag: u64)
    ensures
        valid(leaf_pte(hpa, flag)),
{
    assert((((hpa >> 2u64) & 0xFFFF_FFFF_FFFF_FC00u64) | flag | 1u64) & 1u64 != 0) by (bit_vector);
}

proof fn lemma_set_flag(v: u64, flag: u64)
    ensures
        valid(set_flag_spec(v, 2, flag)),
        flag < 1024 ==> set_flag_spec(v, 2, flag) >> 10u64 == v >> 10u64 && set_flag_spec(v, 2, flag) & 0x3ffu64
            == flag | 1u64,
{
    assert(((v & 0xFFFF_FFFF_FFFF_FC00u64) | flag | 1u64) & 1u64 != 0) by (bit_vector);
    assert(flag < 1024 ==> ((v & 0xFFFF_FFFF_FFFF_FC00u64) | flag | 1u64) >> 10u64 == v >> 10u64 && ((v
        & 0xFFFF_FFFF_FFFF_FC00u64) | flag | 1u64) & 0x3ffu64 == flag | 1u64) by (bit_vector);
}

/// Page `k` of the range that starts at `gpa`.
pub open spec fn page_at(gpa: u64, k: int) -> u64 {
    (gpa + 4096 * k) as u64
}

/// How many pages a range operation of `length` bytes visits: at least one.
pub open spec fn range_pages(length: u64) -> int {
    if length == 0 {
        1
    } else {
        length as int / 4096
    }
}

/// A table whose words only went to zero keeps every page that had no leaf
/// without one.
proof fn lemma_zeroing_keeps_no_leaf(a: GStageMmu, b: GStageMmu, g: u64)
    requires
        a.wf(),
        b.page_table.words@.len() == a.page_table.words@.len(),
        b.page_table.paddr == a.page_table.paddr,
        b.page_table.free_offset == a.page_table.free_offset,
        forall|q: int|
            0 <= q < a.page_table.words@.len() && #[trigger] b.page_table.words@[q] != a.page_table.words@[q]
                ==> b.page_table.words@[q] == 0,
        a.leaf_spec(g) is None,
    ensures
        b.leaf_spec(g) is None,
{
    lemma_index_bounds(g);
    lemma_zero_invalid();
    let wa = a.page_table.words@;
    let wb = b.page_table.words@;
    let q0 = idx0(g);
    if valid(wb[q0]) {
        assert(wb[q0] == wa[q0]);
        match a.page_table.follow(wa[q0]) {
            Some(t1) => {
                let q1 = t1 + idx1(g);
                assert(q1 < wa.len());
                if valid(wb[q1]) {
                    assert(wb[q1] == wa[q1]);
                    match a.page_table.follow(wa[q1]) {
                        Some(t2) => {
                            let q2 = t2 + idx2(g);
                            assert(q2 < wa.len());
                            if valid(wb[q2]) {
                                assert(wb[q2] == wa[q2]);
                            }
                        },
                        None => {},
                    }
                }
            },
            None => {},
        }
    }
}

/// Whether the 512 words from `start` are all zero.
pub open spec fn page_zero(words: Seq<u64>, start: int) -> bool {
    forall|q: int| start <= q < start + 512 ==> #[trigger] words[q] == 0
}

proof fn lemma_owner(k: int, i: int)
    requires
        k >= 4,
        0 <= i < 512,
    ensures
        owner(512 * k + i) == k,
{
    assert((512 * k + i) / 512 == k) by (nonlinear_arith)
        requires
            k >= 4,
            0 <= i < 512,
    ;
}

/// Entries above the last level keep naming distinct tables when every
/// such entry of `b` was one of `a` with the same word, but for at most one
/// (`fresh`) that names a table past the end of `a`'s arena.
proof fn lemma_unique_kept(a: GStageMmu, b: GStageMmu, fresh: int)
    requires
        a.wf(),
        b.page_table.paddr == a.page_table.paddr,
        b.page_table.free_offset >= a.page_table.free_offset,
        a.levels@.submap_of(b.levels@),
        b.page_table.words@.len() >= a.page_table.words@.len(),
        forall|q: int|
            #[trigger] b.interior(q) && q != fresh ==> a.interior(q) && b.page_table.words@[q]
                == a.page_table.words@[q],
        b.interior(fresh) ==> (b.page_table.follow(b.page_table.words@[fresh]) matches Some(t) && t
            >= a.page_table.words@.len()),
    ensures
        forall|p: int, q: int|
            #[trigger] b.interior(p) && #[trigger] b.interior(q) && p != q ==> b.page_table.follow(
                b.page_table.words@[p],
            ) != b.page_table.follow(b.page_table.words@[q]),
{
    assert forall|p: int, q: int|
        #[trigger] b.interior(p) && #[trigger] b.interior(q) && p != q implies b.page_table.follow(
            b.page_table.words@[p],
        ) != b.page_table.follow(b.page_table.words@[q]) by {
        let wa = a.page_table.words@;
        let wb = b.page_table.words@;
        if p != fresh {
            assert(a.interior(p));
            assert(a.points_to_level(wa[p], a.levels@[owner(p)] + 1));
            let tp = a.page_table.follow(wa[p]).unwrap();
            assert(a.levels@.contains_key(tp / 512));
            assert(b.page_table.follow(wb[p]) == Some(tp));
            assert(tp + 512 <= wa.len());
        }
        if q != fresh {
            assert(a.interior(q));
            assert(a.points_to_level(wa[q], a.levels@[owner(q)] + 1));
            let tq = a.page_table.follow(wa[q]).unwrap();
            assert(a.levels@.contains_key(tq / 512));
            assert(b.page_table.follow(wb[q]) == Some(tq));
            assert(tq + 512 <= wa.len());
        }
        if p != fresh && q != fresh {
            assert(a.interior(p) && a.interior(q));
        }
    }
}

/// Whether two addresses share their page-table indices at every level.
pub open spec fn same_slot(g1: u64, g2: u64) -> bool {
    idx0(g1) == idx0(g2) && idx1(g1) == idx1(g2) && idx2(g1) == idx2(g2)
}

/// When `b` differs from `a` only in words that were invalid in `a` and in
/// the leaf slot of `gpa`, every other page keeps its leaf.
proof fn lemma_leaf_frame(a: GStageMmu, b: GStageMmu, gpa: u64, g: u64)
    requires
        a.wf(),
        b.wf(),
        b.page_table.paddr == a.page_table.paddr,
        b.page_table.free_offset >= a.page_table.free_offset,
        a.levels@.submap_of(b.levels@),
        b.page_table.words@.len() >= a.page_table.words@.len(),
        b.query_spec(gpa) matches Some(p) && p.level == 2,
        forall|q: int|
            0 <= q < a.page_table.words@.len() && #[trigger] b.page_table.words@[q] != a.page_table.words@[q]
                ==> !valid(a.page_table.words@[q]) || q == b.query_spec(gpa).unwrap().offset as int / 8,
        a.leaf_spec(g) is Some,
        !same_slot(g, gpa),
    ensures
        b.leaf_spec(g) == a.leaf_spec(g),
{
    lemma_index_bounds(g);
    lemma_index_bounds(gpa);
    let wa = a.page_table.words@;
    let wb = b.page_table.words@;
    let q0 = idx0(g);
    let e0 = wa[q0];
    assert(a.points_to_level(e0, 1));
    let t1 = a.page_table.follow(e0).unwrap();
    lemma_owner(t1 / 512, idx1(g));
    let q1 = t1 + idx1(g);
    let e1 = wa[q1];
    assert(a.points_to_level(e1, 2));
    let t2 = a.page_table.follow(e1).unwrap();
    lemma_owner(t2 / 512, idx2(g));
    let q2 = t2 + idx2(g);
    let r0 = idx0(gpa);
    let f0 = wb[r0];
    assert(b.points_to_level(f0, 1));
    let u1 = b.page_table.follow(f0).unwrap();
    lemma_owner(u1 / 512, idx1(gpa));
    let r1 = u1 + idx1(gpa);
    let f1 = wb[r1];
    assert(b.points_to_level(f1, 2));
    let u2 = b.page_table.follow(f1).unwrap();
    lemma_owner(u2 / 512, idx2(gpa));
    let leaf = u2 + idx2(gpa);
    assert(b.query_spec(gpa).unwrap().offset as int / 8 == leaf);
    assert(owner(q0) == 0);
    assert(wb[q0] == e0);
    assert(b.page_table.follow(e0) == Some(t1));
    assert(a.levels@.contains_key(t1 / 512));
    assert(b.levels@[t1 / 512] == 1);
    assert(q1 != leaf);
    assert(wb[q1] == e1);
    assert(b.page_table.follow(e1) == Some(t2));
    if q2 == leaf {
        assert(t2 == u2);
        assert(b.interior(q1));
        assert(b.interior(r1));
        assert(q1 == r1);
        assert(t1 == u1);
        assert(b.interior(q0));
        assert(b.interior(r0));
        assert(q0 == r0);
        assert(false);
    }
    assert(wb[q2] == wa[q2]);
}

/// Pages fewer than 2^29 pages apart never share their table indices.
proof fn lemma_distinct_slots(gpa: u64, k1: int, k2: int)
    requires
        0 <= k1 < k2 < 0x2000_0000,
        gpa + 4096 * k2 <= u64::MAX,
    ensures
        !same_slot(page_at(gpa, k1), page_at(gpa, k2)),
{
    let y = page_at(gpa, k1);
    let x = page_at(gpa, k2);
    let d = (k2 - k1) as u64;
    assert(x == y + d * 4096) by (nonlinear_arith)
        requires
            x == gpa + 4096 * k2,
            y == gpa + 4096 * k1,
            d == k2 - k1,
    ;
    assert(0 < d < 0x2000_0000 && y + d * 4096 <= 0xffff_ffff_ffff_ffff && x == y + d * 4096 ==> !(((x >> 30u64)
        & 0x7ffu64) == ((y >> 30u64) & 0x7ffu64) && ((x >> 21u64) & 0x1ffu64) == ((y >> 21u64) & 0x1ffu64) && ((x
        >> 12u64) & 0x1ffu64) == ((y >> 12u64) & 0x1ffu64))) by (bit_vector);
}

/// The stage-2 MMU of one guest: the page table, the guest-memory map, the
/// host-physical allocator and the layout of memory and device ranges.
pub struct GStageMmu {
    pub page_table: PageTableRegion,
    pub guest_mem: GuestMemory,
    pub allocator: HpmAllocator,
    pub mmio_manager: MmioManager,
    pub mem_gpa_regions: Vec<GpaRegion>,
    pub mem_size: u64,
    /// The level of each table, keyed by its first word index over 512.
    pub levels: Ghost<Map<int, int>>,
}

impl GStageMmu {
    /// Whether entry `e` of a table at level `level - 1` names a table at
    /// `level`.
    pub open spec fn points_to_level(&self, e: u64, level: int) -> bool {
        match self.page_table.follow(e) {
            Some(t) => {
                &&& t % 512 == 0
                &&& t >= ROOT_WORDS
                &&& self.levels@.contains_key(t / 512)
                &&& self.levels@[t / 512] == level
            },
            None => false,
        }
    }

    pub open spec fn wf(&self) -> bool {
        let words = self.page_table.words@;
        let levels = self.levels@;
        &&& self.page_table.wf()
        &&& words.len() >= ROOT_WORDS
        &&& levels.contains_key(0)
        &&& levels[0] == 0
        &&& forall|k: int|
            #[trigger] levels.contains_key(k) && k != 0 ==> k >= 4 && (levels[k] == 1 || levels[k] == 2) && 512 * k
                + 512 <= words.len()
        &&& forall|p: int|
            0 <= p < words.len() && levels.contains_key(owner(p)) && levels[owner(p)] < 2 && valid(
                #[trigger] words[p],
            ) ==> self.points_to_level(words[p], levels[owner(p)] + 1)
        &&& forall|p: int, q: int|
            #[trigger] self.interior(p) && #[trigger] self.interior(q) && p != q ==> self.page_table.follow(words[p])
                != self.page_table.follow(words[q])
    }

    /// Word `p` is a valid entry of a table above the last level.
    pub open spec fn interior(&self, p: int) -> bool {
        let words = self.page_table.words@;
        let levels = self.levels@;
        &&& 0 <= p < words.len()
        &&& levels.contains_key(owner(p))
        &&& levels[owner(p)] < 2
        &&& valid(words[p])
    }

    /// The walk that a lookup of `gpa` performs: the deepest valid entry on
    /// its path, `None` when the root entry is invalid or an entry names a
    /// table outside the arena.
    pub open spec fn query_spec(&self, gpa: u64) -> Option<Pte> {
        let words = self.page_table.words@;
        let at0 = idx0(gpa);
        let e0 = words[at0];
        if !valid(e0) {
            None
        } else {
            match self.page_table.follow(e0) {
                None => None,
                Some(t1) => {
                    let at1 = t1 + idx1(gpa);
                    let e1 = words[at1];
                    if !valid(e1) {
                        Some(Pte { offset: (at0 * 8) as u64, value: e0, level: 0 })
                    } else {
                        match self.page_table.follow(e1) {
                            None => None,
                            Some(t2) => {
                                let at2 = t2 + idx2(gpa);
                                let e2 = words[at2];
                                if !valid(e2) {
                                    Some(Pte { offset: (at1 * 8) as u64, value: e1, level: 1 })
                                } else {
                                    Some(Pte { offset: (at2 * 8) as u64, value: e2, level: 2 })
                                }
                            },
                        }
                    }
                },
            }
        }
    }

    /// The leaf entry that maps the page of `gpa`, if there is one.
    pub open spec fn leaf_spec(&self, gpa: u64) -> Option<Pte> {
        match self.query_spec(gpa) {
            Some(pte) => if pte.level == 2 {
                Some(pte)
            } else {
                None
            },
            None => None,
        }
    }

    /// No table on the path of `gpa` below the root is left all zero while
    /// the entry above it still points at it.
    pub open spec fn no_empty_ancestor(&self, gpa: u64) -> bool {
        let words = self.page_table.words@;
        let e0 = words[idx0(gpa)];
        valid(e0) ==> match self.page_table.follow(e0) {
            Some(t1) => {
                &&& !page_zero(words, t1)
                &&& valid(words[t1 + idx1(gpa)]) ==> match self.page_table.follow(words[t1 + idx1(gpa)]) {
                    Some(t2) => !page_zero(words, t2),
                    None => true,
                }
            },
            None => true,
        }
    }

    /// The host-virtual and host-physical addresses that back `gpa` through
    /// the guest-memory map.
    pub open spec fn block_query_spec(&self, gpa: u64) -> Option<(u64, u64)> {
        match self.guest_mem.lookup((gpa - gpa % 4096) as u64) {
            Some((hva, hpa)) => if hva + gpa % 4096 <= u64::MAX && hpa + gpa % 4096 <= u64::MAX {
                Some(((hva + gpa % 4096) as u64, (hpa + gpa % 4096) as u64))
            } else {
                None
            },
            None => None,
        }
    }

    /// Whether mapping page `gpa` onto `hpa` succeeds.
    pub open spec fn map_ok(&self, gpa: u64, hpa: u64) -> bool {
        gpa % 4096 == 0 && hpa % 4096 == 0 && self.tables_needed(gpa) * 4096 <= self.page_table.length
            - self.page_table.free_offset
    }

    /// Whether word `q` of the arena is one of the entries the walk of `gpa`
    /// reads.
    pub open spec fn on_walk(&self, gpa: u64, q: int) -> bool {
        let words = self.page_table.words@;
        let e0 = words[idx0(gpa)];
        q == idx0(gpa) || (valid(e0) && match self.page_table.follow(e0) {
            Some(t1) => q == t1 + idx1(gpa) || (valid(words[t1 + idx1(gpa)]) && match self.page_table.follow(
                words[t1 + idx1(gpa)],
            ) {
                Some(t2) => q == t2 + idx2(gpa),
                None => false,
            }),
            None => false,
        })
    }

    /// An entry above the leaf on the walk of `gpa` may be cleared (word `q`)
    /// only when the sub-table it pointed to is wholly zero in `words`.
    pub open spec fn release_ok(&self, words: Seq<u64>, gpa: u64, q: int) -> bool {
        let w = self.page_table.words@;
        let e0 = w[idx0(gpa)];
        &&& q == idx0(gpa) && valid(e0) ==> match self.page_table.follow(e0) {
            Some(t1) => page_zero(words, t1),
            None => true,
        }
        &&& valid(e0) && q != idx0(gpa) ==> match self.page_table.follow(e0) {
            Some(t1) => q == t1 + idx1(gpa) && valid(w[q]) ==> match self.page_table.follow(w[q]) {
                Some(t2) => page_zero(words, t2),
                None => true,
            },
            None => true,
        }
    }

    /// How many tables a mapping of `gpa` has to add.
    pub open spec fn tables_needed(&self, gpa: u64) -> int {
        let words = self.page_table.words@;
        let e0 = words[idx0(gpa)];
        if !valid(e0) {
            2
        } else {
            match self.page_table.follow(e0) {
                Some(t1) => if valid(words[t1 + idx1(gpa)]) {
                    0
                } else {
                    1
                },
                None => 0,
            }
        }
    }

    /// The MMU for a guest of `mem_size` bytes whose device ranges are
    /// `mmio_regions`; the page table comes from `allocator`, which must
    /// already hold a region with room for it.
    pub fn new(
        allocator: HpmAllocator,
        mem_size: u64,
        guest_mem: GuestMemory,
        mmio_regions: Vec<GpaRegion>,
    ) -> (r: Option<Self>)
        requires
            mem_size <= u64::MAX - MEM_START,
            forall|i: int|
                0 <= i < mmio_regions@.len() ==> #[trigger] mmio_regions@[i].gpa + mmio_regions@[i].length
                    <= u64::MAX,
        ensures
            match r {
                Some(m) => {
                    &&& m.wf()
                    &&& m.mem_size == mem_size
                    &&& m.mmio_manager.gpa_regions@ == mmio_regions@
                    &&& m.mem_gpa_regions@ == memory_regions_spec(mmio_regions@, mem_size)
                    &&& regions_valid(mmio_regions@)
                    &&& forall|g: u64| #[trigger] m.query_spec(g) is None
                },
                None => {
                    let region = alloc_spec(allocator.hpm_region_list@, 0, PAGE_TABLE_REGION_SIZE);
                    !regions_valid(mmio_regions@) || region is None || !(region.unwrap().base_address % 4096 == 0 && region.unwrap().base_address
                        + PAGE_TABLE_REGION_SIZE <= HPA_LIMIT)
                },
            },
    {
        let mut allocator = allocator;
        let page_table_wrap = PageTableRegion::new(&mut allocator);
        let mut page_table = match page_table_wrap {
            Some(t) => t,
            None => {
                return None;
            },
        };
        let mmio_manager = MmioManager::new(mmio_regions);
        if !mmio_manager.check_valid() {
            return None;
        }
        let mem_gpa_regions = GStageMmu::init_gpa_regions(mem_size, &mmio_manager);
        let root = page_table.page_table_create(0);
        if root.is_none() {
            return None;
        }
        let ghost lv = map![0int => 0int];
        let m = Self {
            page_table,
            guest_mem,
            allocator,
            mmio_manager,
            mem_gpa_regions,
            mem_size,
            levels: Ghost(lv),
        };
        assert(m.page_table.words@ =~= Seq::new(2048, |i: int| 0u64));
        proof {
            lemma_zero_invalid();
        }
        assert forall|g: u64| #[trigger] m.query_spec(g) is None by {
            lemma_index_bounds(g);
        }
        Some(m)
    }

    pub fn get_pt_region(&self) -> (r: &PageTableRegion)
        ensures
            *r == self.page_table,
    {
        &self.page_table
    }

    pub fn get_mem_gpa_regions(&self) -> (r: &Vec<GpaRegion>)
        ensures
            r@ == self.mem_gpa_regions@,
    {
        &self.mem_gpa_regions
    }

    /// Replaces the flags of `pte`: at the last level with `flag`, above it
    /// with none; the valid bit is always set and the page number kept.
    pub fn set_pte_flag(pte: u64, level: u64, flag: u64) -> (r: u64)
        ensures
            r == set_flag_spec(pte, level, flag),
    {
        let mut pte = pte & PTE_PPN_MASK;
        let pt_level: u64 = (S2PT_MODE - 1) as u64;
        if level == pt_level {
            pte = pte | flag;
        }
        pte = pte | PTE_VALID;
        pte
    }

    /// Makes sure that the entry at word `p`, in a table at `level`, names a
    /// table one level down, adding a zeroed one when the entry is invalid.
    /// Returns the word index of that table, or `None` when the arena is full.
    fn ensure_table(&mut self, p: u64, level: u64) -> (r: Option<u64>)
        requires
            old(self).wf(),
            p < old(self).page_table.words@.len(),
            old(self).levels@.contains_key(owner(p as int)),
            old(self).levels@[owner(p as int)] == level as int,
            level < 2,
        ensures
            final(self).wf(),
            final(self).page_table.paddr == old(self).page_table.paddr,
            final(self).page_table.vaddr == old(self).page_table.vaddr,
            final(self).page_table.length == old(self).page_table.length,
            final(self).page_table.free_offset >= old(self).page_table.free_offset,
            final(self).page_table.words@.len() >= old(self).page_table.words@.len(),
            old(self).levels@.submap_of(final(self).levels@),
            forall|q: int|
                0 <= q < old(self).page_table.words@.len() && q != p ==> #[trigger] final(self).page_table.words@[q]
                    == old(self).page_table.words@[q],
            final(self).guest_mem == old(self).guest_mem,
            final(self).allocator == old(self).allocator,
            final(self).mmio_manager == old(self).mmio_manager,
            final(self).mem_gpa_regions == old(self).mem_gpa_regions,
            final(self).mem_size == old(self).mem_size,
            valid(old(self).page_table.words@[p as int]) ==> *final(self) == *old(self) && r is Some,
            match r {
                Some(t) => {
                    &&& valid(final(self).page_table.words@[p as int])
                    &&& final(self).page_table.follow(final(self).page_table.words@[p as int]) == Some(t as int)
                    &&& t % 512 == 0
                    &&& t >= ROOT_WORDS
                    &&& final(self).levels@.contains_key(t as int / 512)
                    &&& final(self).levels@[t as int / 512] == level + 1
                    &&& t + 512 <= final(self).page_table.words@.len()
                    &&& !valid(old(self).page_table.words@[p as int]) ==> final(self).page_table.free_offset
                        == old(self).page_table.free_offset + 4096 && t == old(self).page_table.words@.len() && (
                    forall|q: int|
                        old(self).page_table.words@.len() <= q < final(self).page_table.words@.len()
                            ==> #[trigger] final(self).page_table.words@[q] == 0)
                },
                None => {
                    &&& *final(self) == *old(self)
                    &&& !valid(old(self).page_table.words@[p as int])
                    &&& old(self).page_table.free_offset + 4096 > old(self).page_table.length
                },
            },
    {
        let len = self.page_table.words.len();
        assert(p < len);
        let e = self.page_table.words[p as usize];
        if e & PTE_VALID != 0 {
            proof {
                let k = owner(p as int);
                assert(self.page_table.words@[p as int] == e);
                assert(valid(e));
                assert(self.points_to_level(e, level + 1));
                let t = self.page_table.follow(e).unwrap();
                assert(self.levels@.contains_key(t / 512));
                assert(t == 512 * (t / 512));
            }
            return self.page_table.follow_exec(e);
        }
        let ghost old_self = *self;
        let ghost old_len = self.page_table.words@.len();
        let created = self.page_table.page_table_create(level + 1);
        let off = match created {
            Some(off) => off,
            None => {
                return None;
            },
        };
        let h = self.page_table.paddr + off;
        let pte = GStageMmu::set_pte_flag((h >> 12) << 10, level, 0);
        let t: u64 = off / 8;
        self.page_table.words.set(p as usize, pte);
        proof {
            lemma_table_pte(h);
            assert(pte == table_pte(h));
            lemma_zero_invalid();
            assert(old_len % 512 == 0);
            assert(t == old_len);
            let k = t as int / 512;
            assert(t == 512 * k);
            assert(!old_self.levels@.contains_key(k));
            self.levels@ = self.levels@.insert(k, level + 1);
        }
        proof {
            let words = self.page_table.words@;
            let levels = self.levels@;
            let k = t as int / 512;
            assert(self.page_table.follow(pte) == Some(t as int));
            assert forall|kk: int| #[trigger] levels.contains_key(kk) && kk != 0 implies kk >= 4 && (levels[kk] == 1
                || levels[kk] == 2) && 512 * kk + 512 <= words.len() by {
                if kk != k {
                    assert(old_self.levels@.contains_key(kk));
                }
            }
            assert forall|q: int|
                0 <= q < words.len() && levels.contains_key(owner(q)) && levels[owner(q)] < 2 && valid(
                    #[trigger] words[q],
                ) implies self.points_to_level(words[q], levels[owner(q)] + 1) by {
                if q == p {
                } else if q >= old_len {
                    assert(words[q] == 0);
                } else {
                    let ow = old_self.page_table.words@[q];
                    assert(words[q] == ow);
                    if q >= ROOT_WORDS {
                        assert(owner(q) < k);
                    }
                    assert(old_self.levels@.contains_key(owner(q)));
                    assert(old_self.points_to_level(ow, old_self.levels@[owner(q)] + 1));
                    let t2 = old_self.page_table.follow(ow).unwrap();
                    assert(old_self.levels@.contains_key(t2 / 512));
                }
            }
            assert forall|q: int| #[trigger] self.interior(q) && q != p implies old_self.interior(q)
                && words[q] == old_self.page_table.words@[q] by {
                if q >= old_len {
                    assert(words[q] == 0);
                } else {
                    if q >= ROOT_WORDS {
                        assert(owner(q) < k);
                    }
                }
            }
            lemma_unique_kept(old_self, *self, p as int);
        }
        Some(t)
    }
    /// The leaf entry that maps the page of `gpa`, as [`Self::leaf_spec`]
    /// says: `None` when the walk stops above the last level.
    pub fn map_query(&self, gpa: u64) -> (r: Option<Pte>)
        requires
            self.wf(),
        ensures
            r == self.leaf_spec(gpa),
    {
        proof {
            lemma_index_bounds(gpa);
        }
        let len = self.page_table.words.len();
        let at0: u64 = (gpa >> 30) & 0x7ff;
        let e0 = self.page_table.words[at0 as usize];
        if e0 & PTE_VALID == 0 {
            return None;
        }
        let t1 = match self.page_table.follow_exec(e0) {
            Some(t) => t,
            None => {
                return None;
            },
        };
        let at1: u64 = t1 + ((gpa >> 21) & 0x1ff);
        let e1 = self.page_table.words[at1 as usize];
        if e1 & PTE_VALID == 0 {
            return None;
        }
        let t2 = match self.page_table.follow_exec(e1) {
            Some(t) => t,
            None => {
                return None;
            },
        };
        let at2: u64 = t2 + ((gpa >> 12) & 0x1ff);
        let e2 = self.page_table.words[at2 as usize];
        if e2 & PTE_VALID == 0 {
            return None;
        }
        Some(Pte::new(at2 * 8, e2, 2))
    }

    /// [`Self::tables_needed`], computed.
    fn tables_needed_exec(&self, gpa: u64) -> (r: u64)
        requires
            self.wf(),
        ensures
            r == self.tables_needed(gpa),
    {
        proof {
            lemma_index_bounds(gpa);
        }
        let e0 = self.page_table.words[((gpa >> 30) & 0x7ff) as usize];
        if e0 & PTE_VALID == 0 {
            return 2;
        }
        match self.page_table.follow_exec(e0) {
            Some(t1) => {
                let len = self.page_table.words.len();
                let at1: u64 = t1 + ((gpa >> 21) & 0x1ff);
                assert(at1 < len);
                let e1 = self.page_table.words[at1 as usize];
                if e1 & PTE_VALID == 0 {
                    1
                } else {
                    0
                }
            },
            None => 0,
        }
    }

    /// Builds the path of tables down to the leaf slot of `gpa`, adding the
    /// missing ones. Returns the byte offsets in the arena of the entry used
    /// at each level (the last element is unused), or `None`, with nothing
    /// changed, when the arena has no room for the missing tables.
    pub fn gpa_to_ptregion_offset(&mut self, gpa: u64) -> (r: Option<[u64; 4]>)
        requires
            old(self).wf(),
        ensures
            final(self).wf(),
            final(self).page_table.paddr == old(self).page_table.paddr,
            final(self).page_table.vaddr == old(self).page_table.vaddr,
            final(self).page_table.length == old(self).page_table.length,
            final(self).guest_mem == old(self).guest_mem,
            final(self).allocator == old(self).allocator,
            final(self).mmio_manager == old(self).mmio_manager,
            final(self).mem_gpa_regions == old(self).mem_gpa_regions,
            final(self).mem_size == old(self).mem_size,
            old(self).levels@.submap_of(final(self).levels@),
            r is Some <==> old(self).tables_needed(gpa) * 4096 <= old(self).page_table.length
                - old(self).page_table.free_offset,
            r is None ==> *final(self) == *old(self),
            r matches Some(o) ==> {
                let words = final(self).page_table.words@;
                let at0 = idx0(gpa);
                let at1 = o@[1] as int / 8;
                let at2 = o@[2] as int / 8;
                &&& o@[0] == at0 * 8
                &&& o@[1] % 8 == 0
                &&& o@[2] % 8 == 0
                &&& o@[3] == 0
                &&& valid(words[at0])
                &&& final(self).page_table.follow(words[at0]) == Some(at1 - idx1(gpa))
                &&& valid(words[at1])
                &&& final(self).page_table.follow(words[at1]) == Some(at2 - idx2(gpa))
                &&& ROOT_WORDS <= at1 < words.len()
                &&& ROOT_WORDS <= at2 < words.len()
                &&& final(self).levels@.contains_key(owner(at1))
                &&& final(self).levels@[owner(at1)] == 1
                &&& final(self).levels@.contains_key(owner(at2))
                &&& final(self).levels@[owner(at2)] == 2
                &&& final(self).page_table.free_offset == old(self).page_table.free_offset + 4096
                    * old(self).tables_needed(gpa)
                &&& forall|q: int|
                    0 <= q < old(self).page_table.words@.len() && q != at0 && q != at1 ==> #[trigger] words[q]
                        == old(self).page_table.words@[q]
                &&& forall|q: int|
                    0 <= q < old(self).page_table.words@.len() && #[trigger] words[q]
                        != old(self).page_table.words@[q] ==> !valid(old(self).page_table.words@[q])
            },
    {
        proof {
            lemma_index_bounds(gpa);
        }
        let needed = self.tables_needed_exec(gpa);
        if needed * 4096 > self.page_table.length - self.page_table.free_offset {
            return None;
        }
        let ghost s0 = *self;
        let at0: u64 = (gpa >> 30) & 0x7ff;
        assert(owner(at0 as int) == 0);
        let t1 = match self.ensure_table(at0, 0) {
            Some(t) => t,
            None => {
                return None;
            },
        };
        let ghost s1 = *self;
        let at1: u64 = t1 + ((gpa >> 21) & 0x1ff);
        proof {
            lemma_owner(t1 as int / 512, idx1(gpa));
            if !valid(s0.page_table.words@[at0 as int]) {
                lemma_zero_invalid();
                assert(at1 >= s0.page_table.words@.len());
                assert(s1.page_table.words@[at1 as int] == 0);
            }
        }
        let t2 = match self.ensure_table(at1, 1) {
            Some(t) => t,
            None => {
                return None;
            },
        };
        let at2: u64 = t2 + ((gpa >> 12) & 0x1ff);
        proof {
            lemma_owner(t2 as int / 512, idx2(gpa));
            assert(self.page_table.words@[at0 as int] == s1.page_table.words@[at0 as int]);
            assert forall|k: int| #[trigger] s0.levels@.contains_key(k) implies self.levels@.contains_key(k)
                && self.levels@[k] == s0.levels@[k] by {
                assert(s1.levels@.contains_key(k));
            }
            assert(s0.levels@.submap_of(self.levels@));
            assert forall|q: int|
                0 <= q < s0.page_table.words@.len() && #[trigger] self.page_table.words@[q]
                    != s0.page_table.words@[q] implies !valid(s0.page_table.words@[q]) by {
                if q == at1 as int && q != at0 as int {
                    assert(s1.page_table.words@[q] == s0.page_table.words@[q]);
                }
            }
        }
        Some([at0 * 8, at1 * 8, at2 * 8, 0])
    }

    /// Maps the page at `gpa` onto host-physical `hpa` with `flag` at the
    /// last level. Refused (`None`, nothing changed) when either address is
    /// not page-aligned or the arena has no room for the missing tables.
    pub fn map_page(&mut self, gpa: u64, hpa: u64, flag: u64) -> (r: Option<u32>)
        requires
            old(self).wf(),
        ensures
            final(self).wf(),
            r is Some <==> gpa % 4096 == 0 && hpa % 4096 == 0 && old(self).tables_needed(gpa) * 4096
                <= old(self).page_table.length - old(self).page_table.free_offset,
            r is None ==> *final(self) == *old(self),
            r is Some ==> r == Some(0u32) && (final(self).query_spec(gpa) matches Some(pte) && pte.level == 2
                && pte.value == leaf_pte(hpa, flag)),
            r is Some && flag < 1024 ==> (final(self).query_spec(gpa) matches Some(pte) && pte.value >> 10u64
                == hpa >> 12u64 && pte.value & 0x3ffu64 == flag | 1u64),
            final(self).page_table.free_offset <= old(self).page_table.free_offset + 8192,
            final(self).page_table.free_offset >= old(self).page_table.free_offset,
            final(self).page_table.length == old(self).page_table.length,
            r is Some ==> forall|q: int|
                0 <= q < old(self).page_table.words@.len() && #[trigger] final(self).page_table.words@[q]
                    != old(self).page_table.words@[q] ==> !valid(old(self).page_table.words@[q]) || q
                    == final(self).query_spec(gpa).unwrap().offset as int / 8,
            old(self).levels@.submap_of(final(self).levels@),
            final(self).page_table.paddr == old(self).page_table.paddr,
            final(self).guest_mem == old(self).guest_mem,
            final(self).allocator == old(self).allocator,
            final(self).mmio_manager == old(self).mmio_manager,
            final(self).mem_gpa_regions == old(self).mem_gpa_regions,
            final(self).mem_size == old(self).mem_size,
    {
        proof {
            lemma_page_mask(gpa);
            lemma_page_mask(hpa);
        }
        if (hpa & 0xfff) != 0 {
            return None;
        }
        if (gpa & 0xfff) != 0 {
            return None;
        }
        let offsets = match self.gpa_to_ptregion_offset(gpa) {
            Some(o) => o,
            None => {
                return None;
            },
        };
        let ghost s1 = *self;
        let at2: u64 = offsets[2] / 8;
        let len = self.page_table.words.len();
        assert(at2 < len);
        let pte = GStageMmu::set_pte_flag(hpa >> 2, (S2PT_MODE - 1) as u64, flag);
        self.page_table.words.set(at2 as usize, pte);
        proof {
            let at0 = idx0(gpa);
            let at1 = offsets@[1] as int / 8;
            lemma_index_bounds(gpa);
            lemma_leaf_valid(hpa, flag);
            if flag < 1024 {
                lemma_leaf_pte(hpa, flag);
            }
            let words = self.page_table.words@;
            let levels = self.levels@;
            assert(owner(at0) == 0);
            assert(words[at0] == s1.page_table.words@[at0]);
            assert(words[at1] == s1.page_table.words@[at1]);
            assert forall|q: int|
                0 <= q < words.len() && levels.contains_key(owner(q)) && levels[owner(q)] < 2 && valid(
                    #[trigger] words[q],
                ) implies self.points_to_level(words[q], levels[owner(q)] + 1) by {
                assert(q != at2);
                assert(words[q] == s1.page_table.words@[q]);
            }
            assert forall|q: int| #[trigger] self.interior(q) && q != -1 implies s1.interior(q) && words[q]
                == s1.page_table.words@[q] by {
                assert(q != at2);
            }
            lemma_unique_kept(s1, *self, -1);
            assert(self.query_spec(gpa).unwrap().offset == at2 * 8);
        }
        Some(0)
    }

    /// Replaces the flags of the leaf entry of `gpa` with `flag`. Refused
    /// (`None`, nothing changed) when `gpa` has no leaf entry.
    pub fn map_protect(&mut self, gpa: u64, flag: u64) -> (r: Option<u32>)
        requires
            old(self).wf(),
        ensures
            final(self).wf(),
            r is Some <==> old(self).leaf_spec(gpa) is Some,
            r is None ==> *final(self) == *old(self),
            r is Some ==> ({
                let before = old(self).leaf_spec(gpa).unwrap();
                let after = final(self).query_spec(gpa).unwrap();
                &&& r == Some(0u32)
                &&& final(self).query_spec(gpa) is Some
                &&& after.level == 2
                &&& after.offset == before.offset
                &&& after.value == set_flag_spec(before.value, 2, flag)
                &&& flag < 1024 ==> after.value >> 10u64 == before.value >> 10u64 && after.value & 0x3ffu64
                    == flag | 1u64
                &&& final(self).page_table.words@ == old(self).page_table.words@.update(
                    before.offset as int / 8,
                    set_flag_spec(before.value, 2, flag),
                )
            }),
            final(self).levels == old(self).levels,
            final(self).page_table.vaddr == old(self).page_table.vaddr,
            final(self).page_table.length == old(self).page_table.length,
            final(self).page_table.free_offset == old(self).page_table.free_offset,
            final(self).page_table.paddr == old(self).page_table.paddr,
            final(self).guest_mem == old(self).guest_mem,
            final(self).allocator == old(self).allocator,
            final(self).mmio_manager == old(self).mmio_manager,
            final(self).mem_gpa_regions == old(self).mem_gpa_regions,
            final(self).mem_size == old(self).mem_size,
    {
        let query = self.map_query(gpa);
        let pte = match query {
            Some(pte) => pte,
            None => {
                return None;
            },
        };
        if pte.level != (S2PT_MODE as u32 - 1) {
            return None;
        }
        let ghost s0 = *self;
        let ghost words0 = self.page_table.words@;
        proof {
            lemma_index_bounds(gpa);
            let at0 = idx0(gpa);
            let e0 = words0[at0];
            assert(owner(at0) == 0);
            assert(self.points_to_level(e0, 1));
            let t1 = self.page_table.follow(e0).unwrap();
            lemma_owner(t1 / 512, idx1(gpa));
            let e1 = words0[t1 + idx1(gpa)];
            assert(self.points_to_level(e1, 2));
            let t2 = self.page_table.follow(e1).unwrap();
            lemma_owner(t2 / 512, idx2(gpa));
        }
        let p: u64 = pte.offset / 8;
        let len = self.page_table.words.len();
        assert(p < len);
        let value = GStageMmu::set_pte_flag(pte.value, pte.level as u64, flag);
        self.page_table.words.set(p as usize, value);
        proof {
            let at0 = idx0(gpa);
            let t1 = s0.page_table.follow(words0[at0]).unwrap();
            let at1 = t1 + idx1(gpa);
            let words = self.page_table.words@;
            let levels = self.levels@;
            assert(words[at0] == words0[at0]);
            assert(words[at1] == words0[at1]);
            lemma_set_flag(pte.value, flag);
            assert forall|q: int|
                0 <= q < words.len() && levels.contains_key(owner(q)) && levels[owner(q)] < 2 && valid(
                    #[trigger] words[q],
                ) implies self.points_to_level(words[q], levels[owner(q)] + 1) by {
                assert(q != p);
                assert(words[q] == words0[q]);
            }
            assert forall|q: int| #[trigger] self.interior(q) && q != -1 implies s0.interior(q) && words[q]
                == words0[q] by {
                assert(q != p);
            }
            lemma_unique_kept(s0, *self, -1);
        }
        Some(0)
    }

    /// Whether the page of word `p` (the 512 words around it) is all zero.
    fn is_empty_ptp(&self, p: u64) -> (r: bool)
        requires
            self.page_table.wf(),
            p < self.page_table.words@.len(),
        ensures
            r == page_zero(self.page_table.words@, p as int / 512 * 512),
    {
        let start: u64 = p / 512 * 512;
        let len = self.page_table.words.len();
        assert(start + 512 <= len) by {
            assert(len % 512 == 0);
        }
        let mut index: u64 = 0;
        while index < 512
            invariant
                start + 512 <= self.page_table.words@.len(),
                len == self.page_table.words@.len(),
                start == p as int / 512 * 512,
                index <= 512,
                forall|q: int| start <= q < start + index ==> #[trigger] self.page_table.words@[q] == 0,
            decreases 512 - index,
        {
            let q: u64 = start + index;
            assert(q < len);
            if self.page_table.words[q as usize] != 0 {
                return false;
            }
            index = index + 1;
        }
        true
    }

    /// Clears the leaf entry of `gpa`, then each entry above it whose
    /// sub-table is left all zero, stopping at the first that is not.
    /// Refused (`None`, nothing changed) when `gpa` is not page-aligned.
    pub fn unmap_page(&mut self, gpa: u64) -> (r: Option<u32>)
        requires
            old(self).wf(),
        ensures
            final(self).wf(),
            r is Some <==> gpa % 4096 == 0,
            r is None ==> *final(self) == *old(self),
            r is Some ==> r == Some(0u32) && final(self).leaf_spec(gpa) is None && final(self).no_empty_ancestor(gpa),
            final(self).page_table.words@.len() == old(self).page_table.words@.len(),
            forall|q: int|
                0 <= q < old(self).page_table.words@.len() && #[trigger] final(self).page_table.words@[q]
                    != old(self).page_table.words@[q] ==> final(self).page_table.words@[q] == 0 && old(self).on_walk(
                    gpa,
                    q,
                ) && old(self).release_ok(final(self).page_table.words@, gpa, q),
            r is Some ==> (old(self).leaf_spec(gpa) matches Some(p) ==> final(self).page_table.words@[p.offset as int
                / 8] == 0),
            final(self).levels == old(self).levels,
            final(self).page_table.paddr == old(self).page_table.paddr,
            final(self).page_table.vaddr == old(self).page_table.vaddr,
            final(self).page_table.length == old(self).page_table.length,
            final(self).page_table.free_offset == old(self).page_table.free_offset,
            final(self).guest_mem == old(self).guest_mem,
            final(self).allocator == old(self).allocator,
            final(self).mmio_manager == old(self).mmio_manager,
            final(self).mem_gpa_regions == old(self).mem_gpa_regions,
            final(self).mem_size == old(self).mem_size,
    {
        proof {
            lemma_page_mask(gpa);
            lemma_index_bounds(gpa);
            lemma_zero_invalid();
        }
        if (gpa & 0xfff) != 0 {
            return None;
        }
        let ghost words0 = self.page_table.words@;
        let ghost s0 = *self;
        let at0: u64 = (gpa >> 30) & 0x7ff;
        assert(owner(at0 as int) == 0);
        let e0 = self.page_table.words[at0 as usize];
        if e0 & PTE_VALID != 0 {
            assert(self.points_to_level(e0, 1));
            let t1 = match self.page_table.follow_exec(e0) {
                Some(t) => t,
                None => {
                    return None;
                },
            };
            let at1: u64 = t1 + ((gpa >> 21) & 0x1ff);
            proof {
                lemma_owner(t1 as int / 512, idx1(gpa));
            }
            let len = self.page_table.words.len();
            assert(at1 < len);
            let e1 = self.page_table.words[at1 as usize];
            if e1 & PTE_VALID != 0 {
                assert(self.points_to_level(e1, 2));
                let t2 = match self.page_table.follow_exec(e1) {
                    Some(t) => t,
                    None => {
                        return None;
                    },
                };
                let at2: u64 = t2 + ((gpa >> 12) & 0x1ff);
                proof {
                    lemma_owner(t2 as int / 512, idx2(gpa));
                }
                assert(at2 < len);
                self.clear_entry(at2);
                if !self.is_empty_ptp(at2) {
                    proof {
                        assert(at2 as int / 512 * 512 == t2);
                        assert(self.page_table.words@[at1 as int] == e1);
                        assert(self.page_table.words@[at0 as int] == e0);
                        assert(!page_zero(self.page_table.words@, t1 as int));
                    }
                    return Some(0);
                }
            }
            self.clear_entry(at1);
            if !self.is_empty_ptp(at1) {
                proof {
                    assert(at1 as int / 512 * 512 == t1);
                    assert(self.page_table.words@[at0 as int] == e0);
                }
                return Some(0);
            }
        }
        self.clear_entry(at0);
        Some(0)
    }

    /// Zeroes word `p` of the arena.
    fn clear_entry(&mut self, p: u64)
        requires
            old(self).wf(),
            p < old(self).page_table.words@.len(),
        ensures
            final(self).wf(),
            final(self).page_table.words@ == old(self).page_table.words@.update(p as int, 0),
            final(self).page_table.paddr == old(self).page_table.paddr,
            final(self).page_table.vaddr == old(self).page_table.vaddr,
            final(self).page_table.length == old(self).page_table.length,
            final(self).page_table.free_offset == old(self).page_table.free_offset,
            final(self).levels == old(self).levels,
            final(self).guest_mem == old(self).guest_mem,
            final(self).allocator == old(self).allocator,
            final(self).mmio_manager == old(self).mmio_manager,
            final(self).mem_gpa_regions == old(self).mem_gpa_regions,
            final(self).mem_size == old(self).mem_size,
    {
        let ghost words0 = self.page_table.words@;
        let ghost s0 = *self;
        let len = self.page_table.words.len();
        assert(p < len);
        self.page_table.words.set(p as usize, 0);
        proof {
            lemma_zero_invalid();
            let words = self.page_table.words@;
            let levels = self.levels@;
            assert forall|q: int|
                0 <= q < words.len() && levels.contains_key(owner(q)) && levels[owner(q)] < 2 && valid(
                    #[trigger] words[q],
                ) implies self.points_to_level(words[q], levels[owner(q)] + 1) by {
                assert(q != p);
                assert(words[q] == words0[q]);
            }
            assert forall|q: int| #[trigger] self.interior(q) && q != -1 implies s0.interior(q) && words[q]
                == words0[q] by {
                assert(q != p);
            }
            lemma_unique_kept(s0, *self, -1);
        }
    }

    /// Maps the pages of `[gpa, gpa + length)` onto `[hpa, hpa + length)`
    /// one by one (at least one page, also for a zero length). Refused
    /// (`None`, nothing changed) when an address or the length is not
    /// page-aligned, or when the arena might run out of room part way (two
    /// tables per page are set aside).
    pub fn map_range(&mut self, gpa: u64, hpa: u64, length: u64, flag: u64) -> (r: Option<u32>)
        requires
            old(self).wf(),
            gpa + length + 4096 <= u64::MAX,
            hpa + length + 4096 <= u64::MAX,
        ensures
            final(self).wf(),
            r is Some <==> gpa % 4096 == 0 && hpa % 4096 == 0 && length % 4096 == 0 && 8192 * range_pages(length)
                <= old(self).page_table.length - old(self).page_table.free_offset,
            r is None ==> *final(self) == *old(self),
            r is Some ==> r == Some(0u32) && (final(self).query_spec(page_at(gpa, range_pages(length) - 1)) matches Some(
                pte,
            ) && pte.level == 2 && pte.value == leaf_pte(page_at(hpa, range_pages(length) - 1), flag)),
            r is Some && range_pages(length) <= 0x2000_0000 ==> forall|k: int|
                0 <= k < range_pages(length) ==> (#[trigger] final(self).leaf_spec(page_at(gpa, k)) matches Some(pte)
                    && pte.value == leaf_pte(page_at(hpa, k), flag)),
            final(self).page_table.paddr == old(self).page_table.paddr,
            final(self).guest_mem == old(self).guest_mem,
            final(self).allocator == old(self).allocator,
            final(self).mmio_manager == old(self).mmio_manager,
            final(self).mem_gpa_regions == old(self).mem_gpa_regions,
            final(self).mem_size == old(self).mem_size,
    {
        proof {
            lemma_page_mask(gpa);
            lemma_page_mask(hpa);
            lemma_page_mask(length);
        }
        if (hpa & 0xfff) != 0 {
            return None;
        }
        if (gpa & 0xfff) != 0 {
            return None;
        }
        if (length & 0xfff) != 0 {
            return None;
        }
        let pages: u64 = if length == 0 {
            1
        } else {
            length / 4096
        };
        let room = self.page_table.length - self.page_table.free_offset;
        if pages > room / 8192 {
            return None;
        }
        let mut offset: u64 = 0;
        loop
            invariant_except_break
                offset == 0 || offset < length,
            invariant
                self.wf(),
                offset % 4096 == 0,
                gpa % 4096 == 0,
                hpa % 4096 == 0,
                length % 4096 == 0,
                pages == range_pages(length),
                8192 * (pages - offset / 4096) <= self.page_table.length - self.page_table.free_offset,
                gpa + length + 4096 <= u64::MAX,
                hpa + length + 4096 <= u64::MAX,
                offset > 0 ==> (self.query_spec(page_at(gpa, offset / 4096 - 1)) matches Some(pte) && pte.level == 2
                    && pte.value == leaf_pte(page_at(hpa, offset / 4096 - 1), flag)),
                pages <= 0x2000_0000 ==> forall|k: int|
                    0 <= k < offset / 4096 ==> (#[trigger] self.leaf_spec(page_at(gpa, k)) matches Some(pte)
                        && pte.value == leaf_pte(page_at(hpa, k), flag)),
                self.page_table.paddr == old(self).page_table.paddr,
                self.guest_mem == old(self).guest_mem,
                self.allocator == old(self).allocator,
                self.mmio_manager == old(self).mmio_manager,
                self.mem_gpa_regions == old(self).mem_gpa_regions,
                self.mem_size == old(self).mem_size,
            ensures
                offset >= length,
                offset / 4096 == pages,
                pages <= 0x2000_0000 ==> forall|k: int|
                    0 <= k < pages ==> (#[trigger] self.leaf_spec(page_at(gpa, k)) matches Some(pte) && pte.value
                        == leaf_pte(page_at(hpa, k), flag)),
                self.query_spec(page_at(gpa, pages - 1)) matches Some(pte) && pte.level == 2 && pte.value == leaf_pte(
                    page_at(hpa, pages - 1),
                    flag,
                ),
            decreases length + 4096 - offset,
        {
            proof {
                assert(offset / 4096 < pages);
                assert(8192 <= 8192 * (pages - offset / 4096)) by (nonlinear_arith)
                    requires
                        offset / 4096 < pages,
                ;
                assert(self.tables_needed((gpa + offset) as u64) <= 2);
                lemma_page_mask((gpa + offset) as u64);
                lemma_page_mask((hpa + offset) as u64);
            }
            let ghost before = *self;
            let ghost j = offset / 4096;
            let r = self.map_page(gpa + offset, hpa + offset, flag);
            assert(r is Some);
            proof {
                assert(page_at(gpa, j as int) == gpa + offset);
                assert(page_at(hpa, j as int) == hpa + offset);
                if pages <= 0x2000_0000 {
                    assert forall|k: int| 0 <= k < j + 1 implies (#[trigger] self.leaf_spec(page_at(gpa, k)) matches Some(
                        pte,
                    ) && pte.value == leaf_pte(page_at(hpa, k), flag)) by {
                        if k < j {
                            lemma_distinct_slots(gpa, k, j as int);
                            assert(before.leaf_spec(page_at(gpa, k)) is Some);
                            lemma_leaf_frame(before, *self, (gpa + offset) as u64, page_at(gpa, k));
                        }
                    }
                }
            }
            offset = offset + PAGE_SIZE;
            proof {
                assert(page_at(gpa, offset / 4096 - 1) == gpa + offset - 4096);
                assert(page_at(hpa, offset / 4096 - 1) == hpa + offset - 4096);
            }
            if offset >= length {
                break;
            }
        }
        Some(0)
    }

    /// Unmaps the pages of `[gpa, gpa + length)` one by one (at least one
    /// page), as [`Self::unmap_page`] does. Refused (`None`, nothing changed)
    /// when the address or the length is not page-aligned.
    pub fn unmap_range(&mut self, gpa: u64, length: u64) -> (r: Option<u32>)
        requires
            old(self).wf(),
            gpa + length + 4096 <= u64::MAX,
        ensures
            final(self).wf(),
            r is Some <==> gpa % 4096 == 0 && length % 4096 == 0,
            r is None ==> *final(self) == *old(self),
            r is Some ==> r == Some(0u32),
            r is Some ==> forall|k: int|
                0 <= k < range_pages(length) ==> #[trigger] final(self).leaf_spec(page_at(gpa, k)) is None,
            final(self).page_table.paddr == old(self).page_table.paddr,
            final(self).guest_mem == old(self).guest_mem,
            final(self).allocator == old(self).allocator,
            final(self).mmio_manager == old(self).mmio_manager,
            final(self).mem_gpa_regions == old(self).mem_gpa_regions,
            final(self).mem_size == old(self).mem_size,
    {
        proof {
            lemma_page_mask(gpa);
            lemma_page_mask(length);
        }
        if (gpa & 0xfff) != 0 {
            return None;
        }
        if (length & 0xfff) != 0 {
            return None;
        }
        let mut offset: u64 = 0;
        loop
            invariant_except_break
                offset == 0 || offset < length,
            invariant
                self.wf(),
                offset % 4096 == 0,
                offset <= length + 4096,
                gpa % 4096 == 0,
                length % 4096 == 0,
                gpa + length + 4096 <= u64::MAX,
                forall|k: int| 0 <= k && 4096 * k < offset ==> #[trigger] self.leaf_spec(page_at(gpa, k)) is None,
                self.page_table.paddr == old(self).page_table.paddr,
                self.guest_mem == old(self).guest_mem,
                self.allocator == old(self).allocator,
                self.mmio_manager == old(self).mmio_manager,
                self.mem_gpa_regions == old(self).mem_gpa_regions,
                self.mem_size == old(self).mem_size,
            ensures
                offset >= length,
                offset >= 4096,
                offset % 4096 == 0,
                forall|k: int| 0 <= k && 4096 * k < offset ==> #[trigger] self.leaf_spec(page_at(gpa, k)) is None,
            decreases length + 4096 - offset,
        {
            let ghost before = *self;
            let _ = self.unmap_page(gpa + offset);
            proof {
                assert forall|k: int| 0 <= k && 4096 * k < offset + 4096 implies #[trigger] self.leaf_spec(
                    page_at(gpa, k),
                ) is None by {
                    if 4096 * k < offset {
                        lemma_zeroing_keeps_no_leaf(before, *self, page_at(gpa, k));
                    } else {
                        assert(k * 4096 == offset) by (nonlinear_arith)
                            requires
                                4096 * k >= offset,
                                4096 * k < offset + 4096,
                                offset % 4096 == 0,
                        ;
                    }
                }
            }
            offset = offset + PAGE_SIZE;
            if offset >= length {
                break;
            }
        }
        proof {
            assert forall|k: int| 0 <= k < range_pages(length) implies #[trigger] self.leaf_spec(page_at(gpa, k))
                is None by {
                assert(4096 * k < 4096 * range_pages(length)) by (nonlinear_arith)
                    requires
                        0 <= k < range_pages(length),
                ;
                assert(4096 * k < offset);
            }
        }
        Some(0)
    }

    /// Whether `gpa` lies in guest RAM.
    pub fn check_gpa(&self, gpa: u64) -> (r: bool)
        ensures
            r == exists|i: int| 0 <= i < self.mem_gpa_regions@.len() && #[trigger] self.mem_gpa_regions@[i].contains(gpa as int),
    {
        let mut i: usize = 0;
        while i < self.mem_gpa_regions.len()
            invariant
                i <= self.mem_gpa_regions@.len(),
                forall|j: int| 0 <= j < i ==> !#[trigger] self.mem_gpa_regions@[j].contains(gpa as int),
            decreases self.mem_gpa_regions@.len() - i,
        {
            let region = &self.mem_gpa_regions[i];
            let gpa_start = region.get_gpa();
            if gpa >= gpa_start && gpa - gpa_start < region.get_length() {
                assert(self.mem_gpa_regions@[i as int].contains(gpa as int));
                return true;
            }
            i = i + 1;
        }
        false
    }

    /// Whether `gpa` lies in a device range.
    pub fn check_mmio(&self, gpa: u64) -> (r: bool)
        ensures
            r == self.mmio_manager.covers(gpa as int),
    {
        let regions = self.mmio_manager.get_gpa_regions();
        let mut i: usize = 0;
        while i < regions.len()
            invariant
                i <= regions@.len(),
                regions@ == self.mmio_manager.gpa_regions@,
                forall|j: int| 0 <= j < i ==> !#[trigger] regions@[j].contains(gpa as int),
            decreases regions@.len() - i,
        {
            let region = &regions[i];
            let gpa_start = region.get_gpa();
            if gpa >= gpa_start && gpa - gpa_start < region.get_length() {
                assert(regions@[i as int].contains(gpa as int));
                return true;
            }
            i = i + 1;
        }
        false
    }

    /// The host-virtual and host-physical addresses that back `gpa`,
    /// through the guest-memory map.
    pub fn gpa_block_query(&self, gpa: u64) -> (r: Option<(u64, u64)>)
        ensures
            r == self.block_query_spec(gpa),
    {
        proof {
            lemma_page_mask(gpa);
            assert(gpa & !0xfffu64 == gpa - gpa % 4096) by (bit_vector)
                requires
                    gpa & 0xfff == gpa % 4096,
            ;
        }
        let gpa_key = gpa & !0xfff;
        match self.guest_mem.query_region(gpa_key) {
            Some(res) => {
                let offset = gpa & 0xfff;
                match (res.0.checked_add(offset), res.1.checked_add(offset)) {
                    (Some(hva), Some(hpa)) => Some((hva, hpa)),
                    _ => None,
                }
            },
            None => None,
        }
    }

    /// Reserves host memory for the guest block at page-aligned `gpa` of
    /// `length` bytes (rounded up to whole pages), at the same offset into
    /// the host region as `gpa` has into guest RAM. The first block also
    /// records guest RAM as a whole in the guest-memory map. `Err(0)` when
    /// no host region has room.
    pub fn gpa_block_add(&mut self, gpa: u64, length: u64) -> (r: Result<(u64, u64), u64>)
        requires
            old(self).wf(),
            gpa % 4096 == 0,
            gpa >= MEM_START,
            length <= u64::MAX - 4095,
        ensures
            final(self).wf(),
            final(self).page_table == old(self).page_table,
            final(self).levels == old(self).levels,
            final(self).allocator == old(self).allocator,
            final(self).mmio_manager == old(self).mmio_manager,
            final(self).mem_gpa_regions == old(self).mem_gpa_regions,
            final(self).mem_size == old(self).mem_size,
            match alloc_spec(
                old(self).allocator.hpm_region_list@,
                (gpa - MEM_START) as u64,
                round_up_spec(length as int) as u64,
            ) {
                Some(region) => {
                    &&& r == Ok::<(u64, u64), u64>((region.hpm_vptr, region.base_address))
                    &&& old(self).guest_mem.regions@.len() == 0 ==> final(self).guest_mem.regions@ == seq![
                        crate::guestmem::MemRegion {
                            hva_base: (region.hpm_vptr - (gpa - MEM_START)) as u64,
                            gpa_base: MEM_START,
                            hpa_base: (region.base_address - (gpa - MEM_START)) as u64,
                            size: old(self).mem_size,
                        },
                    ]
                    &&& old(self).guest_mem.regions@.len() != 0 ==> final(self).guest_mem == old(self).guest_mem
                },
                None => {
                    &&& r == Err::<(u64, u64), u64>(0)
                    &&& final(self).guest_mem == old(self).guest_mem
                },
            },
            old(self).guest_mem.regions@.len() == 0 && gpa - MEM_START < old(self).mem_size ==> (r matches Ok(p)
                ==> final(self).block_query_spec(gpa) == Some(p)),
    {
        let ghost s0 = *self;
        let length = page_size_round_up(length);
        let start_offset = gpa - MEM_START;
        let region_wrap = self.allocator.hpm_alloc(start_offset, length);
        let region = match region_wrap {
            Some(region) => region,
            None => {
                return Err(0);
            },
        };
        let hpa = region[0].get_base_address();
        let hva = region[0].get_hpm_vpr();
        if self.guest_mem.num_regions() == 0 {
            self.guest_mem.insert_region(hva - start_offset, MEM_START, hpa - start_offset, self.mem_size);
            proof {
                lemma_page_mask(gpa);
                reveal_with_fuel(crate::guestmem::first_holding, 2);
            }
            assert(self.guest_mem.regions@ =~= seq![
                crate::guestmem::MemRegion {
                    hva_base: (hva - start_offset) as u64,
                    gpa_base: MEM_START,
                    hpa_base: (hpa - start_offset) as u64,
                    size: self.mem_size,
                },
            ]);
        }
        proof {
            assert forall|q: int| #[trigger] self.interior(q) && q != -1 implies s0.interior(q)
                && self.page_table.words@[q] == s0.page_table.words@[q] by {}
            lemma_unique_kept(s0, *self, -1);
        }
        Ok((hva, hpa))
    }

    /// The memory ranges of the guest: the gaps between the device ranges
    /// (taken in list order), then the rest up to the end of guest RAM.
    pub fn init_gpa_regions(mem_size: u64, mmio_manager: &MmioManager) -> (r: Vec<GpaRegion>)
        requires
            mem_size <= u64::MAX - MEM_START,
            forall|i: int|
                0 <= i < mmio_manager.gpa_regions@.len() ==> #[trigger] mmio_manager.gpa_regions@[i].gpa
                    + mmio_manager.gpa_regions@[i].length <= u64::MAX,
        ensures
            r@ == memory_regions_spec(mmio_manager.gpa_regions@, mem_size),
    {
        let mut gpa_regions: Vec<GpaRegion> = Vec::new();
        let mut gpa_region_gpa: u64 = 0;
        let tot_mem_size = mem_size + MEM_START;
        let regions = mmio_manager.get_gpa_regions();
        let mut i: usize = 0;
        while i < regions.len()
            invariant
                i <= regions@.len(),
                regions@ == mmio_manager.gpa_regions@,
                forall|j: int|
                    0 <= j < regions@.len() ==> #[trigger] regions@[j].gpa + regions@[j].length <= u64::MAX,
                gaps_spec(regions@, i as int) == (gpa_regions@, gpa_region_gpa as int),
            decreases regions@.len() - i,
        {
            let r = &regions[i];
            if gpa_region_gpa < r.get_gpa() {
                let gpa_region = GpaRegion::new(gpa_region_gpa, r.get_gpa() - gpa_region_gpa);
                gpa_regions.push(gpa_region);
            }
            gpa_region_gpa = r.get_gpa() + r.get_length();
            i = i + 1;
            assert(regions@.subrange(0, i as int).drop_last() =~= regions@.subrange(0, i - 1));
        }
        if gpa_region_gpa < tot_mem_size {
            let gpa_region = GpaRegion::new(gpa_region_gpa, tot_mem_size - gpa_region_gpa);
            gpa_regions.push(gpa_region);
        }
        gpa_regions
    }
}

/// The memory ranges before each of the first `n` device ranges, and where
/// the last of those device ranges ends.
pub open spec fn gaps_spec(mmio: Seq<GpaRegion>, n: int) -> (Seq<GpaRegion>, int)
    decreases n,
{
    if n <= 0 {
        (Seq::empty(), 0)
    } else {
        let (s, c) = gaps_spec(mmio, n - 1);
        let r = mmio[n - 1];
        (
            if c < r.gpa {
                s.push(GpaRegion { gpa: c as u64, length: (r.gpa - c) as u64 })
            } else {
                s
            },
            r.gpa + r.length,
        )
    }
}

/// The memory ranges of a guest of `mem_size` bytes around device ranges
/// `mmio`.
pub open spec fn memory_regions_spec(mmio: Seq<GpaRegion>, mem_size: u64) -> Seq<GpaRegion> {
    let (s, c) = gaps_spec(mmio, mmio.len() as int);
    let end = mem_size + MEM_START;
    if c < end {
        s.push(GpaRegion { gpa: c as u64, length: (end - c) as u64 })
    } else {
        s
    }
}

} // verus!
