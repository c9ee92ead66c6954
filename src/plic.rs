//! The platform-level interrupt controller model.
//!
//! Two contexts per vCPU (U- and S-mode delivery). A change to what a
//! context would deliver is reported to the caller as an [`IrqLine`]: the
//! new level of the external-interrupt line of that context's vCPU, which the
//! caller records on the vCPU (and, when the vCPU is running, kicks it).
use vstd::prelude::*;

verus! {

pub const MAX_DEVICES: u32 = 32;

pub const PLIC_BASE_ADDR: u64 = 0xc00_0000;

pub const PRIORITY_BASE: u64 = 0;
pub const PRIORITY_PER_ID: u64 = 4;

pub const ENABLE_BASE: u64 = 0x2000;
pub const ENABLE_PER_HART: u64 = 0x80;

pub const CONTEXT_BASE: u64 = 0x20_0000;
pub const CONTEXT_PER_HART: u64 = 0x1000;
pub const CONTEXT_THRESHOLD: u64 = 0;
pub const CONTEXT_CLAIM: u64 = 4;

pub const PRIORITY_END: u64 = 0x1fff;
pub const ENABLE_END: u64 = 0x1f_ffff;
pub const CONTEXT_END: u64 = 0xff_ffff;

pub const REG_SIZE: u64 = 0x100_0000;

/// Priorities keep this many low bits.
pub const PRIORITY_MASK: u32 = 0xf;

/// Bit `i` of the bitmap `w`.
pub open spec fn bit(w: u32, i: u32) -> bool {
    (w >> i) & 1u32 == 1u32
}

/// The bit facts the controller's bitmaps rely on.
pub proof fn lemma_bits(w: u32, i: u32, j: u32)
    requires
        i < 32,
        j < 32,
    ensures
        bit(w | (1u32 << i), j) == (j == i || bit(w, j)),
        bit(w & !(1u32 << i), j) == (j != i && bit(w, j)),
        !bit(0u32, j),
        bit(w & !1u32, j) == (j != 0 && bit(w, j)),
        bit(1u32 << i, j) == (j == i),
{
    assert(bit(w | (1u32 << i), j) == (j == i || bit(w, j))) by (bit_vector)
        requires
            i < 32,
            j < 32,
    ;
    assert(bit(w & !(1u32 << i), j) == (j != i && bit(w, j))) by (bit_vector)
        requires
            i < 32,
            j < 32,
    ;
    assert(!bit(0u32, j)) by (bit_vector)
        requires
            j < 32,
    ;
    assert(bit(w & !1u32, j) == (j != 0 && bit(w, j))) by (bit_vector)
        requires
            j < 32,
    ;
    assert(bit(1u32 << i, j) == (j == i)) by (bit_vector)
        requires
            i < 32,
            j < 32,
    ;
}

/// The new level of the external-interrupt line of vCPU `vcpu_id`.
#[derive(Clone, Copy, PartialEq, Eq, Structural, Debug)]
pub struct IrqLine {
    pub vcpu_id: u32,
    pub asserted: bool,
}

/// One delivery context, as a value.
pub struct CtxView {
    pub vcpu_id: u32,
    pub threshold: u8,
    pub enable: u32,
    pub pending: u32,
    pub pending_priority: Seq<u32>,
    pub claimed: u32,
    pub autoclear: u32,
}

/// The whole controller, as a value.
pub struct PlicView {
    pub num_irq: u32,
    pub num_irq_word: u32,
    pub max_prio: u32,
    pub priority: Seq<u8>,
    pub level: u32,
    pub contexts: Seq<CtxView>,
}

/// The best source among the first `n` of context `c`: a source other than
/// 0, enabled, pending, not claimed, above the context's threshold, of the highest pending priority, the
/// lowest number among equals; with its priority.
pub open spec fn select_from(c: CtxView, num_irq: u32, n: int) -> (u32, u8)
    decreases n,
{
    if n <= 0 {
        (0, 0)
    } else {
        let (b, bp) = select_from(c, num_irq, n - 1);
        let irq = (n - 1) as u32;
        if irq == 0 || num_irq <= irq || !bit(c.enable, irq) || !bit(c.pending, irq) || bit(c.claimed, irq)
            || c.pending_priority[irq as int] <= c.threshold as u32 {
            (b, bp)
        } else if (b == 0 && c.pending_priority[irq as int] > 0) || bp < (c.pending_priority[irq as int] as u8) {
            (irq, c.pending_priority[irq as int] as u8)
        } else {
            (b, bp)
        }
    }
}

pub open spec fn select_spec(c: CtxView, num_irq: u32) -> u32 {
    select_from(c, num_irq, 32).0
}

pub open spec fn line_spec(c: CtxView, num_irq: u32) -> IrqLine {
    IrqLine { vcpu_id: c.vcpu_id, asserted: select_spec(c, num_irq) != 0 }
}

/// Context `c` after its enable word `irq_word` is written with `data`:
/// a newly enabled source whose level is high becomes pending at its
/// priority; a newly disabled one stops being pending or claimed.
pub open spec fn enable_spec(c: CtxView, v: PlicView, irq_word: u32, data: u32) -> CtxView {
    let new = if irq_word == 0 {
        data & !1u32
    } else {
        data
    };
    let xor = c.enable ^ new;
    let set = xor & new & v.level;
    let clr = xor & !new;
    CtxView {
        enable: new,
        pending: (c.pending | set) & !clr,
        claimed: c.claimed & !clr,
        pending_priority: Seq::new(
            32,
            |i: int|
                if bit(set, i as u32) {
                    v.priority[i] as u32
                } else if bit(clr, i as u32) {
                    0
                } else {
                    c.pending_priority[i]
                },
        ),
        ..c
    }
}

/// Context `c` after a read of its claim register, and the source read.
pub open spec fn claim_spec(c: CtxView, num_irq: u32) -> (CtxView, u32) {
    let best = select_spec(c, num_irq);
    if best == 0 {
        (c, 0)
    } else {
        let m = 1u32 << best;
        if bit(c.autoclear, best) {
            (
                CtxView {
                    pending: c.pending & !m,
                    pending_priority: c.pending_priority.update(best as int, 0),
                    claimed: c.claimed & !m,
                    autoclear: c.autoclear & !m,
                    ..c
                },
                best,
            )
        } else {
            (CtxView { claimed: c.claimed | m, ..c }, best)
        }
    }
}

/// Context `c` when source `irq` of priority `prio` changes level.
pub open spec fn trigger_ctx_spec(c: CtxView, irq: u32, prio: u8, level: bool, edge: bool) -> CtxView {
    let m = 1u32 << irq;
    if level {
        CtxView {
            pending: c.pending | m,
            pending_priority: c.pending_priority.update(irq as int, prio as u32),
            autoclear: if edge {
                c.autoclear | m
            } else {
                c.autoclear
            },
            ..c
        }
    } else {
        CtxView {
            pending: c.pending & !m,
            pending_priority: c.pending_priority.update(irq as int, 0),
            claimed: c.claimed & !m,
            autoclear: c.autoclear & !m,
            ..c
        }
    }
}

/// The contexts after source `irq` of priority `prio` changes level: every
/// context that enables `irq` takes the change.
pub open spec fn trigger_contexts(cs: Seq<CtxView>, irq: u32, prio: u8, level: bool, edge: bool) -> Seq<CtxView> {
    Seq::new(
        cs.len(),
        |k: int|
            if bit(cs[k].enable, irq) {
                trigger_ctx_spec(cs[k], irq, prio, level, edge)
            } else {
                cs[k]
            },
    )
}

/// The line changes, in context order, of the first `n` contexts that a
/// trigger of `irq` reaches (`old` before it, `new` after it).
pub open spec fn trigger_lines(new: Seq<CtxView>, old: Seq<CtxView>, irq: u32, num_irq: u32, n: int) -> Seq<IrqLine>
    decreases n,
{
    if n <= 0 {
        Seq::empty()
    } else {
        let prev = trigger_lines(new, old, irq, num_irq, n - 1);
        if bit(old[n - 1].enable, irq) {
            prev.push(line_spec(new[n - 1], num_irq))
        } else {
            prev
        }
    }
}

/// The controller after source `irq` changes level, and the line changes:
/// the level is recorded, and every context that enables `irq` takes the
/// change.
pub open spec fn trigger_spec(v: PlicView, irq: u32, level: bool, edge: bool) -> (PlicView, Seq<IrqLine>) {
    if v.num_irq <= irq {
        (v, Seq::empty())
    } else {
        let m = 1u32 << irq;
        let cs = trigger_contexts(v.contexts, irq, v.priority[irq as int], level, edge);
        (
            PlicView {
                level: if level {
                    v.level | m
                } else {
                    v.level & !m
                },
                contexts: cs,
                ..v
            },
            trigger_lines(cs, v.contexts, irq, v.num_irq, v.contexts.len() as int),
        )
    }
}

/// The source that an access at register offset `offset` of the priority
/// block names, if it has a priority register.
pub open spec fn priority_irq(v: PlicView, offset: u64) -> Option<u32> {
    let irq = (offset >> 2u64) as u32;
    if irq == 0 || irq >= v.num_irq {
        None
    } else {
        Some(irq)
    }
}

/// The controller after a 32-bit write of `data` at `offset` from the base.
pub open spec fn write_spec(v: PlicView, offset: u64, data: u32) -> (PlicView, Option<IrqLine>) {
    if offset <= PRIORITY_END {
        match priority_irq(v, offset) {
            Some(irq) => (PlicView { priority: v.priority.update(irq as int, (data & PRIORITY_MASK) as u8), ..v }, None),
            None => (v, None),
        }
    } else if offset <= ENABLE_END {
        let ctx_id: int = (offset - ENABLE_BASE) / (ENABLE_PER_HART as int);
        let off = (offset - (ctx_id * ENABLE_PER_HART + ENABLE_BASE)) as u64;
        let irq_word = (off >> 2u64) as u32;
        if ctx_id >= v.contexts.len() || v.num_irq_word <= irq_word {
            (v, None)
        } else {
            let c = enable_spec(v.contexts[ctx_id], v, irq_word, data);
            (PlicView { contexts: v.contexts.update(ctx_id, c), ..v }, Some(line_spec(c, v.num_irq)))
        }
    } else {
        let ctx_id: int = (offset - CONTEXT_BASE) / (CONTEXT_PER_HART as int);
        let off = offset - (ctx_id * CONTEXT_PER_HART + CONTEXT_BASE);
        if ctx_id >= v.contexts.len() {
            (v, None)
        } else {
            let c = v.contexts[ctx_id];
            if off == CONTEXT_THRESHOLD && (data & PRIORITY_MASK) <= v.max_prio {
                (
                    PlicView {
                        contexts: v.contexts.update(ctx_id, CtxView { threshold: (data & PRIORITY_MASK) as u8, ..c }),
                        ..v
                    },
                    None,
                )
            } else if off == CONTEXT_CLAIM {
                (v, None)
            } else {
                (v, Some(line_spec(c, v.num_irq)))
            }
        }
    }
}

/// The controller after a 32-bit read at `offset` from the base, the value
/// read (`data` where nothing is read), and the line change.
pub open spec fn read_spec(v: PlicView, offset: u64, data: u32) -> (PlicView, u32, Option<IrqLine>) {
    if offset <= PRIORITY_END {
        match priority_irq(v, offset) {
            Some(irq) => (v, v.priority[irq as int] as u32, None),
            None => (v, data, None),
        }
    } else if offset <= ENABLE_END {
        let ctx_id: int = (offset - ENABLE_BASE) / (ENABLE_PER_HART as int);
        let off = (offset - (ctx_id * ENABLE_PER_HART + ENABLE_BASE)) as u64;
        let irq_word = (off >> 2u64) as u32;
        if ctx_id >= v.contexts.len() || v.num_irq_word <= irq_word {
            (v, data, None)
        } else {
            (v, v.contexts[ctx_id].enable, None)
        }
    } else {
        let ctx_id: int = (offset - CONTEXT_BASE) / (CONTEXT_PER_HART as int);
        let off = offset - (ctx_id * CONTEXT_PER_HART + CONTEXT_BASE);
        if ctx_id >= v.contexts.len() {
            (v, data, None)
        } else {
            let c = v.contexts[ctx_id];
            if off == CONTEXT_THRESHOLD {
                (v, c.threshold as u32, None)
            } else if off == CONTEXT_CLAIM {
                let (c2, best) = claim_spec(c, v.num_irq);
                (PlicView { contexts: v.contexts.update(ctx_id, c2), ..v }, best, Some(line_spec(c2, v.num_irq)))
            } else {
                (v, data, None)
            }
        }
    }
}

/// Offset from the base of the register that `addr` falls in.
pub open spec fn reg_offset(addr: u64) -> u64 {
    ((addr & !3u64) - PLIC_BASE_ADDR) as u64
}

/// Global configuration and source state.
pub struct PlicState {
    pub num_irq: u32,
    pub num_irq_word: u32,
    pub max_prio: u32,
    pub irq_priority: [u8; 32],
    pub irq_level: u32,
}

/// One delivery context.
#[derive(Clone, Copy)]
pub struct PlicContext {
    pub vcpu_id: u32,
    pub irq_priority_threshold: u8,
    pub irq_enable: u32,
    pub irq_pending: u32,
    pub irq_pending_priority: [u32; 32],
    pub irq_claimed: u32,
    pub irq_autoclear: u32,
}

impl View for PlicContext {
    type V = CtxView;

    open spec fn view(&self) -> CtxView {
        CtxView {
            vcpu_id: self.vcpu_id,
            threshold: self.irq_priority_threshold,
            enable: self.irq_enable,
            pending: self.irq_pending,
            pending_priority: self.irq_pending_priority@,
            claimed: self.irq_claimed,
            autoclear: self.irq_autoclear,
        }
    }
}

impl PlicState {
    pub fn new() -> (r: Self)
        ensures
            r.num_irq == MAX_DEVICES,
            r.num_irq_word == 1,
            r.max_prio == PRIORITY_MASK,
            r.irq_priority@ == Seq::new(32, |i: int| 0u8),
            r.irq_level == 0,
    {
        let num_irq = MAX_DEVICES;
        let mut num_irq_word = num_irq / 32;
        if num_irq_word * 32 < num_irq {
            num_irq_word = num_irq_word + 1;
        }
        let max_prio: u32 = PRIORITY_MASK;
        let irq_priority = [0u8; 32];
        assert(irq_priority@ =~= Seq::new(32, |i: int| 0u8));
        PlicState { num_irq, num_irq_word, max_prio, irq_priority, irq_level: 0 }
    }
}

impl PlicContext {
    pub fn new(vcpu_id: u32) -> (r: Self)
        ensures
            r@ == (CtxView {
                vcpu_id,
                threshold: 0,
                enable: 0,
                pending: 0,
                pending_priority: Seq::new(32, |i: int| 0u32),
                claimed: 0,
                autoclear: 0,
            }),
    {
        let irq_pending_priority = [0u32; 32];
        assert(irq_pending_priority@ =~= Seq::new(32, |i: int| 0u32));
        PlicContext {
            vcpu_id,
            irq_priority_threshold: 0,
            irq_enable: 0,
            irq_pending: 0,
            irq_pending_priority,
            irq_claimed: 0,
            irq_autoclear: 0,
        }
    }
}

/// The controller: global state and the contexts, two per vCPU.
pub struct Plic {
    pub plic_state: PlicState,
    pub plic_contexts: Vec<PlicContext>,
}

impl View for Plic {
    type V = PlicView;

    open spec fn view(&self) -> PlicView {
        PlicView {
            num_irq: self.plic_state.num_irq,
            num_irq_word: self.plic_state.num_irq_word,
            max_prio: self.plic_state.max_prio,
            priority: self.plic_state.irq_priority@,
            level: self.plic_state.irq_level,
            contexts: self.plic_contexts@.map_values(|c: PlicContext| c@),
        }
    }
}

/// A freshly made controller for `vcpu_num` vCPUs.
pub open spec fn fresh_spec(vcpu_num: nat) -> PlicView {
    PlicView {
        num_irq: MAX_DEVICES,
        num_irq_word: 1,
        max_prio: PRIORITY_MASK,
        priority: Seq::new(32, |i: int| 0u8),
        level: 0,
        contexts: Seq::new(
            2 * vcpu_num,
            |i: int|
                CtxView {
                    vcpu_id: (i / 2) as u32,
                    threshold: 0,
                    enable: 0,
                    pending: 0,
                    pending_priority: Seq::new(32, |j: int| 0u32),
                    claimed: 0,
                    autoclear: 0,
                },
        ),
    }
}

impl Plic {
    pub open spec fn wf(&self) -> bool {
        &&& self.plic_state.num_irq == MAX_DEVICES
        &&& self.plic_state.num_irq_word == 1
        &&& self.plic_state.max_prio == PRIORITY_MASK
    }

    /// A controller with two contexts for each of `vcpu_num` vCPUs, every
    /// source at priority zero, disabled and idle.
    pub fn new(vcpu_num: u32) -> (r: Self)
        requires
            vcpu_num <= 256,
        ensures
            r.wf(),
            r@ == fresh_spec(vcpu_num as nat),
    {
        let plic_state = PlicState::new();
        let nr_ctx: u32 = vcpu_num * 2;
        let mut plic_contexts: Vec<PlicContext> = Vec::new();
        let mut i: u32 = 0;
        while i < nr_ctx
            invariant
                i <= nr_ctx,
                nr_ctx == vcpu_num * 2,
                plic_contexts@.len() == i,
                forall|j: int|
                    0 <= j < i ==> #[trigger] plic_contexts@[j]@ == fresh_spec(vcpu_num as nat).contexts[j],
            decreases nr_ctx - i,
        {
            let ctx = PlicContext::new(i / 2);
            plic_contexts.push(ctx);
            i = i + 1;
        }
        let r = Plic { plic_state, plic_contexts };
        assert(r@.contexts =~= fresh_spec(vcpu_num as nat).contexts);
        assert(r@.priority =~= fresh_spec(vcpu_num as nat).priority);
        r
    }

    /// The best deliverable source of context `ctx`, as [`select_spec`]
    /// says; 0 when there is none.
    fn select_local_pending_irq(&self, ctx: &PlicContext) -> (r: u32)
        ensures
            r == select_spec(ctx@, self.plic_state.num_irq),
            r < 32,
    {
        let mut best_irq_prio: u8 = 0;
        let mut best_irq: u32 = 0;
        let mut j: u32 = 0;
        while j < 32
            invariant
                j <= 32,
                best_irq < 32,
                (best_irq, best_irq_prio) == select_from(ctx@, self.plic_state.num_irq, j as int),
            decreases 32 - j,
        {
            let irq = j;
            if !(irq == 0 || self.plic_state.num_irq <= irq || (ctx.irq_enable >> j) & 1 != 1 || (ctx.irq_pending
                >> j) & 1 != 1 || (ctx.irq_claimed >> j) & 1 == 1 || ctx.irq_pending_priority[irq as usize] <= ctx.irq_priority_threshold as u32) {
                let prio = ctx.irq_pending_priority[irq as usize];
                if (best_irq == 0 && prio > 0) || best_irq_prio < prio as u8 {
                    best_irq = irq;
                    best_irq_prio = prio as u8;
                }
            }
            j = j + 1;
        }
        best_irq
    }

    /// What context `ctx` now asks of its vCPU's external-interrupt line.
    fn update_local_irq(&self, ctx: &PlicContext) -> (r: IrqLine)
        ensures
            r == line_spec(ctx@, self.plic_state.num_irq),
    {
        let best_irq = self.select_local_pending_irq(ctx);
        IrqLine { vcpu_id: ctx.vcpu_id, asserted: best_irq != 0 }
    }

    fn write_global_priority(&mut self, offset: u64, data: u32)
        requires
            old(self).wf(),
        ensures
            final(self).wf(),
            final(self)@ == (match priority_irq(old(self)@, offset) {
                Some(irq) => PlicView {
                    priority: old(self)@.priority.update(irq as int, (data & PRIORITY_MASK) as u8),
                    ..old(self)@
                },
                None => old(self)@,
            }),
    {
        let irq: u32 = (offset >> 2) as u32;
        if irq == 0 || irq >= self.plic_state.num_irq {
            return ;
        }
        let val = data & PRIORITY_MASK;
        self.plic_state.irq_priority[irq as usize] = val as u8;
    }

    fn read_global_priority(&self, offset: u64, data: &mut u32)
        requires
            self.wf(),
        ensures
            *final(data) == (match priority_irq(self@, offset) {
                Some(irq) => self@.priority[irq as int] as u32,
                None => *old(data),
            }),
    {
        let irq: u32 = (offset >> 2) as u32;
        if irq == 0 || irq >= self.plic_state.num_irq {
            return ;
        }
        *data = self.plic_state.irq_priority[irq as usize] as u32;
    }

    /// Writes the enable word at `offset` of context `ctx_id`.
    fn write_local_enable(&mut self, ctx_id: usize, offset: u64, data: u32) -> (r: Option<IrqLine>)
        requires
            old(self).wf(),
            ctx_id < old(self).plic_contexts@.len(),
        ensures
            final(self).wf(),
            ({
                let irq_word = (offset >> 2u64) as u32;
                if old(self)@.num_irq_word <= irq_word {
                    final(self)@ == old(self)@ && r is None
                } else {
                    let c = enable_spec(old(self)@.contexts[ctx_id as int], old(self)@, irq_word, data);
                    &&& final(self)@ == PlicView { contexts: old(self)@.contexts.update(ctx_id as int, c), ..old(self)@ }
                    &&& r == Some(line_spec(c, old(self)@.num_irq))
                }
            }),
    {
        let irq_word: u32 = (offset >> 2) as u32;
        if self.plic_state.num_irq_word <= irq_word {
            return None;
        }
        let mut ctx = self.plic_contexts[ctx_id];
        assert(ctx@ == old(self)@.contexts[ctx_id as int]);
        let old_val = ctx.irq_enable;
        let mut new_val = data;
        if irq_word == 0 {
            new_val = new_val & !0x1;
        }
        ctx.irq_enable = new_val;
        let xor_val = old_val ^ new_val;
        let set = xor_val & new_val & self.plic_state.irq_level;
        let clr = xor_val & !new_val;
        ctx.irq_pending = (ctx.irq_pending | set) & !clr;
        ctx.irq_claimed = ctx.irq_claimed & !clr;
        let ghost prio0 = ctx.irq_pending_priority@;
        let mut pp = ctx.irq_pending_priority;
        let mut i: u32 = 0;
        while i < 32
            invariant
                i <= 32,
                pp@.len() == 32,
                forall|k: int|
                    0 <= k < i ==> #[trigger] pp@[k] == (if bit(set, k as u32) {
                        self.plic_state.irq_priority@[k] as u32
                    } else if bit(clr, k as u32) {
                        0
                    } else {
                        prio0[k]
                    }),
                forall|k: int| i <= k < 32 ==> #[trigger] pp@[k] == prio0[k],
            decreases 32 - i,
        {
            if (set >> i) & 1 == 1 {
                let p = self.plic_state.irq_priority[i as usize];
                pp[i as usize] = p as u32;
            } else if (clr >> i) & 1 == 1 {
                pp[i as usize] = 0;
            }
            i = i + 1;
        }
        ctx.irq_pending_priority = pp;
        let ghost cv = enable_spec(old(self)@.contexts[ctx_id as int], old(self)@, irq_word, data);
        assert(ctx.irq_pending_priority@ =~= cv.pending_priority);
        assert(ctx@.enable == cv.enable);
        assert(ctx@.pending == cv.pending);
        assert(ctx@.claimed == cv.claimed);
        assert(ctx@.vcpu_id == cv.vcpu_id);
        assert(ctx@.autoclear == cv.autoclear);
        assert(ctx@.threshold == cv.threshold);
        assert(ctx@ == cv);
        let line = self.update_local_irq(&ctx);
        self.plic_contexts.set(ctx_id, ctx);
        assert(self@.contexts =~= old(self)@.contexts.update(ctx_id as int, cv));
        Some(line)
    }

    fn read_local_enable(&self, ctx_id: usize, offset: u64, data: &mut u32)
        requires
            ctx_id < self.plic_contexts@.len(),
        ensures
            *final(data) == (if self@.num_irq_word <= (offset >> 2u64) as u32 {
                *old(data)
            } else {
                self@.contexts[ctx_id as int].enable
            }),
    {
        let irq_word: u32 = (offset >> 2) as u32;
        if self.plic_state.num_irq_word <= irq_word {
            return ;
        }
        *data = self.plic_contexts[ctx_id].irq_enable;
    }

    /// Writes the threshold (or, ignored, the claim) register of context
    /// `ctx_id`.
    fn write_local_context(&mut self, ctx_id: usize, offset: u64, data: u32) -> (r: Option<IrqLine>)
        requires
            old(self).wf(),
            ctx_id < old(self).plic_contexts@.len(),
        ensures
            final(self).wf(),
            ({
                let c = old(self)@.contexts[ctx_id as int];
                if offset == CONTEXT_THRESHOLD && (data & PRIORITY_MASK) <= old(self)@.max_prio {
                    &&& final(self)@ == PlicView {
                        contexts: old(self)@.contexts.update(
                            ctx_id as int,
                            CtxView { threshold: (data & PRIORITY_MASK) as u8, ..c },
                        ),
                        ..old(self)@
                    }
                    &&& r is None
                } else if offset == CONTEXT_CLAIM {
                    final(self)@ == old(self)@ && r is None
                } else {
                    final(self)@ == old(self)@ && r == Some(line_spec(c, old(self)@.num_irq))
                }
            }),
    {
        let mut irq_update = false;
        let mut ctx = self.plic_contexts[ctx_id];
        assert(ctx@ == old(self)@.contexts[ctx_id as int]);
        if offset == CONTEXT_THRESHOLD {
            let val = data & PRIORITY_MASK;
            if val <= self.plic_state.max_prio {
                ctx.irq_priority_threshold = val as u8;
                self.plic_contexts.set(ctx_id, ctx);
                assert(self@.contexts =~= old(self)@.contexts.update(ctx_id as int, ctx@));
            } else {
                irq_update = true;
            }
        } else if offset == CONTEXT_CLAIM {
        } else {
            irq_update = true;
        }
        if irq_update {
            let line = self.update_local_irq(&ctx);
            return Some(line);
        }
        None
    }

    /// Reads the threshold or claim register of context `ctx_id`.
    fn read_local_context(&mut self, ctx_id: usize, offset: u64, data: &mut u32) -> (r: Option<IrqLine>)
        requires
            old(self).wf(),
            ctx_id < old(self).plic_contexts@.len(),
        ensures
            final(self).wf(),
            ({
                let c = old(self)@.contexts[ctx_id as int];
                if offset == CONTEXT_THRESHOLD {
                    final(self)@ == old(self)@ && r is None && *final(data) == c.threshold as u32
                } else if offset == CONTEXT_CLAIM {
                    let (c2, best) = claim_spec(c, old(self)@.num_irq);
                    &&& final(self)@ == PlicView { contexts: old(self)@.contexts.update(ctx_id as int, c2), ..old(self)@ }
                    &&& *final(data) == best
                    &&& r == Some(line_spec(c2, old(self)@.num_irq))
                } else {
                    final(self)@ == old(self)@ && r is None && *final(data) == *old(data)
                }
            }),
    {
        let mut ctx = self.plic_contexts[ctx_id];
        assert(ctx@ == old(self)@.contexts[ctx_id as int]);
        if offset == CONTEXT_THRESHOLD {
            *data = ctx.irq_priority_threshold as u32;
            None
        } else if offset == CONTEXT_CLAIM {
            let best_irq: u32 = self.select_local_pending_irq(&ctx);
            if best_irq != 0 {
                let best_irq_mask: u32 = 1u32 << best_irq;
                if (ctx.irq_autoclear >> best_irq) & 1 == 1 {
                    ctx.irq_pending = ctx.irq_pending & !best_irq_mask;
                    ctx.irq_pending_priority[best_irq as usize] = 0;
                    ctx.irq_claimed = ctx.irq_claimed & !best_irq_mask;
                    ctx.irq_autoclear = ctx.irq_autoclear & !best_irq_mask;
                } else {
                    ctx.irq_claimed = ctx.irq_claimed | best_irq_mask;
                }
            }
            let line = self.update_local_irq(&ctx);
            self.plic_contexts.set(ctx_id, ctx);
            assert(self@.contexts =~= old(self)@.contexts.update(ctx_id as int, ctx@));
            *data = best_irq;
            Some(line)
        } else {
            None
        }
    }

    /// Source `irq` changes level; every context that enables it takes the
    /// change. A source number out of range is ignored. Returns the line
    /// changes of the contexts reached, in context order.
    fn plic_trigger_irq(&mut self, irq: u32, level: bool, edge: bool) -> (r: Vec<IrqLine>)
        requires
            old(self).wf(),
        ensures
            final(self).wf(),
            (final(self)@, r@) == trigger_spec(old(self)@, irq, level, edge),
    {
        let mut lines: Vec<IrqLine> = Vec::new();
        if self.plic_state.num_irq <= irq {
            return lines;
        }
        let irq_prio: u8 = self.plic_state.irq_priority[irq as usize];
        let irq_mask: u32 = 1u32 << irq;
        if level {
            self.plic_state.irq_level = self.plic_state.irq_level | irq_mask;
        } else {
            self.plic_state.irq_level = self.plic_state.irq_level & !irq_mask;
        }
        let ghost v0 = old(self)@;
        let ghost cs = trigger_contexts(v0.contexts, irq, v0.priority[irq as int], level, edge);
        let mut i: usize = 0;
        while i < self.plic_contexts.len()
            invariant
                self.wf(),
                irq < 32,
                irq < v0.num_irq,
                irq_prio == v0.priority[irq as int],
                irq_mask == 1u32 << irq,
                cs == trigger_contexts(v0.contexts, irq, v0.priority[irq as int], level, edge),
                self.plic_contexts@.len() == v0.contexts.len(),
                i <= self.plic_contexts@.len(),
                self@.priority == v0.priority,
                self@.num_irq == v0.num_irq,
                self@.num_irq_word == v0.num_irq_word,
                self@.max_prio == v0.max_prio,
                self@.level == (if level {
                    v0.level | irq_mask
                } else {
                    v0.level & !irq_mask
                }),
                forall|k: int| 0 <= k < i ==> #[trigger] self@.contexts[k] == cs[k],
                forall|k: int| i <= k < v0.contexts.len() ==> #[trigger] self@.contexts[k] == v0.contexts[k],
                lines@ == trigger_lines(cs, v0.contexts, irq, v0.num_irq, i as int),
            decreases self.plic_contexts@.len() - i,
        {
            let mut ctx = self.plic_contexts[i];
            let ghost prev = self@.contexts;
            assert(prev[i as int] == v0.contexts[i as int]);
            assert(ctx@ == v0.contexts[i as int]);
            if (ctx.irq_enable >> irq) & 1 == 1 {
                if level {
                    ctx.irq_pending = ctx.irq_pending | irq_mask;
                    ctx.irq_pending_priority[irq as usize] = irq_prio as u32;
                    if edge {
                        ctx.irq_autoclear = ctx.irq_autoclear | irq_mask;
                    }
                } else {
                    ctx.irq_pending = ctx.irq_pending & !irq_mask;
                    ctx.irq_pending_priority[irq as usize] = 0;
                    ctx.irq_claimed = ctx.irq_claimed & !irq_mask;
                    ctx.irq_autoclear = ctx.irq_autoclear & !irq_mask;
                }
                assert(ctx@.pending_priority =~= cs[i as int].pending_priority);
                assert(ctx@ == cs[i as int]);
                let line = self.update_local_irq(&ctx);
                self.plic_contexts.set(i, ctx);
                assert(self@.contexts =~= prev.update(i as int, cs[i as int]));
                lines.push(line);
            } else {
                assert(ctx@ == cs[i as int]);
            }
            i = i + 1;
        }
        assert(self@.contexts =~= cs);
        lines
    }

    /// A guest access to the controller's registers at `addr`: a write of
    /// `*data` when `is_write`, otherwise a read into `*data`. Returns the
    /// change, if any, of a vCPU's external-interrupt line.
    pub fn mmio_callback(&mut self, addr: u64, data: &mut u32, is_write: bool) -> (r: Option<IrqLine>)
        requires
            old(self).wf(),
            PLIC_BASE_ADDR <= addr < PLIC_BASE_ADDR + REG_SIZE,
        ensures
            final(self).wf(),
            is_write ==> (final(self)@, r) == write_spec(old(self)@, reg_offset(addr), *old(data)) && *final(data)
                == *old(data),
            !is_write ==> (final(self)@, *final(data), r) == read_spec(old(self)@, reg_offset(addr), *old(data)),
    {
        assert(addr >= 0xc00_0000 && addr < 0xd00_0000 ==> addr & !3u64 >= 0xc00_0000 && addr & !3u64 < 0xd00_0000)
            by (bit_vector);
        let mut offset = addr & !0x3;
        offset = offset - PLIC_BASE_ADDR;
        if is_write {
            if offset <= PRIORITY_END {
                self.write_global_priority(offset, *data);
                None
            } else if offset <= ENABLE_END {
                let ctx_id = (offset - ENABLE_BASE) / ENABLE_PER_HART;
                offset = offset - (ctx_id * ENABLE_PER_HART + ENABLE_BASE);
                if (ctx_id as usize) < self.plic_contexts.len() {
                    self.write_local_enable(ctx_id as usize, offset, *data)
                } else {
                    None
                }
            } else {
                let ctx_id = (offset - CONTEXT_BASE) / CONTEXT_PER_HART;
                offset = offset - (ctx_id * CONTEXT_PER_HART + CONTEXT_BASE);
                if (ctx_id as usize) < self.plic_contexts.len() {
                    self.write_local_context(ctx_id as usize, offset, *data)
                } else {
                    None
                }
            }
        } else {
            if offset <= PRIORITY_END {
                self.read_global_priority(offset, data);
                None
            } else if offset <= ENABLE_END {
                let ctx_id = (offset - ENABLE_BASE) / ENABLE_PER_HART;
                offset = offset - (ctx_id * ENABLE_PER_HART + ENABLE_BASE);
                if (ctx_id as usize) < self.plic_contexts.len() {
                    self.read_local_enable(ctx_id as usize, offset, data);
                }
                None
            } else {
                let ctx_id = (offset - CONTEXT_BASE) / CONTEXT_PER_HART;
                offset = offset - (ctx_id * CONTEXT_PER_HART + CONTEXT_BASE);
                if (ctx_id as usize) < self.plic_contexts.len() {
                    self.read_local_context(ctx_id as usize, offset, data)
                } else {
                    None
                }
            }
        }
    }

    /// A level-triggered source changes level.
    pub fn trigger_level_irq(&mut self, irq: u32, level: bool) -> (r: Vec<IrqLine>)
        requires
            old(self).wf(),
        ensures
            final(self).wf(),
            (final(self)@, r@) == trigger_spec(old(self)@, irq, level, false),
            irq >= old(self)@.num_irq ==> final(self)@ == old(self)@ && r@.len() == 0,
    {
        self.plic_trigger_irq(irq, level, false)
    }
}

} // verus!

verus! {

proof fn lemma_fresh_bits(x: u32, y: u32)
    ensures
        0u32 ^ x == x,
        x & y & 0u32 == 0,
        x & !x == 0,
        (0u32 | x) & !0u32 == x,
        0u32 & !0u32 == 0,
        0u32 | x == x,
{
    assert(0u32 ^ x == x && x & y & 0u32 == 0 && x & !x == 0 && (0u32 | x) & !0u32 == x && 0u32 & !0u32 == 0 && 0u32
        | x == x) by (bit_vector);
}

proof fn lemma_select_bound(c: CtxView, num_irq: u32, n: int)
    requires
        n <= 32,
    ensures
        select_from(c, num_irq, n).0 < 32,
        select_from(c, num_irq, n).0 < n || n <= 0 || select_from(c, num_irq, n).0 == 0,
    decreases n,
{
    if n > 0 {
        lemma_select_bound(c, num_irq, n - 1);
    }
}

/// Selection in a context where only `irq` is pending and nothing is
/// claimed picks `irq` once the scan has passed it.
proof fn lemma_select_single(c: CtxView, irq: u32, n: int)
    requires
        1 <= irq < 32,
        n <= 32,
        c.pending == 1u32 << irq,
        c.claimed == 0,
        c.threshold == 0,
        bit(c.enable, irq),
        c.pending_priority.len() == 32,
        0 < c.pending_priority[irq as int] < 256,
    ensures
        n <= irq ==> select_from(c, 32, n) == (0u32, 0u8),
        n > irq ==> select_from(c, 32, n) == (irq, c.pending_priority[irq as int] as u8),
    decreases n,
{
    if n > 0 {
        lemma_select_single(c, irq, n - 1);
        let j = (n - 1) as u32;
        lemma_bits(0, irq, j);
        assert(0u32 | (1u32 << irq) == 1u32 << irq) by (bit_vector);
    }
}

/// A trigger of a source number beyond the controller's sources changes
/// nothing and reports no line change.
pub proof fn lemma_out_of_range_trigger(v: PlicView, irq: u32, level: bool, edge: bool)
    requires
        irq >= v.num_irq,
    ensures
        trigger_spec(v, irq, level, edge) == (v, Seq::<IrqLine>::empty()),
{
}

/// Writing a context's enable word and reading it back yields the written
/// bits, except bit 0 of word 0 (there is no source 0), which reads as zero.
pub proof fn lemma_enable_round_trip(v: PlicView, ctx_id: int, data: u32, junk: u32)
    requires
        v.num_irq_word == 1,
        0 <= ctx_id < v.contexts.len(),
        ctx_id < 0x3fc0,
    ensures
        ({
            let off = (ENABLE_BASE + ctx_id * ENABLE_PER_HART) as u64;
            read_spec(write_spec(v, off, data).0, off, junk).1 == data & !1u32
        }),
{
    let off = (ENABLE_BASE + ctx_id * ENABLE_PER_HART) as u64;
    assert((off - ENABLE_BASE) / (ENABLE_PER_HART as int) == ctx_id) by (nonlinear_arith)
        requires
            off == ENABLE_BASE + ctx_id * ENABLE_PER_HART,
            ENABLE_PER_HART == 0x80,
            0 <= ctx_id,
    ;
    assert(0u64 >> 2u64 == 0) by (bit_vector);
}

/// After a claim that yields a source: an edge-triggered source is no
/// longer pending nor claimed; any other is claimed and stays pending.
pub proof fn lemma_claim_effect(c: CtxView, num_irq: u32)
    requires
        c.pending_priority.len() == 32,
    ensures
        ({
            let (c2, best) = claim_spec(c, num_irq);
            best != 0 ==> {
                &&& bit(c.autoclear, best) ==> !bit(c2.pending, best) && !bit(c2.claimed, best)
                &&& !bit(c.autoclear, best) ==> bit(c2.claimed, best) && c2.pending == c.pending
            }
        }),
{
    lemma_select_bound(c, num_irq, 32);
    let best = select_spec(c, num_irq);
    if best != 0 {
        lemma_bits(c.pending, best, best);
        lemma_bits(c.claimed, best, best);
    }
}

/// On a fresh controller: give source `irq` a nonzero priority, enable it
/// in context `ctx_id`, raise its level; a read of that context's claim
/// register then yields `irq`, which stays pending and becomes claimed.
pub proof fn lemma_claim_after_trigger(n: nat, ctx_id: int, irq: u32, prio: u32, enable: u32, junk: u32)
    requires
        1 <= irq < 32,
        prio & PRIORITY_MASK != 0,
        0 <= ctx_id < 2 * n,
        ctx_id < 0x3fc0,
        bit(enable, irq),
    ensures
        ({
            let v1 = write_spec(fresh_spec(n), (irq * 4) as u64, prio).0;
            let v2 = write_spec(v1, (ENABLE_BASE + ctx_id * ENABLE_PER_HART) as u64, enable).0;
            let v3 = trigger_spec(v2, irq, true, false).0;
            let (v4, r, _) = read_spec(v3, (CONTEXT_BASE + ctx_id * CONTEXT_PER_HART + CONTEXT_CLAIM) as u64, junk);
            &&& r == irq
            &&& bit(v4.contexts[ctx_id].claimed, irq)
            &&& bit(v4.contexts[ctx_id].pending, irq)
        }),
{
    let v0 = fresh_spec(n);
    let poff = (irq * 4) as u64;
    assert(poff >> 2u64 == irq as u64) by (bit_vector)
        requires
            poff == irq * 4,
            irq < 32,
    ;
    let v1 = write_spec(v0, poff, prio).0;
    let p = (prio & PRIORITY_MASK) as u8;
    assert(prio & 0xfu32 < 16) by (bit_vector);
    assert(v1.priority[irq as int] == p);
    let eoff = (ENABLE_BASE + ctx_id * ENABLE_PER_HART) as u64;
    assert((eoff - ENABLE_BASE) / (ENABLE_PER_HART as int) == ctx_id) by (nonlinear_arith)
        requires
            eoff == ENABLE_BASE + ctx_id * ENABLE_PER_HART,
            ENABLE_PER_HART == 0x80,
            0 <= ctx_id,
    ;
    assert(0u64 >> 2u64 == 0) by (bit_vector);
    let v2 = write_spec(v1, eoff, enable).0;
    let new = enable & !1u32;
    lemma_fresh_bits(new, new);
    lemma_bits(enable, irq, irq);
    assert(bit(new, irq));
    lemma_fresh_bits(0, 0);
    let c1 = v1.contexts[ctx_id];
    assert(c1.enable == 0 && c1.pending == 0 && v1.level == 0);
    assert(c1.enable ^ new == new);
    assert((c1.enable ^ new) & new & v1.level == 0);
    assert((c1.enable ^ new) & !new == 0);
    let c2 = v2.contexts[ctx_id];
    assert(c2.enable == new);
    assert(c2.pending == 0);
    assert(c2.claimed == 0);
    assert(c2.autoclear == 0);
    let v3 = trigger_spec(v2, irq, true, false).0;
    let c3 = v3.contexts[ctx_id];
    lemma_fresh_bits(1u32 << irq, 0);
    assert(c3.pending == 1u32 << irq);
    assert(c3.claimed == 0);
    assert(c3.autoclear == 0);
    assert(c3.threshold == 0);
    assert(c3.pending_priority[irq as int] == p as u32);
    lemma_select_single(c3, irq, 32);
    let coff = (CONTEXT_BASE + ctx_id * CONTEXT_PER_HART + CONTEXT_CLAIM) as u64;
    assert((coff - CONTEXT_BASE) / (CONTEXT_PER_HART as int) == ctx_id) by (nonlinear_arith)
        requires
            coff == CONTEXT_BASE + ctx_id * CONTEXT_PER_HART + CONTEXT_CLAIM,
            CONTEXT_PER_HART == 0x1000,
            CONTEXT_CLAIM == 4,
            0 <= ctx_id,
    ;
    lemma_bits(0, irq, irq);
    lemma_bits(c3.claimed, irq, irq);
    lemma_bits(0, irq, irq);
    assert(bit(1u32 << irq, irq));
}

} // verus!
