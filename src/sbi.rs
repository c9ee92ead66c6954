//! Emulation of the legacy SBI calls a guest kernel makes.
//!
//! [`Ecall::ecall_handler`] decides what a call does: it fills in what can
//! be answered at once and names the outside work (an [`SbiAction`]) that
//! the vCPU thread then performs; calls that return data from outside are
//! finished with [`Ecall::console_getchar`] and
//! [`Ecall::complete_remote_fence`].
use vstd::prelude::*;

verus! {

pub const SBI_EXT_0_1_SET_TIMER: u64 = 0x0;
pub const SBI_EXT_0_1_CONSOLE_PUTCHAR: u64 = 0x1;
pub const SBI_EXT_0_1_CONSOLE_GETCHAR: u64 = 0x2;
pub const SBI_EXT_0_1_CLEAR_IPI: u64 = 0x3;
pub const SBI_EXT_0_1_SEND_IPI: u64 = 0x4;
pub const SBI_EXT_0_1_REMOTE_FENCE_I: u64 = 0x5;
pub const SBI_EXT_0_1_REMOTE_SFENCE_VMA: u64 = 0x6;
pub const SBI_EXT_0_1_REMOTE_SFENCE_VMA_ASID: u64 = 0x7;
pub const SBI_EXT_0_1_SHUTDOWN: u64 = 0x8;

pub const SBI_TEST_SPACE_START: u64 = 0xC00_0000;
pub const SBI_TEST_SPACE_END: u64 = 0xCFF_FFFF;
pub const SBI_TEST_HU_VIRTUAL_IPI: u64 = 0xC00_0001;
pub const SBI_TEST_SUCCESS: u64 = 0xC00_0007;
pub const SBI_TEST_FAILED: u64 = 0xC00_0008;
pub const SBI_TEST_HU_LOOP: u64 = 0xC10_0000;

pub const SBI_SUCCESS: i64 = 0;
pub const SBI_ERR_FAILURE: i64 = -1;
pub const SBI_ERR_NOT_SUPPORTED: i64 = -2;
pub const SBI_ERR_INVALID_PARAM: i64 = -3;
pub const SBI_ERR_DENIED: i64 = -4;
pub const SBI_ERR_INVALID_ADDRESS: i64 = -5;

/// What the handler returns to the vCPU loop for a shutdown.
pub const SHUTDOWN_RET: i32 = -100;

/// The outside work a call needs.
#[derive(Clone, Copy, PartialEq, Eq, Structural, Debug)]
pub enum SbiAction {
    /// Nothing beyond the registers.
    Done,
    /// Clear the pending virtual timer and arm the timer for this deadline.
    SetTimer(u64),
    /// Write this byte to the console.
    PutChar(u8),
    /// Read one console byte and finish with `console_getchar`.
    GetChar,
    /// Read the hart mask at this guest address and kick those vCPUs.
    SendIpi(u64),
    /// Ask the driver for a global fence and finish with
    /// `complete_remote_fence`.
    RemoteFence,
    /// Stop the guest.
    Shutdown,
    /// Raise a virtual software interrupt on the calling vCPU.
    VirtualIpiSelf,
    /// Store `start` at host address `target`, then wait there for `end`.
    HuLoop { target: u64, start: u64, end: u64 },
    /// Count a passed test.
    TestSuccess,
    /// Count a failed test.
    TestFailed,
}

/// One call: extension (A7), function (A6), arguments (A0 to A5) and the
/// values returned in A0 and A1.
pub struct Ecall {
    pub ext_id: u64,
    pub func_id: u64,
    pub arg: [u64; 6],
    pub ret: [u64; 2],
}

/// The outcome of call `ext_id` with first argument `arg0`: the handler's
/// return value, what is left in A0 (`None`: unchanged) and the action.
pub open spec fn ecall_spec(ext_id: u64, arg: Seq<u64>) -> (i32, Option<u64>, SbiAction) {
    let unsupported = SBI_ERR_NOT_SUPPORTED as u64;
    if ext_id == SBI_EXT_0_1_SET_TIMER {
        (0, None, SbiAction::SetTimer(arg[0]))
    } else if ext_id == SBI_EXT_0_1_CONSOLE_PUTCHAR {
        (0, Some(0u64), SbiAction::PutChar(arg[0] as u8))
    } else if ext_id == SBI_EXT_0_1_CONSOLE_GETCHAR {
        (0, None, SbiAction::GetChar)
    } else if ext_id == SBI_EXT_0_1_CLEAR_IPI {
        (0, Some(unsupported), SbiAction::Done)
    } else if ext_id == SBI_EXT_0_1_SEND_IPI {
        (0, None, SbiAction::SendIpi(arg[0]))
    } else if ext_id == SBI_EXT_0_1_SHUTDOWN {
        (SHUTDOWN_RET, None, SbiAction::Shutdown)
    } else if SBI_EXT_0_1_REMOTE_FENCE_I <= ext_id <= SBI_EXT_0_1_REMOTE_SFENCE_VMA_ASID {
        (0, None, SbiAction::RemoteFence)
    } else if SBI_TEST_SPACE_START <= ext_id <= SBI_TEST_SPACE_END {
        if ext_id == SBI_TEST_HU_VIRTUAL_IPI {
            (0, None, SbiAction::VirtualIpiSelf)
        } else if ext_id == SBI_TEST_HU_LOOP {
            (0, None, SbiAction::HuLoop { target: arg[1], start: arg[2], end: arg[3] })
        } else if ext_id == SBI_TEST_SUCCESS {
            (0, None, SbiAction::TestSuccess)
        } else if ext_id == SBI_TEST_FAILED {
            (0, None, SbiAction::TestFailed)
        } else {
            (0, Some(unsupported), SbiAction::Done)
        }
    } else {
        (0, Some(unsupported), SbiAction::Done)
    }
}

impl Ecall {
    pub fn new() -> (r: Self)
        ensures
            r.ext_id == 0,
            r.func_id == 0,
            r.arg@ == Seq::new(6, |i: int| 0u64),
            r.ret@ == Seq::new(2, |i: int| 0u64),
    {
        let arg = [0u64; 6];
        let ret = [0u64; 2];
        assert(arg@ =~= Seq::new(6, |i: int| 0u64));
        assert(ret@ =~= Seq::new(2, |i: int| 0u64));
        Self { ext_id: 0, func_id: 0, arg, ret }
    }

    /// Handles the call: sets what A0 returns where that is known now and
    /// names the outside work, as [`ecall_spec`] says.
    pub fn ecall_handler(&mut self) -> (r: (i32, SbiAction))
        ensures
            final(self).ext_id == old(self).ext_id,
            final(self).func_id == old(self).func_id,
            final(self).arg == old(self).arg,
            final(self).ret@[1] == old(self).ret@[1],
            ({
                let (ret, a0, action) = ecall_spec(old(self).ext_id, old(self).arg@);
                &&& r == (ret, action)
                &&& final(self).ret@[0] == match a0 {
                    Some(v) => v,
                    None => old(self).ret@[0],
                }
            }),
    {
        let ext_id = self.ext_id;
        if ext_id == SBI_EXT_0_1_SET_TIMER {
            (0, SbiAction::SetTimer(self.arg[0]))
        } else if ext_id == SBI_EXT_0_1_CONSOLE_PUTCHAR {
            let ch = self.arg[0] as u8;
            let ret = self.console_putchar();
            (ret, SbiAction::PutChar(ch))
        } else if ext_id == SBI_EXT_0_1_CONSOLE_GETCHAR {
            (0, SbiAction::GetChar)
        } else if ext_id == SBI_EXT_0_1_CLEAR_IPI {
            let ret = self.unsupported_sbi();
            (ret, SbiAction::Done)
        } else if ext_id == SBI_EXT_0_1_SEND_IPI {
            (0, SbiAction::SendIpi(self.arg[0]))
        } else if ext_id == SBI_EXT_0_1_SHUTDOWN {
            (SHUTDOWN_RET, SbiAction::Shutdown)
        } else if ext_id == SBI_EXT_0_1_REMOTE_FENCE_I || ext_id == SBI_EXT_0_1_REMOTE_SFENCE_VMA || ext_id
            == SBI_EXT_0_1_REMOTE_SFENCE_VMA_ASID {
            (0, SbiAction::RemoteFence)
        } else if SBI_TEST_SPACE_START <= ext_id && ext_id <= SBI_TEST_SPACE_END {
            self.ulh_extension_emulation()
        } else {
            let ret = self.unsupported_sbi();
            (ret, SbiAction::Done)
        }
    }

    /// The calls of the test extension.
    fn ulh_extension_emulation(&mut self) -> (r: (i32, SbiAction))
        requires
            SBI_TEST_SPACE_START <= old(self).ext_id <= SBI_TEST_SPACE_END,
        ensures
            final(self).ext_id == old(self).ext_id,
            final(self).func_id == old(self).func_id,
            final(self).arg == old(self).arg,
            final(self).ret@[1] == old(self).ret@[1],
            ({
                let (ret, a0, action) = ecall_spec(old(self).ext_id, old(self).arg@);
                &&& r == (ret, action)
                &&& final(self).ret@[0] == match a0 {
                    Some(v) => v,
                    None => old(self).ret@[0],
                }
            }),
    {
        let ext_id = self.ext_id;
        if ext_id == SBI_TEST_HU_VIRTUAL_IPI {
            (0, SbiAction::VirtualIpiSelf)
        } else if ext_id == SBI_TEST_HU_LOOP {
            (0, SbiAction::HuLoop { target: self.arg[1], start: self.arg[2], end: self.arg[3] })
        } else if ext_id == SBI_TEST_SUCCESS {
            (0, SbiAction::TestSuccess)
        } else if ext_id == SBI_TEST_FAILED {
            (0, SbiAction::TestFailed)
        } else {
            self.unsupported_sbi();
            (0, SbiAction::Done)
        }
    }

    /// A byte written to the console: success in A0.
    pub fn console_putchar(&mut self) -> (r: i32)
        ensures
            r == 0,
            final(self).ret@ == old(self).ret@.update(0, 0),
            final(self).ext_id == old(self).ext_id,
            final(self).func_id == old(self).func_id,
            final(self).arg == old(self).arg,
    {
        self.ret[0] = 0;
        0
    }

    /// A call that is not supported: the error code in A0.
    pub fn unsupported_sbi(&mut self) -> (r: i32)
        ensures
            r == 0,
            final(self).ret@ == old(self).ret@.update(0, SBI_ERR_NOT_SUPPORTED as u64),
            final(self).ext_id == old(self).ext_id,
            final(self).func_id == old(self).func_id,
            final(self).arg == old(self).arg,
    {
        self.ret[0] = SBI_ERR_NOT_SUPPORTED as u64;
        0
    }

    /// Finishes a console read with the character `ch` read (negative when
    /// there was none): it goes to A0, sign-extended.
    pub fn console_getchar(&mut self, ch: i32) -> (r: i32)
        ensures
            r == 0,
            final(self).ret@ == old(self).ret@.update(0, ch as u64),
            final(self).ext_id == old(self).ext_id,
            final(self).func_id == old(self).func_id,
            final(self).arg == old(self).arg,
    {
        self.ret[0] = ch as u64;
        0
    }

    /// Finishes a send-IPI call once the hart mask has been read from the
    /// guest: the vCPUs to kick (each named one that exists) and how many
    /// named ones do not exist; the call itself succeeds.
    pub fn complete_send_ipi(&self, hart_mask: u64, vcpu_num: u32) -> (r: IpiTargets)
        requires
            self.ext_id == SBI_EXT_0_1_SEND_IPI,
        ensures
            r.targets@ == valid_targets(hart_mask, vcpu_num, 64),
            r.invalid == invalid_count(hart_mask, vcpu_num, 64),
            forall|k: int| 0 <= k < r.targets@.len() ==> #[trigger] r.targets@[k] < vcpu_num,
    {
        send_ipi_targets(hart_mask, vcpu_num)
    }

    /// Finishes a remote fence with the two words the driver returned.
    pub fn complete_remote_fence(&mut self, r0: u64, r1: u64)
        ensures
            final(self).ret@ == seq![r0, r1],
            final(self).ext_id == old(self).ext_id,
            final(self).func_id == old(self).func_id,
            final(self).arg == old(self).arg,
    {
        self.ret[0] = r0;
        self.ret[1] = r1;
        assert(self.ret@ =~= seq![r0, r1]);
    }
}

/// The vCPUs a send-IPI call reaches, and how many of its targets do not
/// exist.
#[derive(Debug)]
pub struct IpiTargets {
    pub targets: Vec<u32>,
    pub invalid: u64,
}

/// The vCPUs below `n` that `hart_mask` names and that exist.
pub open spec fn valid_targets(hart_mask: u64, vcpu_num: u32, n: int) -> Seq<u32>
    decreases n,
{
    if n <= 0 {
        Seq::empty()
    } else {
        let prev = valid_targets(hart_mask, vcpu_num, n - 1);
        let i = (n - 1) as u32;
        if (hart_mask >> i as u64) & 1 == 1 && i < vcpu_num {
            prev.push(i)
        } else {
            prev
        }
    }
}

/// How many vCPU numbers below `n` that `hart_mask` names do not exist.
pub open spec fn invalid_count(hart_mask: u64, vcpu_num: u32, n: int) -> nat
    decreases n,
{
    if n <= 0 {
        0
    } else {
        let i = (n - 1) as u32;
        invalid_count(hart_mask, vcpu_num, n - 1) + if (hart_mask >> i as u64) & 1 == 1 && i >= vcpu_num {
            1nat
        } else {
            0nat
        }
    }
}

proof fn lemma_targets_exist(hart_mask: u64, vcpu_num: u32, n: int)
    ensures
        forall|k: int|
            0 <= k < valid_targets(hart_mask, vcpu_num, n).len() ==> #[trigger] valid_targets(
                hart_mask,
                vcpu_num,
                n,
            )[k] < vcpu_num,
        invalid_count(hart_mask, vcpu_num, n) <= (if n < 0 {
            0
        } else {
            n
        }),
    decreases n,
{
    if n > 0 {
        lemma_targets_exist(hart_mask, vcpu_num, n - 1);
        let prev = valid_targets(hart_mask, vcpu_num, n - 1);
        let cur = valid_targets(hart_mask, vcpu_num, n);
        assert forall|k: int| 0 <= k < cur.len() implies #[trigger] cur[k] < vcpu_num by {
            if k < prev.len() {
                assert(cur[k] == prev[k]);
            }
        }
    }
}

/// The targets of a send-IPI call with hart mask `hart_mask` in a guest of
/// `vcpu_num` vCPUs: each named vCPU that exists, in order, and a count of
/// the named ones that do not (every bit at or above `vcpu_num`).
pub fn send_ipi_targets(hart_mask: u64, vcpu_num: u32) -> (r: IpiTargets)
    ensures
        r.targets@ == valid_targets(hart_mask, vcpu_num, 64),
        r.invalid == invalid_count(hart_mask, vcpu_num, 64),
        forall|k: int| 0 <= k < r.targets@.len() ==> #[trigger] r.targets@[k] < vcpu_num,
{
    let mut targets: Vec<u32> = Vec::new();
    let mut invalid: u64 = 0;
    let mut i: u32 = 0;
    while i < 64
        invariant
            i <= 64,
            targets@ == valid_targets(hart_mask, vcpu_num, i as int),
            invalid == invalid_count(hart_mask, vcpu_num, i as int),
        decreases 64 - i,
    {
        proof {
            lemma_targets_exist(hart_mask, vcpu_num, i as int);
        }
        if (hart_mask >> i as u64) & 1 == 1 {
            if i >= vcpu_num {
                invalid = invalid + 1;
            } else {
                targets.push(i);
            }
        }
        i = i + 1;
    }
    proof {
        lemma_targets_exist(hart_mask, vcpu_num, 64);
    }
    IpiTargets { targets, invalid }
}

} // verus!
