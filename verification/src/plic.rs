//! The platform-level interrupt controller (PLIC).
//!
//! Per IRQ a 32-bit priority register; per context (a hart and privilege
//! pair) a 1024-bit enable bitmap, a threshold register, and the
//! claim/complete register. The hardware side — which pending line a claim
//! read hands out — is part of the model: a claim returns the
//! highest-priority pending line that is enabled and above threshold for the
//! claiming context, lowest line number winning ties, and marks it in
//! service until the completion write.

use vstd::prelude::*;

use crate::driver::DeviceDriver;
use crate::error::InternalError;
use crate::dispatch::{spec_wrap_inc, IrqCounts};
use crate::irq_manager::IrqManager;
use crate::util::repeat_value;
use crate::IRQ_MAX;

verus! {

/// Words of the enable bitmap that belong to one context.
pub const ENABLE_WORDS_PER_CONTEXT: usize = 32;

/// Which chipset the root `compatible` string selected; it decides how a
/// hart maps to a PLIC context.
#[derive(Clone, Copy, Debug, PartialEq, Eq, Structural)]
pub enum ChipKind {
    /// `riscv-virtio`: hart `h` drives context `2 h + 1`.
    RiscvVirtio,
    /// `sifive`: hart `h` drives context `2 h`; hart 0 is invalid.
    Sifive,
}

/// The context a hart's supervisor mode drives, under the given chipset
/// mapping; hart 0 is invalid on SiFive parts.
pub fn get_context_id(chip: ChipKind, cpu_id: usize) -> (r: Result<usize, InternalError>)
    requires
        cpu_id < 0x1000_0000,
    ensures
        match r {
            Ok(ctx) => {
                &&& chip is RiscvVirtio ==> ctx == 2 * cpu_id + 1
                &&& chip is Sifive ==> cpu_id != 0 && ctx == 2 * cpu_id
            },
            Err(e) => e == InternalError::InvalidCpuId && chip is Sifive && cpu_id == 0,
        },
{
    match chip {
        ChipKind::RiscvVirtio => Ok(cpu_id * 2 + 1),
        ChipKind::Sifive => {
            if cpu_id == 0 {
                Err(InternalError::InvalidCpuId)
            } else {
                Ok(cpu_id * 2)
            }
        },
    }
}

/// Setting bit `i` of a word raises that bit and leaves every other bit as
/// it was.
pub proof fn lemma_set_bit(w: u32, i: u32, j: u32)
    requires
        i < 32,
        j < 32,
    ensures
        ((w | (1u32 << i)) >> i) & 1u32 == 1u32,
        i != j ==> ((w | (1u32 << i)) >> j) & 1u32 == (w >> j) & 1u32,
{
    assert(i < 32 && j < 32 ==> ((w | (1u32 << i)) >> i) & 1u32 == 1u32 && (i != j ==> ((w | (1u32
        << i)) >> j) & 1u32 == (w >> j) & 1u32)) by (bit_vector);
}

/// Clearing bit `i` of a word lowers that bit and leaves every other bit as
/// it was.
pub proof fn lemma_clear_bit(w: u32, i: u32, j: u32)
    requires
        i < 32,
        j < 32,
    ensures
        ((w & !(1u32 << i)) >> i) & 1u32 == 0u32,
        i != j ==> ((w & !(1u32 << i)) >> j) & 1u32 == (w >> j) & 1u32,
{
    assert(i < 32 && j < 32 ==> ((w & !(1u32 << i)) >> i) & 1u32 == 0u32 && (i != j ==> ((w & !(
    1u32 << i)) >> j) & 1u32 == (w >> j) & 1u32)) by (bit_vector);
}

/// Every bit of the zero word is clear.
pub proof fn lemma_zero_word(j: u32)
    requires
        j < 32,
    ensures
        (0u32 >> j) & 1u32 == 0u32,
{
    assert(j < 32 ==> (0u32 >> j) & 1u32 == 0u32) by (bit_vector);
}

/// The PLIC's register state together with the IRQ dispatch table.
pub struct PLICInner {
    /// Number of contexts this controller instance serves.
    pub n_contexts: usize,
    /// Per-IRQ priority registers.
    pub priority: Vec<u32>,
    /// The enable bitmaps, 32 words per context.
    pub enable: Vec<u32>,
    /// Per-context threshold registers.
    pub threshold: Vec<u32>,
    /// Which lines the hardware has latched as pending.
    pub pending: Vec<bool>,
    /// Per context, the line claimed and not yet completed.
    pub claimed: Vec<Option<usize>>,
    /// IRQ number to bound driver.
    pub irq_manager: IrqManager,
}

impl PLICInner {
    /// Structural soundness of the register file.
    pub open spec fn wf(self) -> bool {
        &&& self.priority@.len() == IRQ_MAX
        &&& self.enable@.len() == self.n_contexts * ENABLE_WORDS_PER_CONTEXT
        &&& self.threshold@.len() == self.n_contexts
        &&& self.pending@.len() == IRQ_MAX
        &&& self.claimed@.len() == self.n_contexts
        &&& self.irq_manager.wf()
        &&& self.irq_manager.range_start == 1
        &&& self.irq_manager.range_end == IRQ_MAX
    }

    /// Whether line `irq` is enabled for context `ctx`.
    pub open spec fn enable_bit(self, ctx: int, irq: int) -> bool {
        (self.enable@[ctx * 32 + irq / 32] >> ((irq % 32) as u32)) & 1u32 == 1u32
    }

    /// Whether the hardware would deliver line `irq` to context `ctx`:
    /// pending, enabled there, and prioritised above the context threshold.
    pub open spec fn deliverable(self, ctx: int, irq: int) -> bool {
        &&& 1 <= irq < IRQ_MAX
        &&& self.pending@[irq]
        &&& self.enable_bit(ctx, irq)
        &&& self.priority@[irq] > self.threshold@[ctx]
    }

    /// All registers other than the enable bitmap, read equal.
    pub open spec fn same_but_enable(pre: Self, post: Self) -> bool {
        &&& post.n_contexts == pre.n_contexts
        &&& post.priority == pre.priority
        &&& post.threshold == pre.threshold
        &&& post.pending == pre.pending
        &&& post.claimed == pre.claimed
        &&& post.irq_manager == pre.irq_manager
        &&& post.enable@.len() == pre.enable@.len()
    }

    /// A line is valid if it lies in `1..IRQ_MAX`.
    pub fn is_valid(&self, irq_num: usize) -> (r: bool)
        ensures
            r == (1 <= irq_num < IRQ_MAX),
    {
        1 <= irq_num && irq_num < IRQ_MAX
    }

    /// Read-modify-write: set the enable bit of `irq` for `ctx`, leaving
    /// every other bit of the bitmap untouched.
    pub fn enable(&mut self, context_id: usize, irq_num: usize)
        requires
            old(self).wf(),
            context_id < old(self).n_contexts,
            1 <= irq_num < IRQ_MAX,
        ensures
            final(self).wf(),
            final(self).enable_bit(context_id as int, irq_num as int),
            forall|c: int, i: int|
                0 <= c < old(self).n_contexts && 0 <= i < IRQ_MAX && !(c == context_id && i
                    == irq_num) ==> final(self).enable_bit(c, i) == old(self).enable_bit(c, i),
            Self::same_but_enable(*old(self), *final(self)),
    {
        let n_words = self.enable.len();
        proof {
            assert(context_id * 32 + irq_num / 32 < self.n_contexts * 32) by (nonlinear_arith)
                requires
                    context_id < self.n_contexts,
                    0 <= irq_num / 32 < 32,
            ;
        }
        let word_idx = context_id * ENABLE_WORDS_PER_CONTEXT + irq_num / 32;
        let content = self.enable[word_idx];
        let bit: u32 = (irq_num % 32) as u32;
        self.enable.set(word_idx, content | (1u32 << bit));
        proof {
            lemma_set_bit(content, bit, bit);
            assert forall|c: int, i: int|
                0 <= c < old(self).n_contexts && 0 <= i < IRQ_MAX && !(c == context_id && i
                    == irq_num) implies self.enable_bit(c, i) == old(self).enable_bit(c, i) by {
                let wi = c * 32 + i / 32;
                lemma_word_index_bounds(c, i, old(self).n_contexts as int);
                if wi == word_idx {
                    lemma_word_index_same(c, i, context_id as int, irq_num as int);
                    lemma_set_bit(content, bit, (i % 32) as u32);
                }
            }
        }
    }

    /// Read-modify-write: clear the enable bit of `irq` for `ctx`, leaving
    /// every other bit of the bitmap untouched.
    pub fn disable(&mut self, context_id: usize, irq_num: usize)
        requires
            old(self).wf(),
            context_id < old(self).n_contexts,
            1 <= irq_num < IRQ_MAX,
        ensures
            final(self).wf(),
            !final(self).enable_bit(context_id as int, irq_num as int),
            forall|c: int, i: int|
                0 <= c < old(self).n_contexts && 0 <= i < IRQ_MAX && !(c == context_id && i
                    == irq_num) ==> final(self).enable_bit(c, i) == old(self).enable_bit(c, i),
            Self::same_but_enable(*old(self), *final(self)),
    {
        let n_words = self.enable.len();
        proof {
            assert(context_id * 32 + irq_num / 32 < self.n_contexts * 32) by (nonlinear_arith)
                requires
                    context_id < self.n_contexts,
                    0 <= irq_num / 32 < 32,
            ;
        }
        let word_idx = context_id * ENABLE_WORDS_PER_CONTEXT + irq_num / 32;
        let content = self.enable[word_idx];
        let bit: u32 = (irq_num % 32) as u32;
        self.enable.set(word_idx, content & !(1u32 << bit));
        proof {
            lemma_clear_bit(content, bit, bit);
            assert forall|c: int, i: int|
                0 <= c < old(self).n_contexts && 0 <= i < IRQ_MAX && !(c == context_id && i
                    == irq_num) implies self.enable_bit(c, i) == old(self).enable_bit(c, i) by {
                let wi = c * 32 + i / 32;
                lemma_word_index_bounds(c, i, old(self).n_contexts as int);
                if wi == word_idx {
                    lemma_word_index_same(c, i, context_id as int, irq_num as int);
                    lemma_clear_bit(content, bit, (i % 32) as u32);
                }
            }
        }
    }

    /// Zero the whole enable bitmap of one context.
    pub fn disable_all(&mut self, context_id: usize)
        requires
            old(self).wf(),
            context_id < old(self).n_contexts,
        ensures
            final(self).wf(),
            forall|i: int| 0 <= i < IRQ_MAX ==> !final(self).enable_bit(context_id as int, i),
            forall|c: int, i: int|
                0 <= c < old(self).n_contexts && c != context_id && 0 <= i < IRQ_MAX ==> final(self).enable_bit(c, i) == old(self).enable_bit(c, i),
            Self::same_but_enable(*old(self), *final(self)),
    {
        let n_words = self.enable.len();
        proof {
            assert(context_id * 32 + 32 <= self.n_contexts * 32) by (nonlinear_arith)
                requires
                    context_id < self.n_contexts,
            ;
        }
        let base = context_id * ENABLE_WORDS_PER_CONTEXT;
        let mut k: usize = 0;
        while k < ENABLE_WORDS_PER_CONTEXT
            invariant
                k <= 32,
                base == context_id * 32,
                base + 32 <= self.enable@.len(),
                self.enable@.len() == old(self).enable@.len(),
                forall|w: int| base <= w < base + k ==> self.enable@[w] == 0u32,
                forall|w: int|
                    0 <= w < self.enable@.len() && !(base <= w < base + k) ==> self.enable@[w]
                        == old(self).enable@[w],
                Self::same_but_enable(*old(self), *self),
                self.wf(),
            decreases 32 - k,
        {
            self.enable.set(base + k, 0u32);
            k = k + 1;
        }
        proof {
            assert forall|i: int| 0 <= i < IRQ_MAX implies !self.enable_bit(
                context_id as int,
                i,
            ) by {
                lemma_word_index_bounds(context_id as int, i, old(self).n_contexts as int);
                lemma_zero_word((i % 32) as u32);
            }
            assert forall|c: int, i: int|
                0 <= c < old(self).n_contexts && c != context_id && 0 <= i < IRQ_MAX implies self
                .enable_bit(c, i) == old(self).enable_bit(c, i) by {
                lemma_word_index_bounds(c, i, old(self).n_contexts as int);
                assert(c * 32 + i / 32 < base || c * 32 + i / 32 >= base + 32) by (nonlinear_arith)
                    requires
                        base == context_id * 32,
                        c != context_id,
                        0 <= c,
                        0 <= i / 32 < 32,
                ;
            }
        }
    }

    /// Write one line's priority register.
    pub fn set_priority(&mut self, irq_num: usize, priority: u8)
        requires
            old(self).wf(),
            1 <= irq_num < IRQ_MAX,
        ensures
            final(self).wf(),
            final(self).priority@ == old(self).priority@.update(irq_num as int, priority as u32),
            *final(self) == (PLICInner { priority: final(self).priority, ..*old(self) }),
    {
        self.priority.set(irq_num, priority as u32);
    }

    /// Write one context's threshold register.
    pub fn set_threshold(&mut self, context_id: usize, threshold: u8)
        requires
            old(self).wf(),
            context_id < old(self).n_contexts,
        ensures
            final(self).wf(),
            final(self).threshold@ == old(self).threshold@.update(
                context_id as int,
                threshold as u32,
            ),
            *final(self) == (PLICInner { threshold: final(self).threshold, ..*old(self) }),
    {
        self.threshold.set(context_id, threshold as u32);
    }

    /// The construction-time sweep: disable every line in every context up
    /// to `context_max_id` and zero every threshold.
    pub fn init(&mut self, context_max_id: usize)
        requires
            old(self).wf(),
            context_max_id < old(self).n_contexts,
        ensures
            final(self).wf(),
            forall|c: int, i: int|
                0 <= c <= context_max_id && 0 <= i < IRQ_MAX ==> !final(self).enable_bit(c, i),
            forall|c: int| 0 <= c <= context_max_id ==> final(self).threshold@[c] == 0u32,
            final(self).n_contexts == old(self).n_contexts,
            final(self).priority == old(self).priority,
            final(self).pending == old(self).pending,
            final(self).claimed == old(self).claimed,
            final(self).irq_manager == old(self).irq_manager,
    {
        let mut c: usize = 0;
        while c <= context_max_id
            invariant
                c <= context_max_id + 1,
                context_max_id < self.n_contexts,
                self.wf(),
                forall|cc: int, i: int|
                    0 <= cc < c && 0 <= i < IRQ_MAX ==> !self.enable_bit(cc, i),
                forall|cc: int| 0 <= cc < c ==> self.threshold@[cc] == 0u32,
                self.n_contexts == old(self).n_contexts,
                self.priority == old(self).priority,
                self.pending == old(self).pending,
                self.claimed == old(self).claimed,
                self.irq_manager == old(self).irq_manager,
            decreases context_max_id + 1 - c,
        {
            let ghost pre_iter = *self;
            self.disable_all(c);
            let ghost mid = *self;
            self.set_threshold(c, 0);
            proof {
                assert forall|cc: int, i: int|
                    0 <= cc < c + 1 && 0 <= i < IRQ_MAX implies !self.enable_bit(cc, i) by {
                    assert(self.enable == mid.enable);
                    if cc == c {
                        assert(!mid.enable_bit(cc, i));
                    } else {
                        assert(mid.enable_bit(cc, i) == pre_iter.enable_bit(cc, i));
                        assert(!pre_iter.enable_bit(cc, i));
                    }
                }
            }
            c = c + 1;
        }
    }

    /// The claim-register read for one context: the pending line with the
    /// highest priority above the context's threshold among those enabled
    /// there, the lowest line number winning ties. Claiming latches the line
    /// in service and clears its pending bit; if nothing is deliverable the
    /// read returns nothing and moves nothing.
    pub fn get_current_cpu_claim(&mut self, context_id: usize) -> (r: Option<usize>)
        requires
            old(self).wf(),
            context_id < old(self).n_contexts,
        ensures
            final(self).wf(),
            match r {
                Some(irq) => {
                    &&& old(self).deliverable(context_id as int, irq as int)
                    &&& forall|j: int|
                        old(self).deliverable(context_id as int, j) ==> old(self).priority@[
                        irq as int] > old(self).priority@[j] || (old(self).priority@[irq as int]
                            == old(self).priority@[j] && irq <= j)
                    &&& final(self).pending@ == old(self).pending@.update(irq as int, false)
                    &&& final(self).claimed@ == old(self).claimed@.update(
                        context_id as int,
                        Some(irq),
                    )
                    &&& *final(self) == (PLICInner {
                        pending: final(self).pending,
                        claimed: final(self).claimed,
                        ..*old(self)
                    })
                },
                None => {
                    &&& forall|j: int| !old(self).deliverable(context_id as int, j)
                    &&& *final(self) == *old(self)
                },
            },
    {
        let threshold = self.threshold[context_id];
        let mut best: Option<usize> = None;
        let mut irq: usize = 1;
        while irq < IRQ_MAX
            invariant
                1 <= irq <= IRQ_MAX,
                self.wf(),
                context_id < self.n_contexts,
                threshold == self.threshold@[context_id as int],
                match best {
                    Some(b) => {
                        &&& self.deliverable(context_id as int, b as int)
                        &&& b < irq
                        &&& forall|j: int|
                            1 <= j < irq && self.deliverable(context_id as int, j)
                                ==> self.priority@[b as int] > self.priority@[j] || (self.priority@[
                            b as int] == self.priority@[j] && b <= j)
                    },
                    None => {
                        forall|j: int| 1 <= j < irq ==> !self.deliverable(context_id as int, j)
                    },
                },
            decreases IRQ_MAX - irq,
        {
            if self.pending[irq] {
                let n_words = self.enable.len();
                proof {
                    lemma_word_index_bounds(context_id as int, irq as int, self.n_contexts as int);
                }
                let word_idx = context_id * ENABLE_WORDS_PER_CONTEXT + irq / 32;
                let word = self.enable[word_idx];
                let bit: u32 = (irq % 32) as u32;
                if (word >> bit) & 1u32 == 1u32 {
                    let pri = self.priority[irq];
                    if pri > threshold {
                        match best {
                            Some(b) => {
                                let best_pri = self.priority[b];
                                if pri > best_pri {
                                    best = Some(irq);
                                }
                            },
                            None => {
                                best = Some(irq);
                            },
                        }
                    }
                }
            }
            irq = irq + 1;
        }
        match best {
            Some(irq_num) => {
                self.pending.set(irq_num, false);
                self.claimed.set(context_id, Some(irq_num));
                Some(irq_num)
            },
            None => None,
        }
    }

    /// The completion write: software hands the claimed line number back,
    /// ending its in-service state. A write that does not match the line in
    /// service is ignored, as the hardware ignores stray completions.
    pub fn end_of_interrupt(&mut self, irq_num: usize, context_id: usize)
        requires
            old(self).wf(),
            context_id < old(self).n_contexts,
            1 <= irq_num < IRQ_MAX,
        ensures
            final(self).wf(),
            old(self).claimed@[context_id as int] == Some(irq_num) ==> final(self).claimed@ == old(
                self,
            ).claimed@.update(context_id as int, None::<usize>),
            old(self).claimed@[context_id as int] != Some(irq_num) ==> final(self).claimed@ == old(
                self,
            ).claimed@,
            *final(self) == (PLICInner { claimed: final(self).claimed, ..*old(self) }),
    {
        match self.claimed[context_id] {
            Some(cur) => {
                if cur == irq_num {
                    self.claimed.set(context_id, None);
                }
            },
            None => {},
        }
    }
}

/// Bounds of the enable-bitmap word index of `(ctx, irq)`.
pub proof fn lemma_word_index_bounds(c: int, i: int, n_contexts: int)
    requires
        0 <= c < n_contexts,
        0 <= i < IRQ_MAX,
    ensures
        0 <= c * 32 + i / 32 < n_contexts * 32,
        0 <= i % 32 < 32,
{
    assert(0 <= c * 32 + i / 32 < n_contexts * 32) by (nonlinear_arith)
        requires
            0 <= c < n_contexts,
            0 <= i / 32 < 32,
    ;
}

/// Two (context, line) pairs share an enable word only if they share the
/// context and the line's word; distinct lines in one word differ in the bit
/// position.
pub proof fn lemma_word_index_same(c: int, i: int, ctx: int, irq: int)
    requires
        0 <= c,
        0 <= ctx,
        0 <= i < IRQ_MAX,
        0 <= irq < IRQ_MAX,
        c * 32 + i / 32 == ctx * 32 + irq / 32,
        !(c == ctx && i == irq),
    ensures
        c == ctx,
        i / 32 == irq / 32,
        i % 32 != irq % 32,
{
    assert(c == ctx && i / 32 == irq / 32) by (nonlinear_arith)
        requires
            0 <= c,
            0 <= ctx,
            0 <= i / 32 < 32,
            0 <= irq / 32 < 32,
            c * 32 + i / 32 == ctx * 32 + irq / 32,
    ;
    if i % 32 == irq % 32 {
        assert(i == 32 * (i / 32) + i % 32);
        assert(irq == 32 * (irq / 32) + irq % 32);
    }
}

/// The PLIC context a hart's supervisor mode drives, as a specification.
pub open spec fn spec_context_id(chip: ChipKind, cpu_id: int) -> int {
    match chip {
        ChipKind::RiscvVirtio => 2 * cpu_id + 1,
        ChipKind::Sifive => 2 * cpu_id,
    }
}

/// A readout of the diagnostic registers the kernel logs at boot: for each
/// of the first five harts, the first enable word of its context and the
/// context's threshold.
pub struct PlicInfo {
    pub enables: Vec<u32>,
    pub thresholds: Vec<u32>,
}

/// One PLIC instance as the interrupt fabric sees it.
pub struct Plic {
    /// Physical base of the register region.
    pub base_addr: u64,
    /// The hart-to-context mapping the root `compatible` string selected.
    pub chip: ChipKind,
    pub inner: PLICInner,
}

impl Plic {
    pub open spec fn wf(self) -> bool {
        self.inner.wf()
    }

    /// Construct the controller over `context_max_id + 1` contexts. As the
    /// hardware requires, construction disables every line in every context
    /// and zeroes every threshold.
    pub fn new(base_addr: u64, context_max_id: usize, chip: ChipKind) -> (r: Self)
        requires
            context_max_id < 0x100_0000,
        ensures
            r.wf(),
            r.base_addr == base_addr,
            r.chip == chip,
            r.inner.n_contexts == context_max_id + 1,
            forall|c: int, i: int|
                0 <= c <= context_max_id && 0 <= i < IRQ_MAX ==> !r.inner.enable_bit(c, i),
            forall|c: int| 0 <= c <= context_max_id ==> r.inner.threshold@[c] == 0u32,
            forall|i: int| 0 <= i < IRQ_MAX ==> !r.inner.pending@[i],
            forall|c: int| 0 <= c <= context_max_id ==> r.inner.claimed@[c] is None,
            forall|i: int| #[trigger] r.inner.irq_manager.spec_bound(i) is None,
    {
        let n_contexts = context_max_id + 1;
        let mut inner = PLICInner {
            n_contexts,
            priority: repeat_value(IRQ_MAX, 0u32),
            enable: repeat_value(n_contexts * ENABLE_WORDS_PER_CONTEXT, 0u32),
            threshold: repeat_value(n_contexts, 0u32),
            pending: repeat_value(IRQ_MAX, false),
            claimed: repeat_value(n_contexts, None),
            irq_manager: IrqManager::new(1, IRQ_MAX),
        };
        inner.init(context_max_id);
        Plic { base_addr, chip, inner }
    }

    /// The hardware side of an external line: a device raises it and the
    /// PLIC latches it pending.
    pub fn set_pending(&mut self, irq_num: usize)
        requires
            old(self).wf(),
            1 <= irq_num < IRQ_MAX,
        ensures
            final(self).wf(),
            final(self).inner.pending@ == old(self).inner.pending@.update(irq_num as int, true),
            final(self).chip == old(self).chip,
            final(self).base_addr == old(self).base_addr,
            *final(self) == (Plic {
                inner: (PLICInner { pending: final(self).inner.pending, ..old(self).inner }),
                ..*old(self)
            }),
    {
        self.inner.pending.set(irq_num, true);
    }

    /// Enable a line for a hart: resolve the hart to its context, set the
    /// enable bit by read-modify-write, and re-arm the context's threshold
    /// at zero. Fails without touching anything if the hart is invalid for
    /// the chipset, the context is outside this controller, or the line
    /// number is out of range.
    pub fn enable(&mut self, cpu_id: usize, irq_num: usize) -> (r: Result<(), InternalError>)
        requires
            old(self).wf(),
            cpu_id < 0x1000_0000,
        ensures
            final(self).wf(),
            final(self).chip == old(self).chip,
            final(self).base_addr == old(self).base_addr,
            match r {
                Ok(()) => {
                    let ctx = spec_context_id(old(self).chip, cpu_id as int);
                    &&& !(old(self).chip is Sifive && cpu_id == 0)
                    &&& 0 <= ctx < old(self).inner.n_contexts
                    &&& 1 <= irq_num < IRQ_MAX
                    &&& final(self).inner.enable_bit(ctx, irq_num as int)
                    &&& forall|c: int, i: int|
                        0 <= c < old(self).inner.n_contexts && 0 <= i < IRQ_MAX && !(c == ctx && i
                            == irq_num) ==> final(self).inner.enable_bit(c, i) == old(
                            self,
                        ).inner.enable_bit(c, i)
                    &&& final(self).inner.threshold@ == old(self).inner.threshold@.update(ctx, 0u32)
                    &&& final(self).inner.n_contexts == old(self).inner.n_contexts
                    &&& final(self).inner.priority == old(self).inner.priority
                    &&& final(self).inner.pending == old(self).inner.pending
                    &&& final(self).inner.claimed == old(self).inner.claimed
                    &&& final(self).inner.irq_manager == old(self).inner.irq_manager
                },
                Err(e) => {
                    let ctx = spec_context_id(old(self).chip, cpu_id as int);
                    &&& *final(self) == *old(self)
                    &&& (e == InternalError::InvalidCpuId || e == InternalError::InvalidParam)
                    &&& (e == InternalError::InvalidCpuId <==> (old(self).chip is Sifive && cpu_id
                        == 0))
                    &&& (e == InternalError::InvalidParam <==> (!(old(self).chip is Sifive && cpu_id
                        == 0) && (ctx >= old(self).inner.n_contexts || !(1 <= irq_num < IRQ_MAX))))
                },
            },
    {
        let ctx = match get_context_id(self.chip, cpu_id) {
            Ok(c) => c,
            Err(e) => {
                return Err(e);
            },
        };
        if ctx >= self.inner.n_contexts || !(1 <= irq_num && irq_num < IRQ_MAX) {
            return Err(InternalError::InvalidParam);
        }
        self.inner.enable(ctx, irq_num);
        self.inner.set_threshold(ctx, 0);
        Ok(())
    }

    /// Disable a line for a hart: the complementary read-modify-write. The
    /// same failures as `enable`, and no other state is touched.
    pub fn disable(&mut self, cpu_id: usize, irq_num: usize) -> (r: Result<(), InternalError>)
        requires
            old(self).wf(),
            cpu_id < 0x1000_0000,
        ensures
            final(self).wf(),
            final(self).chip == old(self).chip,
            final(self).base_addr == old(self).base_addr,
            match r {
                Ok(()) => {
                    let ctx = spec_context_id(old(self).chip, cpu_id as int);
                    &&& !(old(self).chip is Sifive && cpu_id == 0)
                    &&& 0 <= ctx < old(self).inner.n_contexts
                    &&& 1 <= irq_num < IRQ_MAX
                    &&& !final(self).inner.enable_bit(ctx, irq_num as int)
                    &&& forall|c: int, i: int|
                        0 <= c < old(self).inner.n_contexts && 0 <= i < IRQ_MAX && !(c == ctx && i
                            == irq_num) ==> final(self).inner.enable_bit(c, i) == old(
                            self,
                        ).inner.enable_bit(c, i)
                    &&& PLICInner::same_but_enable(old(self).inner, final(self).inner)
                },
                Err(e) => {
                    let ctx = spec_context_id(old(self).chip, cpu_id as int);
                    &&& *final(self) == *old(self)
                    &&& (e == InternalError::InvalidCpuId || e == InternalError::InvalidParam)
                    &&& (e == InternalError::InvalidCpuId <==> (old(self).chip is Sifive && cpu_id
                        == 0))
                    &&& (e == InternalError::InvalidParam <==> (!(old(self).chip is Sifive && cpu_id
                        == 0) && (ctx >= old(self).inner.n_contexts || !(1 <= irq_num < IRQ_MAX))))
                },
            },
    {
        let ctx = match get_context_id(self.chip, cpu_id) {
            Ok(c) => c,
            Err(e) => {
                return Err(e);
            },
        };
        if ctx >= self.inner.n_contexts || !(1 <= irq_num && irq_num < IRQ_MAX) {
            return Err(InternalError::InvalidParam);
        }
        self.inner.disable(ctx, irq_num);
        Ok(())
    }

    /// Bind a driver to a line and raise the line's priority to 7, without
    /// which the PLIC would never deliver it. Fails for a line outside
    /// `1..IRQ_MAX`.
    pub fn register_device(&mut self, irq_num: usize, dev: usize) -> (r: Result<
        (),
        InternalError,
    >)
        requires
            old(self).wf(),
        ensures
            final(self).wf(),
            final(self).chip == old(self).chip,
            final(self).base_addr == old(self).base_addr,
            match r {
                Ok(()) => {
                    &&& 1 <= irq_num < IRQ_MAX
                    &&& final(self).inner.irq_manager.spec_bound(irq_num as int) == Some(dev)
                    &&& forall|i: int|
                        i != irq_num ==> final(self).inner.irq_manager.spec_bound(i) == old(
                            self,
                        ).inner.irq_manager.spec_bound(i)
                    &&& final(self).inner.priority@ == old(self).inner.priority@.update(
                        irq_num as int,
                        7u32,
                    )
                    &&& final(self).inner.n_contexts == old(self).inner.n_contexts
                    &&& final(self).inner.enable == old(self).inner.enable
                    &&& final(self).inner.threshold == old(self).inner.threshold
                    &&& final(self).inner.pending == old(self).inner.pending
                    &&& final(self).inner.claimed == old(self).inner.claimed
                },
                Err(e) => {
                    &&& *final(self) == *old(self)
                    &&& e == InternalError::InvalidParam
                    &&& !(1 <= irq_num < IRQ_MAX)
                },
            },
    {
        if !(1 <= irq_num && irq_num < IRQ_MAX) {
            return Err(InternalError::InvalidParam);
        }
        self.inner.irq_manager.register_device(irq_num, dev);
        self.inner.set_priority(irq_num, 7);
        Ok(())
    }

    /// The diagnostic readout the kernel logs: the first enable word and
    /// the threshold of each of the first five harts' contexts.
    pub fn info(&self) -> (r: PlicInfo)
        requires
            self.wf(),
            self.chip is RiscvVirtio,
            2 * (crate::CPU_COUNT - 1) + 1 < self.inner.n_contexts,
        ensures
            r.enables@.len() == crate::CPU_COUNT,
            r.thresholds@.len() == crate::CPU_COUNT,
            forall|c: int|
                0 <= c < crate::CPU_COUNT ==> #[trigger] r.enables@[c] == self.inner.enable@[
                spec_context_id(self.chip, c) * 32],
            forall|c: int|
                0 <= c < crate::CPU_COUNT ==> #[trigger] r.thresholds@[c]
                    == self.inner.threshold@[spec_context_id(self.chip, c)],
    {
        let mut enables: Vec<u32> = Vec::new();
        let mut thresholds: Vec<u32> = Vec::new();
        let mut cpu: usize = 0;
        while cpu < crate::CPU_COUNT
            invariant
                cpu <= crate::CPU_COUNT,
                self.wf(),
                self.chip is RiscvVirtio,
                2 * (crate::CPU_COUNT - 1) + 1 < self.inner.n_contexts,
                enables@.len() == cpu,
                thresholds@.len() == cpu,
                forall|c: int|
                    0 <= c < cpu ==> #[trigger] enables@[c] == self.inner.enable@[spec_context_id(
                        self.chip,
                        c,
                    ) * 32],
                forall|c: int|
                    0 <= c < cpu ==> #[trigger] thresholds@[c] == self.inner.threshold@[
                    spec_context_id(self.chip, c)],
            decreases crate::CPU_COUNT - cpu,
        {
            let ctx = cpu * 2 + 1;
            proof {
                assert(ctx * 32 < self.inner.n_contexts * 32) by (nonlinear_arith)
                    requires
                        ctx < self.inner.n_contexts,
                ;
            }
            enables.push(self.inner.enable[ctx * ENABLE_WORDS_PER_CONTEXT]);
            thresholds.push(self.inner.threshold[ctx]);
            cpu = cpu + 1;
        }
        PlicInfo { enables, thresholds }
    }

    /// The external-interrupt service routine for one hart: read the claim
    /// register; if it names a line, count the claim, dispatch the bound
    /// driver through the IRQ manager, and only after the handler has
    /// returned write the completion; a claim of zero is logged and
    /// ignored. The result is the driver-reported start time, zero when no
    /// line or no driver was dispatched.
    pub fn handle_irq(
        &mut self,
        cpu_id: usize,
        devices: &mut Vec<DeviceDriver>,
        irq_counts: &mut IrqCounts,
        now: u64,
    ) -> (start: u64)
        requires
            old(self).wf(),
            old(irq_counts).wf(),
            cpu_id < 0x1000_0000,
            !(old(self).chip is Sifive && cpu_id == 0),
            0 <= spec_context_id(old(self).chip, cpu_id as int) < old(self).inner.n_contexts,
            old(self).inner.irq_manager.bounds_devices(old(devices)@.len() as int),
        ensures
            final(self).wf(),
            final(irq_counts).wf(),
            final(self).chip == old(self).chip,
            final(self).base_addr == old(self).base_addr,
            final(devices)@.len() == old(devices)@.len(),
            ({
                let ctx = spec_context_id(old(self).chip, cpu_id as int);
                if exists|j: int| old(self).inner.deliverable(ctx, j) {
                    exists|irq: int|
                        {
                            &&& #[trigger] old(self).inner.deliverable(ctx, irq)
                            &&& forall|j: int|
                                old(self).inner.deliverable(ctx, j) ==> old(self).inner.priority@[
                                irq] > old(self).inner.priority@[j] || (old(self).inner.priority@[
                                irq] == old(self).inner.priority@[j] && irq <= j)
                            &&& final(self).inner.pending@ == old(self).inner.pending@.update(
                                irq,
                                false,
                            )
                            &&& final(self).inner.claimed@ == old(self).inner.claimed@.update(
                                ctx,
                                None::<usize>,
                            )
                            &&& final(self).inner.enable == old(self).inner.enable
                            &&& final(self).inner.priority == old(self).inner.priority
                            &&& final(self).inner.threshold == old(self).inner.threshold
                            &&& final(self).inner.irq_manager == old(self).inner.irq_manager
                            &&& final(self).inner.n_contexts == old(self).inner.n_contexts
                            &&& final(irq_counts).counts@ == old(irq_counts).counts@.update(
                                irq,
                                spec_wrap_inc(old(irq_counts).counts@[irq]),
                            )
                            &&& match old(self).inner.irq_manager.spec_bound(irq) {
                                Some(d) => {
                                    &&& DeviceDriver::spec_handle_irq(
                                        old(devices)@[d as int],
                                        final(devices)@[d as int],
                                    )
                                    &&& forall|i: int|
                                        0 <= i < old(devices)@.len() && i != d ==> final(devices)@[i] == old(devices)@[i]
                                    &&& start == now
                                },
                                None => {
                                    &&& final(devices)@ == old(devices)@
                                    &&& start == 0
                                },
                            }
                        }
                } else {
                    &&& *final(self) == *old(self)
                    &&& final(devices)@ == old(devices)@
                    &&& *final(irq_counts) == *old(irq_counts)
                    &&& start == 0
                }
            }),
    {
        let ctx = match get_context_id(self.chip, cpu_id) {
            Ok(c) => c,
            Err(_) => {
                return 0;
            },
        };
        match self.inner.get_current_cpu_claim(ctx) {
            Some(irq_num) => {
                irq_counts.inc(irq_num);
                let start = self.inner.irq_manager.handle_irq(irq_num, devices, now);
                self.inner.end_of_interrupt(irq_num, ctx);
                start
            },
            None => {
                // The hardware had nothing deliverable: logged as a stray
                // claim of zero and ignored.
                0
            },
        }
    }
}

/// The enable path is read-modify-write: after enabling line `a` and then
/// line `b` for one context, both lines are enabled there and every other
/// enable bit of the whole bitmap — any context, any line — reads as it
/// did at the start; a subsequent disable of `a` clears exactly `a`.
pub proof fn lemma_enable_rmw(
    s0: PLICInner,
    s1: PLICInner,
    s2: PLICInner,
    s3: PLICInner,
    ctx: int,
    a: int,
    b: int,
)
    requires
        0 <= ctx,
        1 <= a < IRQ_MAX,
        1 <= b < IRQ_MAX,
        a != b,
        s0.n_contexts == s1.n_contexts == s2.n_contexts == s3.n_contexts,
        ctx < s0.n_contexts,
        // s0 -> s1: enable(ctx, a)
        s1.enable_bit(ctx, a),
        forall|c: int, i: int|
            0 <= c < s0.n_contexts && 0 <= i < IRQ_MAX && !(c == ctx && i == a)
                ==> s1.enable_bit(c, i) == s0.enable_bit(c, i),
        // s1 -> s2: enable(ctx, b)
        s2.enable_bit(ctx, b),
        forall|c: int, i: int|
            0 <= c < s0.n_contexts && 0 <= i < IRQ_MAX && !(c == ctx && i == b)
                ==> s2.enable_bit(c, i) == s1.enable_bit(c, i),
        // s2 -> s3: disable(ctx, a)
        !s3.enable_bit(ctx, a),
        forall|c: int, i: int|
            0 <= c < s0.n_contexts && 0 <= i < IRQ_MAX && !(c == ctx && i == a)
                ==> s3.enable_bit(c, i) == s2.enable_bit(c, i),
    ensures
        s2.enable_bit(ctx, a),
        s2.enable_bit(ctx, b),
        forall|c: int, i: int|
            0 <= c < s0.n_contexts && 0 <= i < IRQ_MAX && !(c == ctx && (i == a || i == b))
                ==> s2.enable_bit(c, i) == s0.enable_bit(c, i),
        s3.enable_bit(ctx, b),
        forall|c: int, i: int|
            0 <= c < s0.n_contexts && 0 <= i < IRQ_MAX && !(c == ctx && (i == a || i == b))
                ==> s3.enable_bit(c, i) == s0.enable_bit(c, i),
{
}

} // verus!
