//! Per-IRQ interrupt accounting and the selection helpers of the
//! cross-hart dispatch policies.

use vstd::prelude::*;

use crate::error::InternalError;
use crate::platform::{IRQ_NET, IRQ_UART};
use crate::plic::{spec_context_id, Plic};
use crate::util::repeat_value;
use crate::{CPU_COUNT, IRQ_MAX};

verus! {

/// What an `i32` counter holds after one more event.
pub open spec fn spec_wrap_inc(c: i32) -> i32 {
    if c == i32::MAX {
        i32::MIN
    } else {
        (c + 1) as i32
    }
}

/// One counter per external IRQ line, incremented on every claim of the
/// line.
pub struct IrqCounts {
    pub counts: Vec<i32>,
}

impl IrqCounts {
    pub open spec fn wf(self) -> bool {
        self.counts@.len() == IRQ_MAX
    }

    /// All counters start at zero.
    pub fn new() -> (r: Self)
        ensures
            r.wf(),
            forall|i: int| 0 <= i < IRQ_MAX ==> r.counts@[i] == 0i32,
    {
        IrqCounts { counts: repeat_value(IRQ_MAX, 0i32) }
    }

    /// The counter of one line.
    pub fn get(&self, irq_num: usize) -> (r: i32)
        requires
            self.wf(),
            irq_num < IRQ_MAX,
        ensures
            r == self.counts@[irq_num as int],
    {
        self.counts[irq_num]
    }

    /// Reset one line's counter.
    pub fn set(&mut self, irq_num: usize, value: i32)
        requires
            old(self).wf(),
            irq_num < IRQ_MAX,
        ensures
            final(self).wf(),
            final(self).counts@ == old(self).counts@.update(irq_num as int, value),
    {
        self.counts.set(irq_num, value);
    }

    /// Count one more event on a line, wrapping at the type's end.
    pub fn inc(&mut self, irq_num: usize)
        requires
            old(self).wf(),
            irq_num < IRQ_MAX,
        ensures
            final(self).wf(),
            final(self).counts@ == old(self).counts@.update(
                irq_num as int,
                spec_wrap_inc(old(self).counts@[irq_num as int]),
            ),
    {
        let c = self.counts[irq_num];
        let next: i32 = if c == i32::MAX {
            i32::MIN
        } else {
            c + 1
        };
        self.counts.set(irq_num, next);
    }
}

/// Clear the two policy-managed lines on every hart's context, leaving
/// every other enable bit and every other register untouched.
pub(crate) fn disable_policy_lines(plic: &mut Plic) -> (r: Result<(), InternalError>)
    requires
        old(plic).wf(),
        old(plic).chip is RiscvVirtio,
        old(plic).inner.n_contexts > 2 * (CPU_COUNT - 1) + 1,
    ensures
        final(plic).wf(),
        r is Ok,
        final(plic).chip == old(plic).chip,
        final(plic).base_addr == old(plic).base_addr,
        forall|c: int|
            0 <= c < CPU_COUNT ==> !final(plic).inner.enable_bit(
                spec_context_id(old(plic).chip, c),
                IRQ_NET as int,
            ) && !final(plic).inner.enable_bit(spec_context_id(old(plic).chip, c), IRQ_UART as int),
        forall|ct: int, i: int|
            0 <= ct < old(plic).inner.n_contexts && 0 <= i < IRQ_MAX && !((i == IRQ_NET || i
                == IRQ_UART) && (exists|c: int|
                0 <= c < CPU_COUNT && ct == spec_context_id(old(plic).chip, c))) ==> final(plic).inner.enable_bit(ct, i) == old(plic).inner.enable_bit(ct, i),
        crate::plic::PLICInner::same_but_enable(old(plic).inner, final(plic).inner),
{
    let ghost orig = *plic;
    let mut c: usize = 0;
    while c < CPU_COUNT
        invariant
            plic.wf(),
            plic.chip == orig.chip,
            plic.base_addr == orig.base_addr,
            orig.wf(),
            orig.chip is RiscvVirtio,
            orig.inner.n_contexts > 2 * (CPU_COUNT - 1) + 1,
            c <= CPU_COUNT,
            forall|k: int|
                0 <= k < c ==> !plic.inner.enable_bit(spec_context_id(orig.chip, k), IRQ_NET as int)
                    && !plic.inner.enable_bit(spec_context_id(orig.chip, k), IRQ_UART as int),
            forall|ct: int, i: int|
                0 <= ct < orig.inner.n_contexts && 0 <= i < IRQ_MAX && !((i == IRQ_NET || i
                    == IRQ_UART) && (exists|k: int|
                    0 <= k < c && ct == spec_context_id(orig.chip, k))) ==> plic.inner.enable_bit(
                    ct,
                    i,
                ) == orig.inner.enable_bit(ct, i),
            crate::plic::PLICInner::same_but_enable(orig.inner, plic.inner),
        decreases CPU_COUNT - c,
    {
        let r1 = plic.disable(c, IRQ_UART);
        match r1 {
            Ok(()) => {},
            Err(_) => {
                proof {
                    assert(false);
                }
                return Err(InternalError::InvalidParam);
            },
        }
        let r2 = plic.disable(c, IRQ_NET);
        match r2 {
            Ok(()) => {},
            Err(_) => {
                proof {
                    assert(false);
                }
                return Err(InternalError::InvalidParam);
            },
        }
        c = c + 1;
    }
    Ok(())
}

/// Whether `i` holds the smallest value of `s`, earliest among equals.
pub open spec fn is_min_index(s: Seq<u32>, i: int) -> bool {
    &&& 0 <= i < s.len()
    &&& forall|j: int| 0 <= j < s.len() ==> s[i] <= (#[trigger] s[j])
    &&& forall|j: int| 0 <= j < i ==> (#[trigger] s[j]) > s[i]
}

/// Whether `i` holds the smallest value of `s` once index `x` is left out,
/// earliest among equals.
pub open spec fn is_min_index_except(s: Seq<u32>, x: int, i: int) -> bool {
    &&& 0 <= i < s.len()
    &&& i != x
    &&& forall|j: int| 0 <= j < s.len() && j != x ==> s[i] <= (#[trigger] s[j])
    &&& forall|j: int| 0 <= j < i && j != x ==> (#[trigger] s[j]) > s[i]
}

/// Index of the smallest element, the lowest index winning ties.
pub(crate) fn argmin(values: &Vec<u32>) -> (r: usize)
    requires
        values@.len() > 0,
    ensures
        is_min_index(values@, r as int),
{
    let mut best: usize = 0;
    let mut k: usize = 1;
    while k < values.len()
        invariant
            1 <= k <= values@.len(),
            best < k,
            forall|j: int| 0 <= j < k ==> values@[best as int] <= (#[trigger] values@[j]),
            forall|j: int| 0 <= j < best ==> (#[trigger] values@[j]) > values@[best as int],
        decreases values@.len() - k,
    {
        if values[k] < values[best] {
            best = k;
        }
        k = k + 1;
    }
    best
}

/// Index of the smallest element with one index excluded, the lowest index
/// winning ties.
pub(crate) fn argmin_except(values: &Vec<u32>, x: usize) -> (r: usize)
    requires
        values@.len() >= 2,
        x < values@.len(),
    ensures
        is_min_index_except(values@, x as int, r as int),
{
    let mut best: usize = if x == 0 {
        1
    } else {
        0
    };
    let mut k: usize = 0;
    while k < values.len()
        invariant
            k <= values@.len(),
            best < values@.len(),
            best != x,
            best < k || (k <= best && (best == if x == 0 {
                1int
            } else {
                0int
            })),
            forall|j: int|
                0 <= j < k && j != x ==> values@[best as int] <= (#[trigger] values@[j]),
            forall|j: int|
                0 <= j < best && j != x && j < k ==> (#[trigger] values@[j]) > values@[best as int],
        decreases values@.len() - k,
    {
        if k != x && k != best {
            if values[k] < values[best] || (values[k] == values[best] && k < best) {
                best = k;
            }
        }
        k = k + 1;
    }
    best
}


} // verus!
