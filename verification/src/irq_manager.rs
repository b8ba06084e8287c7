//! The IRQ manager: a partial function from IRQ number to bound driver.
//!
//! The domain is restricted to `range_start..range_end` with IRQ 0 always
//! unbound. Drivers themselves are owned by a device table; the manager
//! stores the index of the bound driver for each line.

use vstd::prelude::*;

use crate::driver::DeviceDriver;

verus! {

/// A range-checked table binding IRQ numbers to drivers.
pub struct IrqManager {
    /// First valid IRQ number (at least 1: IRQ 0 is never bound).
    pub range_start: usize,
    /// One past the last valid IRQ number.
    pub range_end: usize,
    /// For each IRQ number below `range_end`, the index of the bound driver
    /// in the device table, if any.
    pub table: Vec<Option<usize>>,
}

impl IrqManager {
    /// Structural soundness: the table covers the range and binds nothing
    /// below `range_start` (in particular, IRQ 0 is never bound).
    pub open spec fn wf(self) -> bool {
        &&& 1 <= self.range_start
        &&& self.range_start <= self.range_end
        &&& self.table@.len() == self.range_end
        &&& forall|i: int|
            0 <= i < self.range_start ==> self.table@[i] is None
    }

    /// Every bound driver index points into a device table of length `n`.
    pub open spec fn bounds_devices(self, n: int) -> bool {
        forall|i: int|
            0 <= i < self.table@.len() ==> (#[trigger] self.table@[i] matches Some(d) ==> d < n)
    }

    /// The driver bound to `irq`, if the line is in range and bound.
    pub open spec fn spec_bound(self, irq: int) -> Option<usize> {
        if self.range_start <= irq < self.range_end {
            self.table@[irq]
        } else {
            None
        }
    }

    /// An empty table over the given IRQ range.
    pub fn new(range_start: usize, range_end: usize) -> (r: Self)
        requires
            1 <= range_start <= range_end,
        ensures
            r.wf(),
            r.range_start == range_start,
            r.range_end == range_end,
            forall|i: int| #[trigger] r.spec_bound(i) is None,
    {
        let mut table: Vec<Option<usize>> = Vec::new();
        let mut i: usize = 0;
        while i < range_end
            invariant
                i <= range_end,
                table@.len() == i,
                forall|j: int| 0 <= j < i ==> table@[j] is None,
            decreases range_end - i,
        {
            table.push(None);
            i = i + 1;
        }
        IrqManager { range_start, range_end, table }
    }

    /// Bind a driver to a line. A no-op unless the line is in range (IRQ 0
    /// never binds); an existing binding is overwritten.
    pub fn register_device(&mut self, irq_num: usize, dev: usize)
        requires
            old(self).wf(),
        ensures
            final(self).wf(),
            final(self).range_start == old(self).range_start,
            final(self).range_end == old(self).range_end,
            old(self).range_start <= irq_num < old(self).range_end ==> final(self).table@ == old(
                self,
            ).table@.update(irq_num as int, Some(dev)),
            !(old(self).range_start <= irq_num < old(self).range_end) ==> final(self).table@ == old(
                self,
            ).table@,
            final(self).spec_bound(irq_num as int) == if old(self).range_start <= irq_num < old(
                self,
            ).range_end {
                Some(dev)
            } else {
                old(self).spec_bound(irq_num as int)
            },
            forall|i: int|
                i != irq_num ==> final(self).spec_bound(i) == old(self).spec_bound(i),
    {
        if self.range_start <= irq_num && irq_num < self.range_end && irq_num != 0 {
            self.table.set(irq_num, Some(dev));
        }
    }

    /// Remove the binding of a line, if present.
    pub fn unregister_device(&mut self, irq_num: usize)
        requires
            old(self).wf(),
        ensures
            final(self).wf(),
            final(self).range_start == old(self).range_start,
            final(self).range_end == old(self).range_end,
            final(self).spec_bound(irq_num as int) is None,
            forall|i: int|
                i != irq_num ==> final(self).spec_bound(i) == old(self).spec_bound(i),
    {
        if self.range_start <= irq_num && irq_num < self.range_end && irq_num != 0 {
            self.table.set(irq_num, None);
        }
    }

    /// Dispatch one interrupt: if the line is in range and bound, run the
    /// bound driver's handler exactly once and return its start timestamp;
    /// otherwise change nothing and report a zero duration.
    pub fn handle_irq(&self, irq_num: usize, devices: &mut Vec<DeviceDriver>, now: u64) -> (start:
        u64)
        requires
            self.wf(),
            self.bounds_devices(old(devices)@.len() as int),
        ensures
            match self.spec_bound(irq_num as int) {
                Some(d) => {
                    &&& final(devices)@.len() == old(devices)@.len()
                    &&& DeviceDriver::spec_handle_irq(old(devices)@[d as int], final(devices)@[d as int])
                    &&& forall|i: int|
                        0 <= i < old(devices)@.len() && i != d ==> final(devices)@[i] == old(devices)@[i]
                    &&& start == now
                },
                None => {
                    &&& final(devices)@ == old(devices)@
                    &&& start == 0
                },
            },
    {
        let mut start: u64 = 0;
        if self.range_start <= irq_num && irq_num < self.range_end && irq_num != 0 {
            match self.table[irq_num] {
                Some(d) => {
                    let mut dev = devices.remove(d);
                    start = dev.handle_irq(irq_num, now);
                    devices.insert(d, dev);
                    proof {
                        assert(forall|i: int|
                            0 <= i < old(devices)@.len() && i != d ==> devices@[i] == old(devices)@[i]);
                    }
                },
                None => {
                    // An unbound line: logged and ignored.
                },
            }
        }
        start
    }
}

/// IRQ 0 is never bound: on a sound table, dispatching line 0 finds no
/// driver, so no driver's handler can run for it.
pub proof fn lemma_irq_zero_never_bound(m: IrqManager)
    requires
        m.wf(),
    ensures
        m.spec_bound(0) is None,
{
}

} // verus!
