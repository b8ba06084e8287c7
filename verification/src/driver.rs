//! Drivers and the dispatch table's view of them.
//!
//! The kernel dispatches interrupts to drivers through a capability: any
//! driver can be asked to handle an IRQ. Distinct driver instances are
//! independently dispatchable, so the table holds them as values of a tagged
//! type, one variant per driver kind the core knows.

use vstd::prelude::*;

use crate::uart::NS16550a;

verus! {

/// What any driver offers the interrupt fabric.
pub trait Driver {
    fn name(&self) -> &str;
}

/// A driver instance owned by the interrupt dispatch table.
pub enum DeviceDriver {
    /// The NS16550 UART driver.
    Uart(NS16550a),
}

impl DeviceDriver {
    /// How one run of a driver's interrupt handler changes it: the UART
    /// drains its receive FIFO into its buffer, once, and touches nothing
    /// else.
    pub open spec fn spec_handle_irq(pre: Self, post: Self) -> bool {
        match pre {
            DeviceDriver::Uart(u0) => {
                &&& post matches DeviceDriver::Uart(u1)
                &&& u1.buffer@ == u0.buffer@ + u0.input_fifo@
                &&& u1.input_fifo@ == Seq::<u8>::empty()
                &&& u1.output == u0.output
                &&& u1.base_addr == u0.base_addr
                &&& u1.interrupt_enable == u0.interrupt_enable
                &&& u1.fifo_control == u0.fifo_control
                &&& u1.modem_control == u0.modem_control
            },
        }
    }

    /// Run the driver's interrupt handler once. `now` is the monotonic time
    /// at which handling starts; the driver reports it back so that the
    /// caller can account interrupt latency.
    pub fn handle_irq(&mut self, irq_num: usize, now: u64) -> (start: u64)
        ensures
            Self::spec_handle_irq(*old(self), *final(self)),
            start == now,
    {
        match self {
            DeviceDriver::Uart(u) => u.handle_irq(),
        }
        now
    }
}

impl Driver for DeviceDriver {
    fn name(&self) -> &str {
        match self {
            DeviceDriver::Uart(_) => "ns16550a",
        }
    }
}

} // verus!
