//! Verified model of a small multi-hart RISC-V kernel core: the interrupt
//! delivery and dispatch pipeline and the cooperative multitask runtime that
//! it drives.
//!
//! Hardware effects (volatile loads and stores, CSR writes, the context
//! switch, wait-for-interrupt) live outside this crate; the library holds the
//! state of every device and scheduler component as plain data and proves how
//! each operation changes it.

use vstd::prelude::*;

pub mod addr;
pub mod devprober;
pub mod dispatch;
pub mod driver;
pub mod error;
pub mod executor;
pub mod intc;
pub mod inspector;
pub mod io;
pub mod irq_manager;
pub mod net;
pub mod paging;
pub mod phys_frame;
pub mod platform;
pub mod plic;
pub mod runtime;
pub mod timed_event;
pub mod uart;
pub mod util;
pub mod vmm;

verus! {

/// External interrupt lines live in `1..IRQ_MAX`; line 0 means "no interrupt".
pub const IRQ_MAX: usize = 1024;

/// Number of harts the dispatch policies balance across.
pub const CPU_COUNT: usize = 5;

} // verus!
