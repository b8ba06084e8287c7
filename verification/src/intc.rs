//! The hart-local interrupt controller: the supervisor interrupt-enable
//! bits of each hart.
//!
//! `enable` and `disable` set or clear exactly one of the three supervisor
//! enable bits — soft, timer, external — and reject any other code. The
//! re-dispatch of external interrupts to the PLIC lives on the platform,
//! which owns both controllers.

use vstd::prelude::*;

use crate::error::InternalError;
use crate::util::repeat_value;
use crate::CPU_COUNT;

verus! {

/// The interrupt cause codes the INTC accepts.
pub const CODE_SUPERVISOR_SOFT: usize = 1;

pub const CODE_SUPERVISOR_TIMER: usize = 5;

pub const CODE_SUPERVISOR_EXTERNAL: usize = 9;

/// One hart's supervisor interrupt-enable bits.
#[derive(Clone, Copy, Debug, PartialEq, Eq, Structural)]
pub struct SieBits {
    pub soft: bool,
    pub timer: bool,
    pub external: bool,
}

impl SieBits {
    pub open spec fn all_clear(self) -> bool {
        !self.soft && !self.timer && !self.external
    }

    /// The bits after setting or clearing the bit of one cause code.
    pub open spec fn spec_with(self, code: int, value: bool) -> SieBits {
        if code == CODE_SUPERVISOR_SOFT {
            SieBits { soft: value, ..self }
        } else if code == CODE_SUPERVISOR_TIMER {
            SieBits { timer: value, ..self }
        } else {
            SieBits { external: value, ..self }
        }
    }
}

/// Whether the INTC accepts the cause code at all.
pub open spec fn spec_known_code(code: int) -> bool {
    code == CODE_SUPERVISOR_SOFT || code == CODE_SUPERVISOR_TIMER || code
        == CODE_SUPERVISOR_EXTERNAL
}

/// The hart-local interrupt controller.
pub struct Intc {
    /// Per hart, the supervisor interrupt-enable bits.
    pub sie: Vec<SieBits>,
}

impl Intc {
    pub open spec fn wf(self) -> bool {
        self.sie@.len() == CPU_COUNT
    }

    /// All enable bits start clear.
    pub fn new() -> (r: Self)
        ensures
            r.wf(),
            forall|c: int| 0 <= c < CPU_COUNT ==> (#[trigger] r.sie@[c]).all_clear(),
    {
        Intc { sie: repeat_value(CPU_COUNT, SieBits { soft: false, timer: false, external: false }) }
    }

    /// Set exactly one supervisor enable bit of one hart; any other code
    /// fails with `DevWriteError` and changes nothing.
    pub fn enable(&mut self, cpu_id: usize, irq_num: usize) -> (r: Result<(), InternalError>)
        requires
            old(self).wf(),
            cpu_id < CPU_COUNT,
        ensures
            final(self).wf(),
            match r {
                Ok(()) => {
                    &&& spec_known_code(irq_num as int)
                    &&& final(self).sie@ == old(self).sie@.update(
                        cpu_id as int,
                        old(self).sie@[cpu_id as int].spec_with(irq_num as int, true),
                    )
                },
                Err(e) => {
                    &&& e == InternalError::DevWriteError
                    &&& !spec_known_code(irq_num as int)
                    &&& *final(self) == *old(self)
                },
            },
    {
        let bits = self.sie[cpu_id];
        if irq_num == CODE_SUPERVISOR_SOFT {
            self.sie.set(cpu_id, SieBits { soft: true, ..bits });
            Ok(())
        } else if irq_num == CODE_SUPERVISOR_TIMER {
            self.sie.set(cpu_id, SieBits { timer: true, ..bits });
            Ok(())
        } else if irq_num == CODE_SUPERVISOR_EXTERNAL {
            self.sie.set(cpu_id, SieBits { external: true, ..bits });
            Ok(())
        } else {
            Err(InternalError::DevWriteError)
        }
    }

    /// Clear exactly one supervisor enable bit of one hart; any other code
    /// fails with `DevWriteError` and changes nothing.
    pub fn disable(&mut self, cpu_id: usize, irq_num: usize) -> (r: Result<(), InternalError>)
        requires
            old(self).wf(),
            cpu_id < CPU_COUNT,
        ensures
            final(self).wf(),
            match r {
                Ok(()) => {
                    &&& spec_known_code(irq_num as int)
                    &&& final(self).sie@ == old(self).sie@.update(
                        cpu_id as int,
                        old(self).sie@[cpu_id as int].spec_with(irq_num as int, false),
                    )
                },
                Err(e) => {
                    &&& e == InternalError::DevWriteError
                    &&& !spec_known_code(irq_num as int)
                    &&& *final(self) == *old(self)
                },
            },
    {
        let bits = self.sie[cpu_id];
        if irq_num == CODE_SUPERVISOR_SOFT {
            self.sie.set(cpu_id, SieBits { soft: false, ..bits });
            Ok(())
        } else if irq_num == CODE_SUPERVISOR_TIMER {
            self.sie.set(cpu_id, SieBits { timer: false, ..bits });
            Ok(())
        } else if irq_num == CODE_SUPERVISOR_EXTERNAL {
            self.sie.set(cpu_id, SieBits { external: false, ..bits });
            Ok(())
        } else {
            Err(InternalError::DevWriteError)
        }
    }
}

impl crate::driver::Driver for Intc {
    fn name(&self) -> &str {
        "riscv_intc"
    }
}

} // verus!
