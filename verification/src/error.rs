//! The single error enum shared by every subsystem of the kernel core.

use vstd::prelude::*;

verus! {

/// Every way a core operation can fail. Device-probe failures are fatal at
/// boot; scheduler errors are returned to the caller and never retried.
#[derive(Clone, Copy, Debug, PartialEq, Eq, Structural)]
pub enum InternalError {
    RepeatInitialization,
    DevProbeError,
    DevReadError,
    DevWriteError,
    DevBadState,
    NetAgain,
    NetFail,
    WouldBlock,
    ElfParseError,
    NotEnoughMem,
    InvalidCpuId,
    InvalidVirtAddr,
    DuplicateTaskId,
    InvalidExecutorId,
    DuplicateExecutorId,
    InvalidInspectorId,
    DuplicateInspectorId,
    InvalidInspectorStatus,
    InvalidRuntimeStatus,
    InvalidRuntimeSchedTable,
    InvalidParam,
    DuplicateRuntimeSchedTable,
    InvalidTimedEventStatus,
}

} // verus!
