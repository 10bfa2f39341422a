use vstd::prelude::*;

verus! {

/// Every way an engine operation can fail. OS status codes travel with the
/// variants that come from a system call.
#[derive(Debug, Clone, Copy, PartialEq, Eq, Structural)]
pub enum SigHookError {
    InvalidAddress,
    UnsupportedPlatform,
    UnsupportedArchitecture,
    UnsupportedOperation,
    PageSizeUnavailable,
    UnexpectedSignalContext,
    /// A code page could not be made writable; `errno` is the OS status
    /// (`errno` of `mprotect`, or the `kern_return_t` of `mach_vm_protect`).
    ProtectWritableFailed { errno: i32 },
    /// A code page could not be made executable again; status as above.
    ProtectExecutableFailed { errno: i32 },
    SigEmptySetFailed { signum: i32, errno: i32 },
    SigActionFailed { signum: i32, errno: i32 },
    InstrumentSlotsFull,
    BranchOutOfRange,
    DecodeFailed,
    AsmEmptyInput,
    AsmAssembleFailed,
    AsmSizeMismatch { expected: usize, actual: usize },
    PatchTooLong { patch_len: usize, instruction_len: usize },
    MmapFailed { errno: i32 },
    TrampolineProtectFailed { errno: i32 },
}

} // verus!
