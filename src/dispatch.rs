//! Decisions of the trap dispatcher: where a trap happened, whether it is
//! ours, where execution resumes after the callback, and how a trap that is not
//! ours is handed on.
use vstd::prelude::*;
use crate::aarch64;
use crate::bytes::{from_le32, read_le32};
use crate::state::{Hooks, HooksView, InstrumentSlot, SlotView};
use crate::x86_64;
use crate::Arch;

verus! {

/// The address of the trapping instruction, from the program counter the kernel
/// reports: on AArch64 it is the PC itself; after `INT3` on x86-64, `RIP` has
/// moved one byte on. A null `RIP` gives no address.
pub open spec fn spec_trap_address(arch: Arch, pc: u64) -> Option<u64> {
    match arch {
        Arch::AArch64 => Some(pc),
        Arch::X86_64 => if pc == 0 {
            None
        } else {
            Some((pc - 1) as u64)
        },
    }
}

/// The address of the trapping instruction for the reported program counter.
pub fn trap_address(arch: Arch, pc: u64) -> (r: Option<u64>)
    ensures
        r == spec_trap_address(arch, pc),
{
    match arch {
        Arch::AArch64 => Some(pc),
        Arch::X86_64 => if pc == 0 {
            None
        } else {
            Some(pc - 1)
        },
    }
}

/// Whether `code`, read at a trap address, starts with the engine's trap.
pub open spec fn spec_is_trap(arch: Arch, code: Seq<u8>) -> bool {
    match arch {
        Arch::AArch64 => code.len() >= 4 && aarch64::spec_is_brk(from_le32(code)),
        Arch::X86_64 => code.len() >= 1 && code[0] == x86_64::INT3_OPCODE,
    }
}

/// Whether `code`, read at a trap address, starts with the engine's trap.
pub fn is_trap(arch: Arch, code: &[u8]) -> (r: bool)
    ensures
        r == spec_is_trap(arch, code@),
{
    match arch {
        Arch::AArch64 => code.len() >= 4 && aarch64::is_brk(read_le32(code)),
        Arch::X86_64 => code.len() >= 1 && x86_64::is_int3(code[0]),
    }
}

/// The slot a trap at `address` belongs to: there must be the engine's trap
/// there, and a slot for the address.
pub open spec fn trap_slot(h: HooksView, arch: Arch, address: u64, code: Seq<u8>) -> Option<
    SlotView,
> {
    if spec_is_trap(arch, code) {
        h.slot_of(address)
    } else {
        None
    }
}

/// A snapshot of the slot whose callback a trap at `address` invokes, taken by
/// value; `None` when the trap is not the engine's.
pub fn lookup_trap(hooks: &Hooks, arch: Arch, address: u64, code: &[u8]) -> (r: Option<
    InstrumentSlot,
>)
    requires
        hooks.wf(),
    ensures
        r is None <==> trap_slot(hooks@, arch, address, code@) is None,
        r matches Some(s) ==> trap_slot(hooks@, arch, address, code@) == Some(s@),
{
    if !is_trap(arch, code) {
        return None;
    }
    hooks.slot_by_address(address)
}

/// Where execution goes once the callback has returned.
#[derive(Clone, Copy, Debug, PartialEq, Eq, Structural)]
pub enum Resume {
    /// The callback moved the program counter: execution goes where it chose.
    Stay,
    /// Execution resumes at this address.
    Jump(u64),
    /// Execution returns to the caller of the hooked function (AArch64: `x30`;
    /// x86-64: the return address on top of the stack, which is popped).
    ReturnToCaller,
}

/// The address right after the patched instruction.
pub open spec fn next_pc(address: u64, step_len: u8) -> u64 {
    ((address + step_len) % 0x1_0000_0000_0000_0000) as u64
}

/// Where a trap at `address` on `slot` resumes, given the program counter before
/// and after the callback.
pub open spec fn spec_resume(slot: SlotView, address: u64, pc_before: u64, pc_after: u64) -> Resume {
    if pc_after != pc_before {
        Resume::Stay
    } else if slot.return_to_caller {
        Resume::ReturnToCaller
    } else if slot.execute_original && slot.trampoline_pc != 0 {
        Resume::Jump(slot.trampoline_pc)
    } else {
        Resume::Jump(next_pc(address, slot.step_len))
    }
}

/// Decides where a trap at `address` resumes after the callback: where the
/// callback moved the program counter, else to the trampoline when the original
/// instruction is replayed, else just past the patched instruction.
pub fn resume_after_callback(slot: &InstrumentSlot, address: u64, pc_before: u64, pc_after: u64) -> (r:
    Resume)
    ensures
        r == spec_resume(slot@, address, pc_before, pc_after),
{
    if pc_after != pc_before {
        Resume::Stay
    } else if slot.return_to_caller {
        Resume::ReturnToCaller
    } else if slot.execute_original && slot.trampoline_pc != 0 {
        Resume::Jump(slot.trampoline_pc)
    } else {
        Resume::Jump(address.wrapping_add(slot.step_len as u64))
    }
}

/// Every trap at the address of a registered slot reaches that slot alone, and
/// so exactly its callback; once the callback returns, execution resumes where
/// the callback put the program counter, at the slot's trampoline, or right
/// after the patched instruction.
pub proof fn lemma_trap_dispatch(
    h: HooksView,
    arch: Arch,
    address: u64,
    code: Seq<u8>,
    pc_before: u64,
    pc_after: u64,
)
    requires
        h.wf(),
        h.slot_of(address) is Some,
        !h.slot_of(address).unwrap().return_to_caller,
        spec_is_trap(arch, code),
    ensures
        ({
            let s = h.slot_of(address).unwrap();
            &&& trap_slot(h, arch, address, code) == Some(s)
            &&& s.address == address
            &&& {
                ||| (pc_after != pc_before && spec_resume(s, address, pc_before, pc_after)
                    == Resume::Stay)
                ||| (s.execute_original && spec_resume(s, address, pc_before, pc_after)
                    == Resume::Jump(s.trampoline_pc))
                ||| (!s.execute_original && spec_resume(s, address, pc_before, pc_after)
                    == Resume::Jump(next_pc(address, s.step_len)))
            }
        }),
{
    let i = h.slot_index(address);
    assert(h.slots[i].wf());
}

/// Once a hooked address holds its original instruction again, and that
/// instruction is not itself the engine's trap, a trap reported there reaches
/// no slot and is handed on to the previous handler, though the slot stays
/// registered.
pub proof fn lemma_restored_site_not_dispatched(
    h: HooksView,
    arch: Arch,
    address: u64,
    restored: Seq<u8>,
)
    requires
        !spec_is_trap(arch, restored),
    ensures
        trap_slot(h, arch, address, restored) is None,
{
}

/// `SIG_DFL`, as POSIX systems encode it in a handler slot.
pub const SIG_DFL_HANDLER: u64 = 0;

/// `SIG_IGN`, as POSIX systems encode it in a handler slot.
pub const SIG_IGN_HANDLER: u64 = 1;

/// The disposition a signal had before the engine's handler was installed.
#[derive(Clone, Copy, Debug, PartialEq, Eq, Structural)]
pub struct PreviousAction {
    /// The handler address, or `SIG_DFL` / `SIG_IGN`.
    pub handler: u64,
    /// Whether it was installed with `SA_SIGINFO`.
    pub siginfo: bool,
}

/// What becomes of a signal that is not the engine's.
#[derive(Clone, Copy, Debug, PartialEq, Eq, Structural)]
pub enum Chain {
    /// The previous disposition ignores it.
    Suppress,
    /// Restore the default action and raise the signal again.
    RaiseDefault,
    /// Call the previous three-argument handler.
    CallSigInfo(u64),
    /// Call the previous one-argument handler.
    CallSimple(u64),
}

/// Hands on a signal that is not the engine's: to the previous handler if
/// there was one, by the signature it was installed with; an ignored signal is
/// dropped; with no previous handler, the default one, or the engine's own, the
/// signal is raised again under its default action.
pub fn chain_previous(previous: Option<PreviousAction>, own_handler: u64) -> (r: Chain)
    ensures
        previous is None ==> r == Chain::RaiseDefault,
        previous matches Some(p) ==> r == (if p.handler == SIG_IGN_HANDLER {
            Chain::Suppress
        } else if p.handler == SIG_DFL_HANDLER || p.handler == own_handler {
            Chain::RaiseDefault
        } else if p.siginfo {
            Chain::CallSigInfo(p.handler)
        } else {
            Chain::CallSimple(p.handler)
        }),
{
    match previous {
        None => Chain::RaiseDefault,
        Some(p) => {
            if p.handler == SIG_IGN_HANDLER {
                Chain::Suppress
            } else if p.handler == SIG_DFL_HANDLER || p.handler == own_handler {
                Chain::RaiseDefault
            } else if p.siginfo {
                Chain::CallSigInfo(p.handler)
            } else {
                Chain::CallSimple(p.handler)
            }
        },
    }
}

} // verus!
