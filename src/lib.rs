//! In-process instruction patching and instrumentation for AArch64 and x86-64.
//!
//! This crate holds the logic of the engine: instruction and jump encodings, the
//! hook registry with its cache of original opcodes, the plans that say which bytes
//! go where, and the decisions of the trap dispatcher. Writing to code pages,
//! installing signal handlers and mapping trampoline pages are left to the host,
//! which hands the results back as plain values.
//!
//! Each patching operation comes in two halves: a plan, computed from the bytes
//! currently at the site, and a record step that the host calls once the plan's
//! bytes are written, with the bytes the write replaced.
use vstd::prelude::*;

pub mod error;
pub mod bytes;
pub mod aarch64;
pub mod x86_64;
pub mod state;
pub mod memory;
pub mod dispatch;
pub mod assembly;

pub use error::SigHookError;
pub use state::{Hooks, HooksView, InstrumentSlot, SlotView, MAX_INSTRUMENTS};

use bytes::{from_le32, le32, push_le32, read_le32, copy_bytes};

verus! {

/// The instruction set whose code is patched.
#[derive(Clone, Copy, Debug, PartialEq, Eq, Structural)]
pub enum Arch {
    AArch64,
    X86_64,
}

/// Bytes to write at an address.
#[derive(Debug, PartialEq, Eq)]
pub struct Patch {
    pub address: u64,
    pub bytes: Vec<u8>,
}

/// `n` copies of `NOP`.
pub open spec fn nops(n: nat) -> Seq<u8> {
    Seq::new(n, |_i: int| x86_64::NOP_OPCODE)
}

/// How many bytes the host reads at a site before planning a patch there: one
/// word on AArch64, the longest instruction on x86-64.
pub fn code_probe_len(arch: Arch) -> (r: usize)
    ensures
        arch == Arch::AArch64 ==> r == 4,
        arch == Arch::X86_64 ==> r == 15,
{
    match arch {
        Arch::AArch64 => 4,
        Arch::X86_64 => 15,
    }
}

/// The length of the instruction at `address`, whose bytes start `code`: always
/// 4 on AArch64; on x86-64 what the decoder finds, or `DecodeFailed`.
pub fn instruction_width(arch: Arch, code: &[u8], address: u64) -> (r: Result<u8, SigHookError>)
    ensures
        arch == Arch::AArch64 ==> r == Ok::<u8, SigHookError>(4),
        arch == Arch::X86_64 && x86_64::x86_decodes(code@, address) ==> r == Ok::<
            u8,
            SigHookError,
        >(x86_64::x86_insn_len(code@, address) as u8),
        arch == Arch::X86_64 && !x86_64::x86_decodes(code@, address) ==> r == Err::<
            u8,
            SigHookError,
        >(SigHookError::DecodeFailed),
        r matches Ok(n) ==> 1 <= n <= 15 && (arch == Arch::X86_64 ==> n <= code@.len()),
{
    match arch {
        Arch::AArch64 => Ok(4),
        Arch::X86_64 => x86_64::instruction_width(code, address),
    }
}

/// Plans a raw write of `bytes` at `address`; `InvalidAddress` when the address
/// is null or there is nothing to write.
pub fn plan_patch_bytes(address: u64, bytes: &[u8]) -> (r: Result<Patch, SigHookError>)
    ensures
        (address == 0 || bytes@.len() == 0) ==> r is Err && r->Err_0 == SigHookError::InvalidAddress,
        (address != 0 && bytes@.len() > 0) ==> (r matches Ok(p) && p.address == address
            && p.bytes@ == bytes@),
{
    if address == 0 || bytes.len() == 0 {
        return Err(SigHookError::InvalidAddress);
    }
    Ok(Patch { address, bytes: copy_bytes(bytes) })
}

/// `head` padded with `NOP` to `len` bytes.
pub(crate) fn pad_with_nops(head: Vec<u8>, len: usize) -> (r: Vec<u8>)
    requires
        head@.len() <= len,
    ensures
        r@ == head@ + nops((len - head@.len()) as nat),
{
    let mut out = head;
    let ghost start = out@;
    while out.len() < len
        invariant
            start.len() <= out@.len() <= len,
            out@ == start + nops((out@.len() - start.len()) as nat),
        decreases len - out@.len(),
    {
        out.push(x86_64::NOP_OPCODE);
        assert(out@ =~= start + nops((out@.len() - start.len()) as nat));
    }
    out
}

/// Plans the replacement of one instruction at `address` by `new_opcode`, whose
/// 4 bytes are written little-endian. `code` holds the bytes now at `address`.
///
/// On AArch64 the address must be non-null and 4-byte aligned. On x86-64 the
/// current instruction is decoded: shorter than 4 bytes gives `PatchTooLong`,
/// longer has the rest filled with `NOP`.
pub fn plan_patchcode(arch: Arch, address: u64, new_opcode: u32, code: &[u8]) -> (r: Result<
    Patch,
    SigHookError,
>)
    ensures
        address == 0 ==> r == Err::<Patch, SigHookError>(SigHookError::InvalidAddress),
        arch == Arch::AArch64 && address % 4 != 0 ==> r == Err::<Patch, SigHookError>(
            SigHookError::InvalidAddress,
        ),
        arch == Arch::AArch64 && address != 0 && address % 4 == 0 ==> (r matches Ok(p)
            && p.address == address && p.bytes@ == le32(new_opcode)),
        arch == Arch::X86_64 && address != 0 && !x86_64::x86_decodes(code@, address) ==> r == Err::<
            Patch,
            SigHookError,
        >(SigHookError::DecodeFailed),
        arch == Arch::X86_64 && address != 0 && x86_64::x86_decodes(code@, address)
            && x86_64::x86_insn_len(code@, address) < 4 ==> r == Err::<Patch, SigHookError>(
            SigHookError::PatchTooLong {
                patch_len: 4,
                instruction_len: x86_64::x86_insn_len(code@, address) as usize,
            },
        ),
        arch == Arch::X86_64 && address != 0 && x86_64::x86_decodes(code@, address)
            && x86_64::x86_insn_len(code@, address) >= 4 ==> (r matches Ok(p) && p.address
            == address && p.bytes@ == le32(new_opcode) + nops(
            (x86_64::x86_insn_len(code@, address) - 4) as nat,
        )),
{
    if address == 0 {
        return Err(SigHookError::InvalidAddress);
    }
    match arch {
        Arch::AArch64 => {
            if address % 4 != 0 {
                return Err(SigHookError::InvalidAddress);
            }
            let mut out: Vec<u8> = Vec::new();
            push_le32(&mut out, new_opcode);
            assert(out@ =~= le32(new_opcode));
            Ok(Patch { address, bytes: out })
        },
        Arch::X86_64 => {
            let len = x86_64::instruction_width(code, address)? as usize;
            if len < 4 {
                return Err(SigHookError::PatchTooLong { patch_len: 4, instruction_len: len });
            }
            let mut out: Vec<u8> = Vec::new();
            push_le32(&mut out, new_opcode);
            assert(out@ =~= Seq::<u8>::empty() + le32(new_opcode));
            let bytes = pad_with_nops(out, len);
            Ok(Patch { address, bytes })
        },
    }
}

/// Plans the detour of the function entry at `addr` to `replace_fn`.
///
/// AArch64 prefers `B` and falls back to the 16-byte `LDR X16`/`BR X16` stub
/// when the branch does not reach; x86-64 prefers `JMP rel32` and falls back to
/// the 12-byte jump through `RAX`.
pub fn plan_inline_hook(arch: Arch, addr: u64, replace_fn: u64) -> (r: Result<Patch, SigHookError>)
    ensures
        addr == 0 ==> r == Err::<Patch, SigHookError>(SigHookError::InvalidAddress),
        arch == Arch::AArch64 && addr % 4 != 0 ==> r == Err::<Patch, SigHookError>(
            SigHookError::InvalidAddress,
        ),
        arch == Arch::AArch64 && addr != 0 && addr % 4 == 0 && replace_fn % 4 != 0 ==> r == Err::<
            Patch,
            SigHookError,
        >(SigHookError::InvalidAddress),
        arch == Arch::AArch64 && addr != 0 && addr % 4 == 0 && replace_fn % 4 == 0
            && aarch64::b_reaches(addr, replace_fn) ==> (r matches Ok(p) && p.address == addr
            && p.bytes@.len() == 4 && (from_le32(p.bytes@) & 0xFC00_0000) == aarch64::B_OPCODE
            && aarch64::b_imm26(from_le32(p.bytes@)) * 4 == replace_fn - addr),
        arch == Arch::AArch64 && addr != 0 && addr % 4 == 0 && replace_fn % 4 == 0
            && !aarch64::b_reaches(addr, replace_fn) ==> (r matches Ok(p) && p.address == addr
            && p.bytes@ == aarch64::far_jump(replace_fn)),
        arch == Arch::X86_64 && addr != 0 && x86_64::rel32_reaches(addr, replace_fn) ==> (r matches Ok(
            p,
        ) && p.address == addr && exists|d: u32|
            #![trigger x86_64::jmp_rel32(d)]
            p.bytes@ == x86_64::jmp_rel32(d) && x86_64::i32_of(d) == x86_64::rel32_offset(
                addr,
                replace_fn,
            )),
        arch == Arch::X86_64 && addr != 0 && !x86_64::rel32_reaches(addr, replace_fn) ==> (r matches Ok(
            p,
        ) && p.address == addr && p.bytes@ == x86_64::absolute_jump(replace_fn)),
{
    if addr == 0 {
        return Err(SigHookError::InvalidAddress);
    }
    match arch {
        Arch::AArch64 => match aarch64::encode_b(addr, replace_fn) {
            Ok(word) => {
                let mut out: Vec<u8> = Vec::new();
                push_le32(&mut out, word);
                assert(out@ =~= le32(word));
                proof {
                    bytes::lemma_le32_round_trip(word);
                }
                Ok(Patch { address: addr, bytes: out })
            },
            Err(SigHookError::BranchOutOfRange) => {
                let stub = aarch64::far_jump_stub(addr, replace_fn)?;
                Ok(Patch { address: addr, bytes: stub })
            },
            Err(e) => Err(e),
        },
        Arch::X86_64 => match x86_64::encode_jmp_rel32(addr, replace_fn) {
            Ok(jmp) => Ok(Patch { address: addr, bytes: jmp }),
            Err(_) => Ok(Patch { address: addr, bytes: x86_64::encode_absolute_jump(replace_fn) }),
        },
    }
}

/// The opcode that recording the bytes `old` yields: their first four, if they
/// have four.
pub open spec fn recorded_opcode(old: Seq<u8>) -> Option<u32> {
    if old.len() >= 4 {
        Some(from_le32(old))
    } else {
        None
    }
}

/// The registry after recording that the bytes `old` were replaced at `address`.
pub open spec fn recorded(h: HooksView, address: u64, old: Seq<u8>) -> HooksView {
    match recorded_opcode(old) {
        Some(op) => h.cached(address, op),
        None => h,
    }
}

/// Records what a patch at `address` replaced: the first four bytes of
/// `replaced` go to the original-opcode cache and are returned. Fewer than four
/// bytes are not recorded.
pub fn record_patch(hooks: &mut Hooks, address: u64, replaced: &[u8]) -> (r: Option<u32>)
    requires
        old(hooks).wf(),
    ensures
        final(hooks).wf(),
        r == recorded_opcode(replaced@),
        final(hooks)@ == recorded(old(hooks)@, address, replaced@),
{
    if replaced.len() < 4 {
        return None;
    }
    let opcode = read_le32(replaced);
    hooks.cache_original_opcode(address, opcode);
    Some(opcode)
}

/// The saved original 4-byte value at `address`: the cache first, then the
/// instrumentation slots.
pub fn original_opcode(hooks: &Hooks, address: u64) -> (r: Option<u32>)
    requires
        hooks.wf(),
    ensures
        r == hooks@.original_opcode(address),
{
    match hooks.cached_original_opcode_by_address(address) {
        Some(op) => Some(op),
        None => hooks.original_opcode_by_address(address),
    }
}

/// The bytes that arm a trap: `BRK #0` on AArch64, `INT3` on x86-64.
pub open spec fn trap_bytes(arch: Arch) -> Seq<u8> {
    match arch {
        Arch::AArch64 => le32(aarch64::BRK_OPCODE),
        Arch::X86_64 => seq![x86_64::INT3_OPCODE],
    }
}

/// The bytes that arm a trap on `arch`.
pub fn trap_opcode_bytes(arch: Arch) -> (r: Vec<u8>)
    ensures
        r@ == trap_bytes(arch),
{
    let mut out: Vec<u8> = Vec::new();
    match arch {
        Arch::AArch64 => {
            push_le32(&mut out, aarch64::BRK_OPCODE);
        },
        Arch::X86_64 => {
            out.push(x86_64::int3_opcode());
        },
    }
    assert(out@ =~= trap_bytes(arch));
    out
}

/// What installing a hook at an address takes: the instruction there, and what
/// the host must do before the hook is recorded.
#[derive(Debug, PartialEq, Eq)]
pub struct InstrumentPlan {
    pub address: u64,
    /// The instruction bytes the hook covers.
    pub original: Vec<u8>,
    /// Their length, by which execution steps past them.
    pub step_len: u8,
    /// The four bytes found at `address` before it was first hooked, as a
    /// little-endian word.
    pub original_opcode: u32,
    /// The trap to write at `address`; empty when the address is already hooked.
    pub trap: Vec<u8>,
    /// Whether the host must build a trampoline replaying `original` first.
    pub needs_trampoline: bool,
}

/// Plans a hook at `address`; `code` holds the bytes now there.
///
/// An address already hooked keeps its recorded instruction and opcode and
/// needs no new trap. Otherwise the address must be non-null (and 4-byte
/// aligned on AArch64), `code` must hold at least four bytes, the instruction
/// must decode, and a slot must be free.
pub fn prepare_instrument(
    hooks: &Hooks,
    arch: Arch,
    address: u64,
    execute_original: bool,
    code: &[u8],
) -> (r: Result<InstrumentPlan, SigHookError>)
    requires
        hooks.wf(),
    ensures
        hooks@.slot_of(address) matches Some(s) ==> (r matches Ok(p) && p.address == address
            && p.original@ == s.original && p.step_len == s.step_len && p.original_opcode
            == s.original_opcode && p.trap@.len() == 0 && p.needs_trampoline
            == hooks@.needs_trampoline(address, execute_original)),
        hooks@.slot_of(address) is None && (address == 0 || code@.len() < 4 || (arch
            == Arch::AArch64 && address % 4 != 0)) ==> r == Err::<InstrumentPlan, SigHookError>(
            SigHookError::InvalidAddress,
        ),
        hooks@.slot_of(address) is None && address != 0 && code@.len() >= 4 && arch == Arch::X86_64
            && !x86_64::x86_decodes(code@, address) ==> r == Err::<InstrumentPlan, SigHookError>(
            SigHookError::DecodeFailed,
        ),
        hooks@.slot_of(address) is None && address != 0 && code@.len() >= 4 && (arch
            == Arch::AArch64 ==> address % 4 == 0) && (arch == Arch::X86_64
            ==> x86_64::x86_decodes(code@, address)) && hooks@.slots.len() >= MAX_INSTRUMENTS ==> r
            == Err::<InstrumentPlan, SigHookError>(SigHookError::InstrumentSlotsFull),
        hooks@.slot_of(address) is None && address != 0 && code@.len() >= 4 && (arch
            == Arch::AArch64 ==> address % 4 == 0) && (arch == Arch::X86_64
            ==> x86_64::x86_decodes(code@, address)) && hooks@.slots.len() < MAX_INSTRUMENTS ==> (
        r matches Ok(p) && p.address == address && p.step_len == (if arch == Arch::AArch64 {
            4
        } else {
            x86_64::x86_insn_len(code@, address)
        }) && 1 <= p.step_len <= 15 && p.original@ == code@.subrange(0, p.step_len as int)
            && p.original_opcode == from_le32(code@) && p.trap@ == trap_bytes(arch)
            && p.needs_trampoline == execute_original),
        r matches Ok(p) ==> 1 <= p.original@.len() <= state::MAX_ORIGINAL_LEN && p.step_len >= 1,
{
    match hooks.slot_by_address(address) {
        Some(slot) => {
            let needs = hooks.needs_trampoline(address, execute_original);
            proof {
                let i = hooks@.slot_index(address);
                assert(hooks@.slots[i].wf());
            }
            return Ok(
                InstrumentPlan {
                    address,
                    original: slot.original_bytes,
                    step_len: slot.step_len,
                    original_opcode: slot.original_opcode,
                    trap: Vec::new(),
                    needs_trampoline: needs,
                },
            );
        },
        None => {},
    }
    if address == 0 || code.len() < 4 {
        return Err(SigHookError::InvalidAddress);
    }
    let step_len: u8 = match arch {
        Arch::AArch64 => {
            if address % 4 != 0 {
                return Err(SigHookError::InvalidAddress);
            }
            4
        },
        Arch::X86_64 => x86_64::instruction_width(code, address)?,
    };
    if !hooks.has_room() {
        return Err(SigHookError::InstrumentSlotsFull);
    }
    let mut original: Vec<u8> = Vec::new();
    let mut i: usize = 0;
    while i < step_len as usize
        invariant
            step_len <= code@.len(),
            i <= step_len,
            original@ == code@.subrange(0, i as int),
        decreases step_len - i,
    {
        original.push(code[i]);
        i = i + 1;
        assert(original@ =~= code@.subrange(0, i as int));
    }
    Ok(
        InstrumentPlan {
            address,
            original,
            step_len,
            original_opcode: read_le32(code),
            trap: trap_opcode_bytes(arch),
            needs_trampoline: execute_original,
        },
    )
}

/// The registry after hooking `address`: the slot is registered, and for a new
/// slot `original_opcode` is cached.
pub open spec fn instrumented(
    h: HooksView,
    address: u64,
    original: Seq<u8>,
    step_len: u8,
    original_opcode: u32,
    callback: u64,
    execute_original: bool,
    trampoline_pc: u64,
) -> HooksView {
    let h1 = h.registered(
        address,
        original,
        step_len,
        original_opcode,
        callback,
        execute_original,
        trampoline_pc,
    );
    if h.register_result(address, original, step_len) is Err || h.has_slot(address) {
        h1
    } else {
        h1.cached(address, original_opcode)
    }
}

/// What hooking `address` returns: the original 4-byte value there (the one a
/// hooked address recorded, else `original_opcode`), or why registration failed.
pub open spec fn instrument_result(
    h: HooksView,
    address: u64,
    original: Seq<u8>,
    step_len: u8,
    original_opcode: u32,
) -> Result<u32, SigHookError> {
    match h.register_result(address, original, step_len) {
        Err(e) => Err(e),
        Ok(_) => if h.has_slot(address) {
            Ok(h.slot_of(address).unwrap().original_opcode)
        } else {
            Ok(original_opcode)
        },
    }
}

fn commit_instrument(
    hooks: &mut Hooks,
    plan: &InstrumentPlan,
    callback: u64,
    execute_original: bool,
    trampoline_pc: u64,
) -> (r: Result<u32, SigHookError>)
    requires
        old(hooks).wf(),
        old(hooks)@.needs_trampoline(plan.address, execute_original) ==> trampoline_pc != 0,
    ensures
        final(hooks).wf(),
        r == instrument_result(
            old(hooks)@,
            plan.address,
            plan.original@,
            plan.step_len,
            plan.original_opcode,
        ),
        final(hooks)@ == instrumented(
            old(hooks)@,
            plan.address,
            plan.original@,
            plan.step_len,
            plan.original_opcode,
            callback,
            execute_original,
            trampoline_pc,
        ),
{
    let ghost pre = hooks@;
    let existed = hooks.find_slot_index(plan.address).is_some();
    hooks.register_slot(
        plan.address,
        plan.original.as_slice(),
        plan.step_len,
        plan.original_opcode,
        callback,
        execute_original,
        trampoline_pc,
    )?;
    if existed {
        proof {
            let i = pre.slot_index(plan.address);
            let j = hooks@.slot_index(plan.address);
            assert(hooks@.slots[i].address == plan.address);
            assert(hooks@.has_slot(plan.address));
            assert(j == i);
        }
        match hooks.original_opcode_by_address(plan.address) {
            Some(op) => Ok(op),
            None => Err(SigHookError::InvalidAddress),
        }
    } else {
        hooks.cache_original_opcode(plan.address, plan.original_opcode);
        Ok(plan.original_opcode)
    }
}

/// Records a hook at `plan.address` that calls `callback` on each trap and then
/// replays the original instruction through the trampoline at `trampoline_pc`.
///
/// A hooked address keeps its original bytes and opcode and takes the new
/// callback. A new hook fills a free slot and caches `plan.original_opcode`.
/// Returns the original 4-byte value at the address, whatever the length of
/// the instruction there.
pub fn instrument(hooks: &mut Hooks, plan: &InstrumentPlan, callback: u64, trampoline_pc: u64) -> (r:
    Result<u32, SigHookError>)
    requires
        old(hooks).wf(),
        old(hooks)@.needs_trampoline(plan.address, true) ==> trampoline_pc != 0,
    ensures
        final(hooks).wf(),
        r == instrument_result(
            old(hooks)@,
            plan.address,
            plan.original@,
            plan.step_len,
            plan.original_opcode,
        ),
        final(hooks)@ == instrumented(
            old(hooks)@,
            plan.address,
            plan.original@,
            plan.step_len,
            plan.original_opcode,
            callback,
            true,
            trampoline_pc,
        ),
{
    commit_instrument(hooks, plan, callback, true, trampoline_pc)
}

/// As [`instrument`], except that after `callback` execution steps past the
/// patched instruction instead of replaying it.
pub fn instrument_no_original(hooks: &mut Hooks, plan: &InstrumentPlan, callback: u64) -> (r:
    Result<u32, SigHookError>)
    requires
        old(hooks).wf(),
    ensures
        final(hooks).wf(),
        r == instrument_result(
            old(hooks)@,
            plan.address,
            plan.original@,
            plan.step_len,
            plan.original_opcode,
        ),
        final(hooks)@ == instrumented(
            old(hooks)@,
            plan.address,
            plan.original@,
            plan.step_len,
            plan.original_opcode,
            callback,
            false,
            0,
        ),
{
    commit_instrument(hooks, plan, callback, false, 0)
}

/// The trampoline to place at `base` for the instruction `original` at
/// `address`: it replays the instruction and then jumps to the address right
/// after it, `address + step_len`.
pub fn trampoline_code(arch: Arch, base: u64, address: u64, original: &[u8], step_len: u8) -> (r:
    Result<Vec<u8>, SigHookError>)
    requires
        base + original@.len() <= u64::MAX,
    ensures
        arch == Arch::AArch64 && original@.len() != 4 ==> r == Err::<Vec<u8>, SigHookError>(
            SigHookError::InvalidAddress,
        ),
        arch == Arch::AArch64 && original@.len() == 4 ==> (r matches Ok(v) && v@
            == aarch64::trampoline(original@, dispatch::next_pc(address, step_len))),
        arch == Arch::X86_64 && original@.len() == 0 ==> r == Err::<Vec<u8>, SigHookError>(
            SigHookError::InvalidAddress,
        ),
        arch == Arch::X86_64 && original@.len() > 0 ==> (r matches Ok(v) && x86_64::trampoline(
            base,
            original@,
            dispatch::next_pc(address, step_len),
            v@,
        )),
{
    let next = address.wrapping_add(step_len as u64);
    match arch {
        Arch::AArch64 => aarch64::trampoline_code(original, next),
        Arch::X86_64 => x86_64::trampoline_code(base, original, next),
    }
}


/// After a successful patch at `address`, whose write replaced the bytes
/// `replaced` (at least four), an original-opcode query at `address` answers the
/// word those bytes held before the patch.
pub proof fn lemma_patch_then_original_opcode(h: HooksView, address: u64, replaced: Seq<u8>)
    requires
        h.wf(),
        replaced.len() >= 4,
    ensures
        recorded(h, address, replaced).wf(),
        recorded(h, address, replaced).original_opcode(address) == Some(from_le32(replaced)),
{
    h.lemma_cached(address, from_le32(replaced));
}

/// Hooking an address a second time, with the plan that the first hook leaves
/// behind, keeps the original bytes and opcode the first recorded, returns the
/// same original value, leaves the original-opcode answer unchanged, and puts
/// the second callback in place of the first.
pub proof fn lemma_instrument_twice(
    h: HooksView,
    address: u64,
    original: Seq<u8>,
    step_len: u8,
    original_opcode: u32,
    first_callback: u64,
    first_replays: bool,
    first_trampoline: u64,
    second_callback: u64,
    second_replays: bool,
    second_trampoline: u64,
)
    requires
        h.wf(),
        h.needs_trampoline(address, first_replays) ==> first_trampoline != 0,
        h.register_result(address, original, step_len) is Ok,
        instrumented(
            h,
            address,
            original,
            step_len,
            original_opcode,
            first_callback,
            first_replays,
            first_trampoline,
        ).needs_trampoline(address, second_replays) ==> second_trampoline != 0,
    ensures
        ({
            let h1 = instrumented(
                h,
                address,
                original,
                step_len,
                original_opcode,
                first_callback,
                first_replays,
                first_trampoline,
            );
            let s1 = h1.slot_of(address).unwrap();
            let h2 = instrumented(
                h1,
                address,
                s1.original,
                s1.step_len,
                s1.original_opcode,
                second_callback,
                second_replays,
                second_trampoline,
            );
            &&& h1.slot_of(address) is Some
            &&& h2.wf()
            &&& h2.slot_of(address).unwrap().callback == second_callback
            &&& h2.slot_of(address).unwrap().original == s1.original
            &&& h2.slot_of(address).unwrap().original_opcode == s1.original_opcode
            &&& h2.original_opcode(address) == h1.original_opcode(address)
            &&& instrument_result(h, address, original, step_len, original_opcode) is Ok
            &&& instrument_result(h1, address, s1.original, s1.step_len, s1.original_opcode)
                == instrument_result(h, address, original, step_len, original_opcode)
        }),
{
    let g = h.registered(
        address,
        original,
        step_len,
        original_opcode,
        first_callback,
        first_replays,
        first_trampoline,
    );
    h.lemma_registered(
        address,
        original,
        step_len,
        original_opcode,
        first_callback,
        first_replays,
        first_trampoline,
    );
    let h1 = instrumented(
        h,
        address,
        original,
        step_len,
        original_opcode,
        first_callback,
        first_replays,
        first_trampoline,
    );
    if !h.has_slot(address) {
        g.lemma_cached(address, original_opcode);
    }
    assert(h1.slots == g.slots);
    assert(h1.slot_of(address) == g.slot_of(address));
    let s1 = h1.slot_of(address).unwrap();
    assert(h1.has_slot(address));
    assert(s1.wf()) by {
        assert(h1.slots[h1.slot_index(address)] == s1);
    }
    h1.lemma_registered(
        address,
        s1.original,
        s1.step_len,
        s1.original_opcode,
        second_callback,
        second_replays,
        second_trampoline,
    );
    let h2 = instrumented(
        h1,
        address,
        s1.original,
        s1.step_len,
        s1.original_opcode,
        second_callback,
        second_replays,
        second_trampoline,
    );
    assert(h2.cached_of(address) == h1.cached_of(address));
}

/// With every slot taken, hooking one more address leaves the registry, and
/// every hook in it, as it was, and fails; with a plan that `prepare_instrument`
/// could give (one to 16 original bytes, a non-zero step) it fails with
/// `InstrumentSlotsFull`.
pub proof fn lemma_full_registry_refuses(
    h: HooksView,
    address: u64,
    original: Seq<u8>,
    step_len: u8,
    original_opcode: u32,
    callback: u64,
    execute_original: bool,
    trampoline_pc: u64,
)
    requires
        h.wf(),
        h.slots.len() == MAX_INSTRUMENTS,
        !h.has_slot(address),
    ensures
        instrumented(
            h,
            address,
            original,
            step_len,
            original_opcode,
            callback,
            execute_original,
            trampoline_pc,
        ) == h,
        instrument_result(h, address, original, step_len, original_opcode) is Err,
        (1 <= original.len() <= state::MAX_ORIGINAL_LEN && step_len >= 1) ==> instrument_result(
            h,
            address,
            original,
            step_len,
            original_opcode,
        ) == Err::<u32, SigHookError>(SigHookError::InstrumentSlotsFull),
{
}

} // verus!
