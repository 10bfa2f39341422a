//! x86-64: the `INT3` trap, jump encodings, trampoline stubs, the instruction
//! length probe and the register context.
use vstd::prelude::*;
use crate::bytes::{le32, le64, push_le32, push_le64};
use crate::error::SigHookError;

verus! {

/// `INT3`, the one-byte trap the engine plants.
pub const INT3_OPCODE: u8 = 0xCC;

/// `NOP`, used to pad a patch to the length of the instruction it replaces.
pub const NOP_OPCODE: u8 = 0x90;

/// Whether `byte` is `INT3`.
pub fn is_int3(byte: u8) -> (r: bool)
    ensures
        r == (byte == INT3_OPCODE),
{
    byte == INT3_OPCODE
}

/// The trap byte.
pub fn int3_opcode() -> (r: u8)
    ensures
        r == INT3_OPCODE,
{
    INT3_OPCODE
}

/// The value of a 32-bit word read as two's complement.
pub open spec fn i32_of(w: u32) -> int {
    if w >= 0x8000_0000 {
        w - 0x1_0000_0000
    } else {
        w as int
    }
}

/// The displacement of `JMP rel32` at `from` to `to`: it counts from the end of
/// the 5-byte instruction.
pub open spec fn rel32_offset(from: u64, to: u64) -> int {
    to - (from + 5)
}

/// Whether `JMP rel32` at `from` reaches `to`.
pub open spec fn rel32_reaches(from: u64, to: u64) -> bool {
    -0x8000_0000 <= rel32_offset(from, to) <= 0x7FFF_FFFF
}

/// `E9 <disp32>` with the given displacement word.
pub open spec fn jmp_rel32(disp: u32) -> Seq<u8> {
    seq![0xE9u8] + le32(disp)
}

/// Encodes `JMP rel32` placed at `from_address` to `to_address`;
/// `BranchOutOfRange` when the displacement does not fit a signed 32-bit value.
pub fn encode_jmp_rel32(from_address: u64, to_address: u64) -> (r: Result<Vec<u8>, SigHookError>)
    ensures
        !rel32_reaches(from_address, to_address) ==> r == Err::<Vec<u8>, SigHookError>(
            SigHookError::BranchOutOfRange,
        ),
        rel32_reaches(from_address, to_address) ==> (r matches Ok(v) && exists|d: u32|
            #![trigger jmp_rel32(d)]
            v@ == jmp_rel32(d) && i32_of(d) == rel32_offset(from_address, to_address)),
{
    let offset: i128 = to_address as i128 - from_address as i128 - 5;
    if offset < -0x8000_0000 || offset > 0x7FFF_FFFF {
        return Err(SigHookError::BranchOutOfRange);
    }
    let disp: u32 = if offset >= 0 {
        offset as u32
    } else {
        (offset + 0x1_0000_0000) as u32
    };
    assert(i32_of(disp) == rel32_offset(from_address, to_address));
    let mut out: Vec<u8> = Vec::new();
    out.push(0xE9);
    push_le32(&mut out, disp);
    assert(out@ =~= jmp_rel32(disp));
    Ok(out)
}

/// `MOV RAX, imm64; JMP RAX`.
pub open spec fn absolute_jump(to: u64) -> Seq<u8> {
    seq![0x48u8, 0xB8u8] + le64(to) + seq![0xFFu8, 0xE0u8]
}

/// The 12-byte jump through `RAX` to `to_address`, for targets out of rel32 range.
pub fn encode_absolute_jump(to_address: u64) -> (r: Vec<u8>)
    ensures
        r@ == absolute_jump(to_address),
{
    let mut out: Vec<u8> = Vec::new();
    out.push(0x48);
    out.push(0xB8);
    push_le64(&mut out, to_address);
    out.push(0xFF);
    out.push(0xE0);
    assert(out@ =~= absolute_jump(to_address));
    out
}

/// `JMP [RIP+0]` followed by the 8-byte target.
pub open spec fn abs_jmp_indirect(to: u64) -> Seq<u8> {
    seq![0xFFu8, 0x25u8, 0u8, 0u8, 0u8, 0u8] + le64(to)
}

/// The 14-byte indirect jump to `to_address` that trampolines use out of rel32 range.
pub fn encode_abs_jmp_indirect(to_address: u64) -> (r: Vec<u8>)
    ensures
        r@ == abs_jmp_indirect(to_address),
{
    let mut out: Vec<u8> = Vec::new();
    out.push(0xFF);
    out.push(0x25);
    out.push(0);
    out.push(0);
    out.push(0);
    out.push(0);
    push_le64(&mut out, to_address);
    assert(out@ =~= abs_jmp_indirect(to_address));
    out
}

/// The trampoline placed at `base`: the original instruction bytes, then a jump
/// to `next_pc`, by rel32 where it reaches and indirectly otherwise.
pub open spec fn trampoline(base: u64, original: Seq<u8>, next_pc: u64, rel: Seq<u8>) -> bool {
    let site = (base + original.len()) as u64;
    if rel32_reaches(site, next_pc) {
        exists|d: u32|
            #![trigger jmp_rel32(d)]
            rel == original + jmp_rel32(d) && i32_of(d) == rel32_offset(site, next_pc)
    } else {
        rel == original + abs_jmp_indirect(next_pc)
    }
}

/// The trampoline for a page at `base` that replays `original` and then jumps to
/// `next_pc`. `InvalidAddress` when `original` is empty.
pub fn trampoline_code(base: u64, original: &[u8], next_pc: u64) -> (r: Result<
    Vec<u8>,
    SigHookError,
>)
    requires
        base + original@.len() <= u64::MAX,
    ensures
        original@.len() == 0 ==> r == Err::<Vec<u8>, SigHookError>(SigHookError::InvalidAddress),
        original@.len() > 0 ==> (r matches Ok(v) && trampoline(base, original@, next_pc, v@)),
{
    if original.len() == 0 {
        return Err(SigHookError::InvalidAddress);
    }
    let mut out: Vec<u8> = Vec::new();
    let mut i: usize = 0;
    while i < original.len()
        invariant
            i <= original@.len(),
            out@ == original@.subrange(0, i as int),
        decreases original@.len() - i,
    {
        out.push(original[i]);
        i = i + 1;
        assert(out@ =~= original@.subrange(0, i as int));
    }
    assert(out@ =~= original@);
    let site: u64 = base + original.len() as u64;
    match encode_jmp_rel32(site, next_pc) {
        Ok(jmp) => {
            let mut k: usize = 0;
            let ghost start = out@;
            while k < jmp.len()
                invariant
                    k <= jmp@.len(),
                    out@ == start + jmp@.subrange(0, k as int),
                decreases jmp@.len() - k,
            {
                out.push(jmp[k]);
                k = k + 1;
                assert(out@ =~= start + jmp@.subrange(0, k as int));
            }
            assert(jmp@.subrange(0, jmp@.len() as int) =~= jmp@);
            Ok(out)
        },
        Err(_) => {
            let abs = encode_abs_jmp_indirect(next_pc);
            let mut k: usize = 0;
            let ghost start = out@;
            while k < abs.len()
                invariant
                    k <= abs@.len(),
                    out@ == start + abs@.subrange(0, k as int),
                decreases abs@.len() - k,
            {
                out.push(abs[k]);
                k = k + 1;
                assert(out@ =~= start + abs@.subrange(0, k as int));
            }
            assert(abs@.subrange(0, abs@.len() as int) =~= abs@);
            Ok(out)
        },
    }
}

/// Whether iced-x86, decoding 64-bit code at `ip`, finds a valid instruction at
/// the start of `code`.
pub uninterp spec fn x86_decodes(code: Seq<u8>, ip: u64) -> bool;

/// The length iced-x86 gives the first instruction of `code` decoded at `ip`.
pub uninterp spec fn x86_insn_len(code: Seq<u8>, ip: u64) -> nat;

/// Relies on iced_x86::Decoder in 64-bit mode with no options: `decode` yields the
/// first instruction, `is_invalid` says whether it failed and `len` is its length.
/// Any byte read past `min(15, code.len())` marks the instruction invalid, and a
/// valid one has read its opcode byte: so its length is 1 to 15 and fits in
/// `code`. `try_with_ip` refuses only a slice ending within 15 bytes of the top
/// of the address space, which is then reported as not decoding.
#[verifier::external_body]
fn decode_first(code: &[u8], ip: u64) -> (r: (bool, usize))
    ensures
        r.0 == x86_decodes(code@, ip),
        r.1 == x86_insn_len(code@, ip),
        r.0 ==> 1 <= r.1 <= 15 && r.1 <= code@.len(),
{
    match iced_x86::Decoder::try_with_ip(64, code, ip, iced_x86::DecoderOptions::NONE) {
        Ok(mut decoder) => {
            let insn = decoder.decode();
            (!insn.is_invalid(), insn.len())
        },
        Err(_) => (false, 0),
    }
}

/// The length of the instruction that `code`, read at `address`, starts with;
/// `DecodeFailed` when the bytes are not a valid instruction.
pub fn instruction_width(code: &[u8], address: u64) -> (r: Result<u8, SigHookError>)
    ensures
        x86_decodes(code@, address) ==> r == Ok::<u8, SigHookError>(
            x86_insn_len(code@, address) as u8,
        ),
        !x86_decodes(code@, address) ==> r == Err::<u8, SigHookError>(SigHookError::DecodeFailed),
        r matches Ok(n) ==> 1 <= n <= 15 && n <= code@.len() && n == x86_insn_len(code@, address),
{
    let (valid, len) = decode_first(code, address);
    if !valid {
        return Err(SigHookError::DecodeFailed);
    }
    Ok(len as u8)
}

/// The x86-64 CPU state a callback sees and may change.
#[derive(Clone, Copy, Debug, PartialEq, Eq, Structural)]
pub struct HookContext {
    pub r8: u64,
    pub r9: u64,
    pub r10: u64,
    pub r11: u64,
    pub r12: u64,
    pub r13: u64,
    pub r14: u64,
    pub r15: u64,
    pub rdi: u64,
    pub rsi: u64,
    pub rbp: u64,
    pub rbx: u64,
    pub rdx: u64,
    pub rax: u64,
    pub rcx: u64,
    pub rsp: u64,
    pub rip: u64,
    pub eflags: u64,
}

} // verus!
