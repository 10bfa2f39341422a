//! Checks around the assembler front-end: the text handed to the assembler,
//! the size of what it produced, and the patch made of it.
use vstd::prelude::*;
use crate::bytes::{copy_bytes, from_le32, read_le32};
use crate::error::SigHookError;
use crate::{nops, plan_patchcode, pad_with_nops, Arch, Patch};
use crate::x86_64;

verus! {

/// Width of an instruction assembled for `patch_asm` on AArch64.
pub const PATCH_ASM_WIDTH: usize = 4;

/// `s` without its leading and trailing whitespace.
pub uninterp spec fn trimmed(s: Seq<char>) -> Seq<char>;

/// Relies on str::trim: the result depends on the characters of `s` alone.
#[verifier::external_body]
fn trim_text(s: &str) -> (r: &str)
    ensures
        r@ == trimmed(s@),
{
    s.trim()
}

/// The assembly text to hand to the assembler: `text` trimmed, or
/// `AsmEmptyInput` when nothing but whitespace is left.
pub fn asm_source(text: &str) -> (r: Result<String, SigHookError>)
    ensures
        trimmed(text@).len() == 0 ==> r == Err::<String, SigHookError>(SigHookError::AsmEmptyInput),
        trimmed(text@).len() > 0 ==> (r matches Ok(t) && t@ == trimmed(text@)),
{
    let t = trim_text(text);
    if t.is_empty() {
        return Err(SigHookError::AsmEmptyInput);
    }
    Ok(t.to_owned())
}

/// The instruction word in `bytes`, which must be exactly one 4-byte
/// instruction; `AsmSizeMismatch` otherwise.
pub fn to_u32_opcode(bytes: &[u8]) -> (r: Result<u32, SigHookError>)
    ensures
        bytes@.len() != PATCH_ASM_WIDTH ==> r == Err::<u32, SigHookError>(
            SigHookError::AsmSizeMismatch { expected: PATCH_ASM_WIDTH, actual: bytes@.len() as usize },
        ),
        bytes@.len() == PATCH_ASM_WIDTH ==> r == Ok::<u32, SigHookError>(from_le32(bytes@)),
{
    if bytes.len() != PATCH_ASM_WIDTH {
        return Err(
            SigHookError::AsmSizeMismatch { expected: PATCH_ASM_WIDTH, actual: bytes.len() },
        );
    }
    Ok(read_le32(bytes))
}

/// Plans writing the machine code `assembled`, produced by the assembler for
/// `address`, over the instruction there; `code` holds the bytes now at
/// `address`.
///
/// On AArch64 the code must be one 4-byte instruction and is patched as by
/// [`plan_patchcode`]. On x86-64 it may not be longer than the current
/// instruction (`PatchTooLong`), and is padded with `NOP` to its length.
pub fn plan_patch_asm(arch: Arch, address: u64, assembled: &[u8], code: &[u8]) -> (r: Result<
    Patch,
    SigHookError,
>)
    ensures
        arch == Arch::AArch64 && assembled@.len() != PATCH_ASM_WIDTH ==> r == Err::<
            Patch,
            SigHookError,
        >(
            SigHookError::AsmSizeMismatch {
                expected: PATCH_ASM_WIDTH,
                actual: assembled@.len() as usize,
            },
        ),
        arch == Arch::AArch64 && assembled@.len() == PATCH_ASM_WIDTH && (address == 0 || address % 4
            != 0) ==> r == Err::<Patch, SigHookError>(SigHookError::InvalidAddress),
        arch == Arch::AArch64 && assembled@.len() == PATCH_ASM_WIDTH && address != 0 && address % 4
            == 0 ==> (r matches Ok(p) && p.address == address && p.bytes@ == assembled@),
        arch == Arch::X86_64 && address == 0 ==> r == Err::<Patch, SigHookError>(
            SigHookError::InvalidAddress,
        ),
        arch == Arch::X86_64 && address != 0 && !x86_64::x86_decodes(code@, address) ==> r == Err::<
            Patch,
            SigHookError,
        >(SigHookError::DecodeFailed),
        arch == Arch::X86_64 && address != 0 && x86_64::x86_decodes(code@, address)
            && assembled@.len() > x86_64::x86_insn_len(code@, address) ==> r == Err::<
            Patch,
            SigHookError,
        >(
            SigHookError::PatchTooLong {
                patch_len: assembled@.len() as usize,
                instruction_len: x86_64::x86_insn_len(code@, address) as usize,
            },
        ),
        arch == Arch::X86_64 && address != 0 && x86_64::x86_decodes(code@, address)
            && assembled@.len() <= x86_64::x86_insn_len(code@, address) ==> (r matches Ok(p)
            && p.address == address && p.bytes@ == assembled@ + nops(
            (x86_64::x86_insn_len(code@, address) - assembled@.len()) as nat,
        )),
{
    match arch {
        Arch::AArch64 => {
            let opcode = to_u32_opcode(assembled)?;
            proof {
                crate::bytes::lemma_from_le32_round_trip(assembled@);
            }
            plan_patchcode(Arch::AArch64, address, opcode, code)
        },
        Arch::X86_64 => {
            if address == 0 {
                return Err(SigHookError::InvalidAddress);
            }
            let len = x86_64::instruction_width(code, address)? as usize;
            if assembled.len() > len {
                return Err(
                    SigHookError::PatchTooLong { patch_len: assembled.len(), instruction_len: len },
                );
            }
            let bytes = pad_with_nops(copy_bytes(assembled), len);
            Ok(Patch { address, bytes })
        },
    }
}

} // verus!
