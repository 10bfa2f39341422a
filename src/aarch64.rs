//! AArch64: trap and branch encodings, trampoline stubs and the register context.
use vstd::prelude::*;
use crate::bytes::{le32, le64, push_le32, push_le64};
use crate::error::SigHookError;

verus! {

/// `BRK #0`, the trap the engine plants.
pub const BRK_OPCODE: u32 = 0xD420_0000;

/// Mask that keeps the bits of `BRK` apart from its 16-bit immediate.
pub const BRK_MASK: u32 = 0xFFE0_001F;

/// `LDR X16, [PC, #8]`.
pub const LDR_X16_LITERAL_8: u32 = 0x5800_0050;

/// `BR X16`.
pub const BR_X16: u32 = 0xD61F_0200;

/// Opcode bits of the unconditional branch `B`.
pub const B_OPCODE: u32 = 0x1400_0000;

/// Whether `opcode` is a `BRK`, whatever its immediate.
pub open spec fn spec_is_brk(opcode: u32) -> bool {
    (opcode & BRK_MASK) == (BRK_OPCODE & BRK_MASK)
}

/// Whether `opcode` is a `BRK`, whatever its immediate.
pub fn is_brk(opcode: u32) -> (r: bool)
    ensures
        r == spec_is_brk(opcode),
{
    (opcode & BRK_MASK) == (BRK_OPCODE & BRK_MASK)
}

/// The signed word offset held in the low 26 bits of a `B` instruction.
pub open spec fn b_imm26(word: u32) -> int {
    let low = (word & 0x3FF_FFFF) as int;
    if low >= 0x200_0000 {
        low - 0x400_0000
    } else {
        low
    }
}

/// Whether a `B` at `from` can reach `to`: the byte offset is a signed 28-bit value.
pub open spec fn b_reaches(from: u64, to: u64) -> bool {
    -0x800_0000 <= to - from < 0x800_0000
}

/// Encodes `B to` placed at `from`.
///
/// Both addresses must be 4-byte aligned (else `InvalidAddress`) and the offset
/// must fit the signed 26-bit word field, ±128 MiB (else `BranchOutOfRange`).
/// The word's low 26 bits, sign-extended and shifted left by two, are `to - from`.
pub fn encode_b(from_address: u64, to_address: u64) -> (r: Result<u32, SigHookError>)
    ensures
        (from_address % 4 != 0 || to_address % 4 != 0) ==> r == Err::<u32, SigHookError>(
            SigHookError::InvalidAddress,
        ),
        (from_address % 4 == 0 && to_address % 4 == 0 && !b_reaches(from_address, to_address))
            ==> r == Err::<u32, SigHookError>(SigHookError::BranchOutOfRange),
        (from_address % 4 == 0 && to_address % 4 == 0 && b_reaches(from_address, to_address))
            ==> r is Ok,
        r matches Ok(w) ==> (w & 0xFC00_0000) == B_OPCODE && b_imm26(w) * 4 == to_address
            - from_address,
{
    if from_address % 4 != 0 || to_address % 4 != 0 {
        return Err(SigHookError::InvalidAddress);
    }
    let bits: u32;
    if to_address >= from_address {
        let dist = to_address - from_address;
        if dist >= 0x800_0000 {
            return Err(SigHookError::BranchOutOfRange);
        }
        bits = (dist / 4) as u32;
    } else {
        let dist = from_address - to_address;
        if dist > 0x800_0000 {
            return Err(SigHookError::BranchOutOfRange);
        }
        bits = (0x400_0000 - dist / 4) as u32;
    }
    assert(bits < 0x400_0000);
    let word = B_OPCODE | bits;
    assert((0x1400_0000u32 | bits) & 0x3FF_FFFF == bits && (0x1400_0000u32 | bits) & 0xFC00_0000
        == 0x1400_0000) by (bit_vector)
        requires
            bits < 0x400_0000u32,
    ;
    Ok(word)
}

/// The 16-byte far jump: `LDR X16, [PC, #8]; BR X16; .quad to`.
pub open spec fn far_jump(to: u64) -> Seq<u8> {
    le32(LDR_X16_LITERAL_8) + le32(BR_X16) + le64(to)
}

/// The far jump to `to_address` for a patch at `from_address`, used where `B`
/// does not reach. `InvalidAddress` when `from_address` is not 4-byte aligned.
pub fn far_jump_stub(from_address: u64, to_address: u64) -> (r: Result<Vec<u8>, SigHookError>)
    ensures
        from_address % 4 != 0 ==> r == Err::<Vec<u8>, SigHookError>(
            SigHookError::InvalidAddress,
        ),
        from_address % 4 == 0 ==> (r matches Ok(v) && v@ == far_jump(to_address)),
{
    if from_address % 4 != 0 {
        return Err(SigHookError::InvalidAddress);
    }
    let mut out: Vec<u8> = Vec::new();
    push_le32(&mut out, LDR_X16_LITERAL_8);
    push_le32(&mut out, BR_X16);
    push_le64(&mut out, to_address);
    assert(out@ =~= far_jump(to_address));
    Ok(out)
}

/// A trampoline: the original instruction, then a far jump to `next_pc`.
pub open spec fn trampoline(original: Seq<u8>, next_pc: u64) -> Seq<u8> {
    original + far_jump(next_pc)
}

/// The trampoline that replays the 4-byte `original` instruction and then jumps
/// to `next_pc`. `InvalidAddress` unless `original` is one instruction word.
pub fn trampoline_code(original: &[u8], next_pc: u64) -> (r: Result<Vec<u8>, SigHookError>)
    ensures
        original@.len() != 4 ==> r == Err::<Vec<u8>, SigHookError>(SigHookError::InvalidAddress),
        original@.len() == 4 ==> (r matches Ok(v) && v@ == trampoline(original@, next_pc)),
{
    if original.len() != 4 {
        return Err(SigHookError::InvalidAddress);
    }
    let mut out: Vec<u8> = Vec::new();
    out.push(original[0]);
    out.push(original[1]);
    out.push(original[2]);
    out.push(original[3]);
    push_le32(&mut out, LDR_X16_LITERAL_8);
    push_le32(&mut out, BR_X16);
    push_le64(&mut out, next_pc);
    assert(out@ =~= trampoline(original@, next_pc));
    Ok(out)
}

/// The AArch64 general-purpose registers `x0` to `x30`, by name.
#[derive(Clone, Copy, Debug, PartialEq, Eq, Structural)]
pub struct XRegistersNamed {
    pub x0: u64,
    pub x1: u64,
    pub x2: u64,
    pub x3: u64,
    pub x4: u64,
    pub x5: u64,
    pub x6: u64,
    pub x7: u64,
    pub x8: u64,
    pub x9: u64,
    pub x10: u64,
    pub x11: u64,
    pub x12: u64,
    pub x13: u64,
    pub x14: u64,
    pub x15: u64,
    pub x16: u64,
    pub x17: u64,
    pub x18: u64,
    pub x19: u64,
    pub x20: u64,
    pub x21: u64,
    pub x22: u64,
    pub x23: u64,
    pub x24: u64,
    pub x25: u64,
    pub x26: u64,
    pub x27: u64,
    pub x28: u64,
    pub x29: u64,
    pub x30: u64,
}

/// The registers of `n` in index order.
pub open spec fn regs_of(n: XRegistersNamed) -> Seq<u64> {
    seq![
        n.x0,
        n.x1,
        n.x2,
        n.x3,
        n.x4,
        n.x5,
        n.x6,
        n.x7,
        n.x8,
        n.x9,
        n.x10,
        n.x11,
        n.x12,
        n.x13,
        n.x14,
        n.x15,
        n.x16,
        n.x17,
        n.x18,
        n.x19,
        n.x20,
        n.x21,
        n.x22,
        n.x23,
        n.x24,
        n.x25,
        n.x26,
        n.x27,
        n.x28,
        n.x29,
        n.x30,
    ]
}

/// The AArch64 CPU state a callback sees: `x0` to `x30` by index, `SP`, `PC`
/// and `CPSR`.
#[derive(Clone, Copy)]
pub struct HookContext {
    pub regs: [u64; 31],
    pub sp: u64,
    pub pc: u64,
    pub cpsr: u32,
    pub pad: u32,
}

impl HookContext {
    /// Register `x<i>`.
    pub fn x(&self, i: usize) -> (r: u64)
        requires
            i < 31,
        ensures
            r == self.regs@[i as int],
    {
        self.regs[i]
    }

    /// Sets register `x<i>` to `value`.
    pub fn set_x(&mut self, i: usize, value: u64)
        requires
            i < 31,
        ensures
            final(self).regs@ == old(self).regs@.update(i as int, value),
            final(self).sp == old(self).sp,
            final(self).pc == old(self).pc,
            final(self).cpsr == old(self).cpsr,
            final(self).pad == old(self).pad,
    {
        self.regs[i] = value;
    }

    /// The general-purpose registers by name.
    pub fn named(&self) -> (r: XRegistersNamed)
        ensures
            regs_of(r) == self.regs@,
    {
        let r = XRegistersNamed {
            x0: self.regs[0],
            x1: self.regs[1],
            x2: self.regs[2],
            x3: self.regs[3],
            x4: self.regs[4],
            x5: self.regs[5],
            x6: self.regs[6],
            x7: self.regs[7],
            x8: self.regs[8],
            x9: self.regs[9],
            x10: self.regs[10],
            x11: self.regs[11],
            x12: self.regs[12],
            x13: self.regs[13],
            x14: self.regs[14],
            x15: self.regs[15],
            x16: self.regs[16],
            x17: self.regs[17],
            x18: self.regs[18],
            x19: self.regs[19],
            x20: self.regs[20],
            x21: self.regs[21],
            x22: self.regs[22],
            x23: self.regs[23],
            x24: self.regs[24],
            x25: self.regs[25],
            x26: self.regs[26],
            x27: self.regs[27],
            x28: self.regs[28],
            x29: self.regs[29],
            x30: self.regs[30],
        };
        assert(regs_of(r) =~= self.regs@);
        r
    }

    /// Sets the general-purpose registers from their named form.
    pub fn set_named(&mut self, n: XRegistersNamed)
        ensures
            final(self).regs@ == regs_of(n),
            final(self).sp == old(self).sp,
            final(self).pc == old(self).pc,
            final(self).cpsr == old(self).cpsr,
            final(self).pad == old(self).pad,
    {
        self.regs[0] = n.x0;
        self.regs[1] = n.x1;
        self.regs[2] = n.x2;
        self.regs[3] = n.x3;
        self.regs[4] = n.x4;
        self.regs[5] = n.x5;
        self.regs[6] = n.x6;
        self.regs[7] = n.x7;
        self.regs[8] = n.x8;
        self.regs[9] = n.x9;
        self.regs[10] = n.x10;
        self.regs[11] = n.x11;
        self.regs[12] = n.x12;
        self.regs[13] = n.x13;
        self.regs[14] = n.x14;
        self.regs[15] = n.x15;
        self.regs[16] = n.x16;
        self.regs[17] = n.x17;
        self.regs[18] = n.x18;
        self.regs[19] = n.x19;
        self.regs[20] = n.x20;
        self.regs[21] = n.x21;
        self.regs[22] = n.x22;
        self.regs[23] = n.x23;
        self.regs[24] = n.x24;
        self.regs[25] = n.x25;
        self.regs[26] = n.x26;
        self.regs[27] = n.x27;
        self.regs[28] = n.x28;
        self.regs[29] = n.x29;
        self.regs[30] = n.x30;
        assert(self.regs@ =~= regs_of(n));
    }
}

} // verus!
