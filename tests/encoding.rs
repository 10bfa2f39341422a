use sighook::aarch64::{encode_b, far_jump_stub, is_brk, BRK_OPCODE};
use sighook::assembly::{asm_source, plan_patch_asm, to_u32_opcode};
use sighook::memory::protect_range_start_len;
use sighook::x86_64::{
    encode_abs_jmp_indirect, encode_absolute_jump, encode_jmp_rel32, int3_opcode, is_int3,
};
use sighook::{instruction_width, trampoline_code, Arch, SigHookError};

fn b_offset(word: u32) -> i64 {
    let low = (word & 0x03FF_FFFF) as i64;
    let imm = if low >= 0x0200_0000 { low - 0x0400_0000 } else { low };
    imm * 4
}

#[test]
fn encode_b_forward() {
    assert_eq!(encode_b(0x1000, 0x2000), Ok(0x1400_0400));
}

#[test]
fn encode_b_backward() {
    assert_eq!(encode_b(0x2000, 0x1000), Ok(0x17FF_FC00));
}

#[test]
fn encode_b_offset_round_trips() {
    let pairs: [(u64, u64); 6] = [
        (0x1000, 0x1000),
        (0x1000, 0x1004),
        (0x4000_0000, 0x3FFF_FFFC),
        (0x10_0000, 0x10_0000 + 0x07FF_FFFC),
        (0x1000_0000, 0x1000_0000 - 0x0800_0000),
        (0xFFFF_FFFF_FFFF_FFF0, 0xFFFF_FFFF_FFF0_0000),
    ];
    for (from, to) in pairs {
        let word = encode_b(from, to).unwrap();
        assert_eq!(word & 0xFC00_0000, 0x1400_0000);
        assert_eq!(b_offset(word), (to as i128 - from as i128) as i64);
    }
}

#[test]
fn encode_b_range_limits() {
    assert_eq!(encode_b(0, 0x07FF_FFFC), Ok(0x15FF_FFFF));
    assert_eq!(encode_b(0, 0x0800_0000), Err(SigHookError::BranchOutOfRange));
    assert_eq!(encode_b(0x0800_0000, 0), Ok(0x1600_0000));
    assert_eq!(encode_b(0x0800_0004, 0), Err(SigHookError::BranchOutOfRange));
}

#[test]
fn encode_b_rejects_misaligned() {
    assert_eq!(encode_b(0x1002, 0x2000), Err(SigHookError::InvalidAddress));
    assert_eq!(encode_b(0x1000, 0x2001), Err(SigHookError::InvalidAddress));
}

#[test]
fn far_jump_stub_layout() {
    let stub = far_jump_stub(0x1000, 0x1122_3344_5566_7788).unwrap();
    assert_eq!(
        stub,
        vec![
            0x50, 0x00, 0x00, 0x58, 0x00, 0x02, 0x1F, 0xD6, 0x88, 0x77, 0x66, 0x55, 0x44, 0x33,
            0x22, 0x11
        ]
    );
    assert_eq!(far_jump_stub(0x1001, 0x2000), Err(SigHookError::InvalidAddress));
}

#[test]
fn brk_recognised_with_any_immediate() {
    assert!(is_brk(BRK_OPCODE));
    assert!(is_brk(0xD420_0020));
    assert!(is_brk(0xD43F_FFE0));
    assert!(!is_brk(0xD503_201F));
    assert!(!is_brk(0xD420_0001));
}

#[test]
fn int3_byte() {
    assert_eq!(int3_opcode(), 0xCC);
    assert!(is_int3(0xCC));
    assert!(!is_int3(0x90));
}

#[test]
fn jmp_rel32_encodings() {
    assert_eq!(encode_jmp_rel32(0x1000, 0x2000), Ok(vec![0xE9, 0xFB, 0x0F, 0x00, 0x00]));
    assert_eq!(encode_jmp_rel32(0x2000, 0x1000), Ok(vec![0xE9, 0xFB, 0xEF, 0xFF, 0xFF]));
    assert_eq!(encode_jmp_rel32(0x1000, 0x1005), Ok(vec![0xE9, 0, 0, 0, 0]));
}

#[test]
fn jmp_rel32_range_limits() {
    assert_eq!(
        encode_jmp_rel32(0, 0x7FFF_FFFF + 5),
        Ok(vec![0xE9, 0xFF, 0xFF, 0xFF, 0x7F])
    );
    assert_eq!(encode_jmp_rel32(0, 0x8000_0000 + 5), Err(SigHookError::BranchOutOfRange));
    assert_eq!(
        encode_jmp_rel32(0x8000_0000, 5),
        Ok(vec![0xE9, 0x00, 0x00, 0x00, 0x80])
    );
    assert_eq!(encode_jmp_rel32(0x8000_0001, 5), Err(SigHookError::BranchOutOfRange));
}

#[test]
fn absolute_jump_layouts() {
    assert_eq!(
        encode_absolute_jump(0x1122_3344_5566_7788),
        vec![0x48, 0xB8, 0x88, 0x77, 0x66, 0x55, 0x44, 0x33, 0x22, 0x11, 0xFF, 0xE0]
    );
    assert_eq!(
        encode_abs_jmp_indirect(0x1122_3344_5566_7788),
        vec![0xFF, 0x25, 0, 0, 0, 0, 0x88, 0x77, 0x66, 0x55, 0x44, 0x33, 0x22, 0x11]
    );
}

#[test]
fn x86_instruction_widths() {
    assert_eq!(instruction_width(Arch::X86_64, &[0x55], 0x1000), Ok(1));
    assert_eq!(instruction_width(Arch::X86_64, &[0x48, 0x89, 0xE5, 0x90], 0x1000), Ok(3));
    assert_eq!(instruction_width(Arch::X86_64, &[0x8D, 0x04, 0x37, 0xC3], 0x1000), Ok(3));
    let movabs = [0x48, 0xB8, 1, 2, 3, 4, 5, 6, 7, 8, 0xC3];
    assert_eq!(instruction_width(Arch::X86_64, &movabs, 0x1000), Ok(10));
    let longest = [
        0x66, 0x66, 0x66, 0x66, 0x66, 0x66, 0x2E, 0x0F, 0x1F, 0x84, 0x00, 0x00, 0x00, 0x00, 0x00,
    ];
    assert_eq!(instruction_width(Arch::X86_64, &longest, 0x1000), Ok(15));
}

#[test]
fn x86_width_in_range_over_a_sequence() {
    let code = [
        0x55, 0x48, 0x89, 0xE5, 0x89, 0x7D, 0xFC, 0x89, 0x75, 0xF8, 0x8B, 0x55, 0xFC, 0x8B, 0x45,
        0xF8, 0x01, 0xD0, 0x5D, 0xC3,
    ];
    let expected = [1u8, 3, 3, 3, 3, 3, 2, 1, 1];
    let mut at = 0usize;
    for want in expected {
        let n = instruction_width(Arch::X86_64, &code[at..], 0x1000 + at as u64).unwrap();
        assert!((1..=15).contains(&n));
        assert_eq!(n, want);
        at += n as usize;
    }
    assert_eq!(at, code.len());
}

#[test]
fn x86_width_decode_failures() {
    assert_eq!(instruction_width(Arch::X86_64, &[0x06], 0x1000), Err(SigHookError::DecodeFailed));
    assert_eq!(instruction_width(Arch::X86_64, &[], 0x1000), Err(SigHookError::DecodeFailed));
    assert_eq!(
        instruction_width(Arch::X86_64, &[0x48, 0xB8, 0x00], 0x1000),
        Err(SigHookError::DecodeFailed)
    );
}

#[test]
fn aarch64_width_is_one_word() {
    assert_eq!(instruction_width(Arch::AArch64, &[0x00, 0x7D, 0x09, 0x1B], 0x1000), Ok(4));
}

#[test]
fn protect_range_within_one_page() {
    assert_eq!(protect_range_start_len(0x1234, 0x10, 0x1000), (0x1000, 0x1000));
}

#[test]
fn protect_range_across_pages() {
    assert_eq!(protect_range_start_len(0x1FFE, 4, 0x1000), (0x1000, 0x2000));
    assert_eq!(protect_range_start_len(0x2000, 0x1000, 0x1000), (0x2000, 0x1000));
    assert_eq!(protect_range_start_len(0x2000, 0x1001, 0x1000), (0x2000, 0x2000));
}

#[test]
fn aarch64_trampoline_layout() {
    let code = trampoline_code(Arch::AArch64, 0x9000, 0x1000, &[0x00, 0x01, 0x09, 0x0B], 4).unwrap();
    assert_eq!(
        code,
        vec![
            0x00, 0x01, 0x09, 0x0B, 0x50, 0x00, 0x00, 0x58, 0x00, 0x02, 0x1F, 0xD6, 0x04, 0x10, 0x00,
            0x00, 0x00, 0x00, 0x00, 0x00
        ]
    );
    assert_eq!(
        trampoline_code(Arch::AArch64, 0x9000, 0x1000, &[0x00, 0x01, 0x09], 3),
        Err(SigHookError::InvalidAddress)
    );
}

#[test]
fn x86_trampoline_near_and_far() {
    let near = trampoline_code(Arch::X86_64, 0x10000, 0x11000, &[0x48, 0x89, 0xE5], 3).unwrap();
    assert_eq!(near, vec![0x48, 0x89, 0xE5, 0xE9, 0xFB, 0x0F, 0x00, 0x00]);
    let far = trampoline_code(Arch::X86_64, 0x7000_0000_0000, 0x1000, &[0x55], 1).unwrap();
    assert_eq!(
        far,
        vec![0x55, 0xFF, 0x25, 0, 0, 0, 0, 0x01, 0x10, 0, 0, 0, 0, 0, 0]
    );
    assert_eq!(
        trampoline_code(Arch::X86_64, 0x10000, 0x11000, &[], 1),
        Err(SigHookError::InvalidAddress)
    );
}

#[test]
fn assembled_word_size_checked() {
    assert_eq!(to_u32_opcode(&[0x00, 0x7D, 0x09, 0x1B]), Ok(0x1B09_7D00));
    assert_eq!(
        to_u32_opcode(&[0x00, 0x7D, 0x09]),
        Err(SigHookError::AsmSizeMismatch { expected: 4, actual: 3 })
    );
    assert_eq!(
        to_u32_opcode(&[0, 0, 0, 0, 0, 0, 0, 0]),
        Err(SigHookError::AsmSizeMismatch { expected: 4, actual: 8 })
    );
}

#[test]
fn assembly_text_is_trimmed() {
    assert_eq!(asm_source("  mul w0, w8, w9 \n"), Ok(String::from("mul w0, w8, w9")));
    assert_eq!(asm_source("nop"), Ok(String::from("nop")));
    assert_eq!(asm_source(" \t\n "), Err(SigHookError::AsmEmptyInput));
    assert_eq!(asm_source(""), Err(SigHookError::AsmEmptyInput));
}

#[test]
fn assembled_patch_plans() {
    let p = plan_patch_asm(Arch::AArch64, 0x1000, &[0x00, 0x7D, 0x09, 0x1B], &[]).unwrap();
    assert_eq!((p.address, p.bytes), (0x1000, vec![0x00, 0x7D, 0x09, 0x1B]));
    assert_eq!(
        plan_patch_asm(Arch::AArch64, 0x1000, &[0x1F, 0x20], &[]),
        Err(SigHookError::AsmSizeMismatch { expected: 4, actual: 2 })
    );
    let code = [0xB8, 0x2A, 0x00, 0x00, 0x00, 0xC3];
    let p = plan_patch_asm(Arch::X86_64, 0x2000, &[0x0F, 0xAF, 0xC2], &code).unwrap();
    assert_eq!(p.bytes, vec![0x0F, 0xAF, 0xC2, 0x90, 0x90]);
    assert_eq!(
        plan_patch_asm(Arch::X86_64, 0x2000, &[0x0F, 0xAF, 0xC2], &[0x01, 0xD0, 0xC3]),
        Err(SigHookError::PatchTooLong { patch_len: 3, instruction_len: 2 })
    );
    assert_eq!(
        plan_patch_asm(Arch::X86_64, 0, &[0x90], &code),
        Err(SigHookError::InvalidAddress)
    );
}
