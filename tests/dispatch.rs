use sighook::aarch64::{HookContext as ArmContext, XRegistersNamed};
use sighook::dispatch::{
    chain_previous, is_trap, lookup_trap, resume_after_callback, trap_address, Chain,
    PreviousAction, Resume,
};
use sighook::x86_64::HookContext as X86Context;
use sighook::{
    instrument, instrument_no_original, plan_patch_bytes, prepare_instrument, Arch, Hooks,
};

fn x86_context(rip: u64) -> X86Context {
    X86Context {
        r8: 0,
        r9: 0,
        r10: 0,
        r11: 0,
        r12: 0,
        r13: 0,
        r14: 0,
        r15: 0,
        rdi: 3,
        rsi: 4,
        rbp: 0,
        rbx: 0,
        rdx: 0,
        rax: 0,
        rcx: 0,
        rsp: 0x7000,
        rip,
        eflags: 0x202,
    }
}

fn arm_context(pc: u64) -> ArmContext {
    ArmContext { regs: [0; 31], sp: 0x7000, pc, cpsr: 0, pad: 0 }
}

#[test]
fn trap_addresses_from_program_counter() {
    assert_eq!(trap_address(Arch::AArch64, 0x1000), Some(0x1000));
    assert_eq!(trap_address(Arch::X86_64, 0x2001), Some(0x2000));
    assert_eq!(trap_address(Arch::X86_64, 0), None);
}

#[test]
fn trap_opcodes_recognised() {
    assert!(is_trap(Arch::AArch64, &[0x00, 0x00, 0x20, 0xD4]));
    assert!(is_trap(Arch::AArch64, &[0x20, 0x00, 0x20, 0xD4]));
    assert!(!is_trap(Arch::AArch64, &[0x1F, 0x20, 0x03, 0xD5]));
    assert!(!is_trap(Arch::AArch64, &[0x00, 0x00, 0x20]));
    assert!(is_trap(Arch::X86_64, &[0xCC, 0x90]));
    assert!(!is_trap(Arch::X86_64, &[0x90]));
    assert!(!is_trap(Arch::X86_64, &[]));
}

#[test]
fn trap_reaches_registered_slot_only() {
    let mut hooks = Hooks::new();
    let plan =
        prepare_instrument(&hooks, Arch::X86_64, 0x2000, false, &[0x01, 0xD0, 0xC3, 0x90]).unwrap();
    assert_eq!(instrument_no_original(&mut hooks, &plan, 0x5555), Ok(0x90C3_D001));
    let slot = lookup_trap(&hooks, Arch::X86_64, 0x2000, &[0xCC, 0xD0]).unwrap();
    assert_eq!(slot.callback, 0x5555);
    assert!(lookup_trap(&hooks, Arch::X86_64, 0x2004, &[0xCC]).is_none());
    assert!(lookup_trap(&hooks, Arch::X86_64, 0x2000, &[0x01, 0xD0]).is_none());
}

#[test]
fn resume_where_callback_moved_pc() {
    let mut hooks = Hooks::new();
    let plan = prepare_instrument(&hooks, Arch::AArch64, 0x1000, true, &[0, 1, 9, 0x0B]).unwrap();
    instrument(&mut hooks, &plan, 1, 0x9000).unwrap();
    let slot = hooks.slot_by_address(0x1000).unwrap();
    assert_eq!(resume_after_callback(&slot, 0x1000, 0x1000, 0x5000), Resume::Stay);
}

#[test]
fn resume_at_trampoline_when_replaying() {
    let mut hooks = Hooks::new();
    let plan = prepare_instrument(&hooks, Arch::AArch64, 0x1000, true, &[0, 1, 9, 0x0B]).unwrap();
    instrument(&mut hooks, &plan, 1, 0x9000).unwrap();
    let slot = hooks.slot_by_address(0x1000).unwrap();
    assert_eq!(resume_after_callback(&slot, 0x1000, 0x1000, 0x1000), Resume::Jump(0x9000));
}

#[test]
fn resume_past_instruction_when_skipping() {
    let mut hooks = Hooks::new();
    let plan =
        prepare_instrument(&hooks, Arch::X86_64, 0x2000, false, &[0x48, 0x89, 0xE5, 0x5D]).unwrap();
    assert_eq!(instrument_no_original(&mut hooks, &plan, 1), Ok(0x5DE5_8948));
    let slot = hooks.slot_by_address(0x2000).unwrap();
    assert_eq!(resume_after_callback(&slot, 0x2000, 0x2001, 0x2001), Resume::Jump(0x2003));
}

#[test]
fn chaining_follows_previous_disposition() {
    assert_eq!(chain_previous(None, 0x4444), Chain::RaiseDefault);
    let ign = PreviousAction { handler: 1, siginfo: false };
    assert_eq!(chain_previous(Some(ign), 0x4444), Chain::Suppress);
    let dfl = PreviousAction { handler: 0, siginfo: true };
    assert_eq!(chain_previous(Some(dfl), 0x4444), Chain::RaiseDefault);
    let own = PreviousAction { handler: 0x4444, siginfo: true };
    assert_eq!(chain_previous(Some(own), 0x4444), Chain::RaiseDefault);
    let info = PreviousAction { handler: 0x8888, siginfo: true };
    assert_eq!(chain_previous(Some(info), 0x4444), Chain::CallSigInfo(0x8888));
    let simple = PreviousAction { handler: 0x8888, siginfo: false };
    assert_eq!(chain_previous(Some(simple), 0x4444), Chain::CallSimple(0x8888));
}

#[test]
fn registers_by_index_and_by_name() {
    let mut ctx = arm_context(0x1000);
    ctx.set_x(8, 40);
    ctx.set_x(9, 2);
    assert_eq!(ctx.x(8), 40);
    let mut named = ctx.named();
    assert_eq!((named.x8, named.x9), (40, 2));
    named.x0 = 99;
    named.x30 = 0xABCD;
    ctx.set_named(named);
    assert_eq!(ctx.x(0), 99);
    assert_eq!(ctx.regs[30], 0xABCD);
    assert_eq!(ctx.pc, 0x1000);
    let copy: XRegistersNamed = ctx.named();
    assert_eq!(copy, named);
}

#[test]
fn instrument_then_callback_sets_result_and_replays() {
    let mut hooks = Hooks::new();
    let add = [0x8D, 0x04, 0x37, 0xC3, 0x90];
    let plan = prepare_instrument(&hooks, Arch::X86_64, 0x2000, true, &add).unwrap();
    assert!(plan.needs_trampoline);
    assert_eq!(instrument(&mut hooks, &plan, 0x42, 0x9000), Ok(0xC337_048D));
    let address = trap_address(Arch::X86_64, 0x2001).unwrap();
    let slot = lookup_trap(&hooks, Arch::X86_64, address, &[0xCC, 0x04, 0x37, 0xC3]).unwrap();
    let mut ctx = x86_context(0x2001);
    let before = ctx.rip;
    ctx.rax = 42;
    assert_eq!(slot.callback, 0x42);
    assert_eq!(resume_after_callback(&slot, address, before, ctx.rip), Resume::Jump(0x9000));
    assert_eq!(ctx.rax, 42);
}

#[test]
fn instrument_no_original_skips_patched_instruction() {
    let mut hooks = Hooks::new();
    let add = [0x00, 0x01, 0x09, 0x0B];
    let plan = prepare_instrument(&hooks, Arch::AArch64, 0x1000, false, &add).unwrap();
    instrument_no_original(&mut hooks, &plan, 0x99).unwrap();
    let slot = lookup_trap(&hooks, Arch::AArch64, 0x1000, &[0x00, 0x00, 0x20, 0xD4]).unwrap();
    let mut ctx = arm_context(0x1000);
    ctx.set_x(0, 99);
    assert_eq!(resume_after_callback(&slot, 0x1000, 0x1000, ctx.pc), Resume::Jump(0x1004));
    assert_eq!(ctx.x(0), 99);
}

#[test]
fn restored_bytes_no_longer_reach_registry() {
    let mut hooks = Hooks::new();
    let mut mem = vec![0x00, 0x01, 0x09, 0x0B];
    let plan = prepare_instrument(&hooks, Arch::AArch64, 0x1000, true, &mem).unwrap();
    let replaced: Vec<u8> = mem.splice(0..4, plan.trap.iter().copied()).collect();
    instrument(&mut hooks, &plan, 1, 0x9000).unwrap();
    assert!(lookup_trap(&hooks, Arch::AArch64, 0x1000, &mem).is_some());
    let restore = plan_patch_bytes(0x1000, &replaced).unwrap();
    mem.splice(0..4, restore.bytes.iter().copied());
    assert_eq!(mem, vec![0x00, 0x01, 0x09, 0x0B]);
    assert!(lookup_trap(&hooks, Arch::AArch64, 0x1000, &mem).is_none());
    assert_eq!(chain_previous(None, 0x4444), Chain::RaiseDefault);
}
