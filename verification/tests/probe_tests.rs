//! Kprobe registration, classification, emulation and breakpoint behaviour,
//! driven through the public interface on concrete instruction encodings.

use kprobes::code_mem::{install_breakpoint, remove_breakpoint, CodeMemory, EBREAK};
use kprobes::insn::{classify_word, emulate_execution, insn_length, SingleStepType};
use kprobes::kprobes::{register_kprobe, unregister_kprobe};
use kprobes::machine::TrapState;
use kprobes::probes::{breakpoint_handler, HandlerRef, Instrumentation, KProbeArgs, ProbeHandler};

// addi x1, x1, 1
const ADDI: u32 = 0x00108093;
// beq x1, x2, +8
const BEQ: u32 = 0x00208463;
// jal x0, +16
const JAL: u32 = 0x0100006f;
// jalr x0, 0(x1)
const JALR: u32 = 0x00008067;
// c.j +4
const CJ: u16 = 0xa011;

fn fresh_instr() -> Instrumentation {
    let mut code = CodeMemory::new();
    // addi at 0x1000, beq at 0x1004, jal at 0x1008, c.j at 0x100c,
    // jalr at 0x100e, branch with undefined funct3 at 0x1012
    code.write(0x1000, (ADDI & 0xffff) as u16);
    code.write(0x1002, (ADDI >> 16) as u16);
    code.write(0x1004, (BEQ & 0xffff) as u16);
    code.write(0x1006, (BEQ >> 16) as u16);
    code.write(0x1008, (JAL & 0xffff) as u16);
    code.write(0x100a, (JAL >> 16) as u16);
    code.write(0x100c, CJ);
    code.write(0x100e, (JALR & 0xffff) as u16);
    code.write(0x1010, (JALR >> 16) as u16);
    code.write(0x1012, 0x2063);
    code.write(0x1014, 0x0000);
    Instrumentation::new(code, 0x20000, 4, 0x30000, 4)
}

fn user_args(id: u64) -> KProbeArgs {
    KProbeArgs {
        pre_handler: ProbeHandler::User(HandlerRef { id }),
        post_handler: None,
        user_data: id,
    }
}

#[test]
fn classify_standard_instructions() {
    assert_eq!(insn_length((ADDI & 0xffff) as u16), 4);
    assert_eq!(insn_length(CJ), 2);
    assert_eq!(classify_word(ADDI, 4), SingleStepType::Execute);
    assert_eq!(classify_word(BEQ, 4), SingleStepType::Emulate);
    assert_eq!(classify_word(JAL, 4), SingleStepType::Emulate);
    assert_eq!(classify_word(JALR, 4), SingleStepType::Emulate);
    assert_eq!(classify_word(CJ as u32, 2), SingleStepType::Emulate);
    // branch with undefined comparison code: the decoder refuses it
    assert_eq!(classify_word(0x00002063, 4), SingleStepType::Unsupported);
}

#[test]
fn register_then_hit_execute_probe_resumes_after_instruction() {
    // an Execute-classified instruction resumes at A + instruction_length(A)
    // with the registers untouched; the staged copy is owed for the step
    let mut instr = fresh_instr();
    assert!(register_kprobe(&mut instr, 0x1000, user_args(7)));
    let mut tf = TrapState::new(0x1000);
    tf.set_reg(5, 99);
    let outcome = breakpoint_handler(&mut instr, &mut tf);
    assert!(outcome.handled);
    assert_eq!(tf.pc, 0x1004);
    assert_eq!(tf.get_reg(5), 99);
    assert_eq!(outcome.invocations.len(), 1);
    assert_eq!(outcome.invocations[0].handler, HandlerRef { id: 7 });
    assert_eq!(outcome.invocations[0].user_data, 7);
    let step = outcome.single_step.expect("an out-of-line step is owed");
    assert_eq!(step, 0x20000);
}

#[test]
fn emulated_branch_taken_and_not_taken() {
    // compared registers equal: the taken target; unequal: the next insn
    let mut instr = fresh_instr();
    assert!(register_kprobe(&mut instr, 0x1004, user_args(1)));
    let mut tf = TrapState::new(0x1004);
    tf.set_reg(1, 5);
    tf.set_reg(2, 5);
    let outcome = breakpoint_handler(&mut instr, &mut tf);
    assert!(outcome.handled);
    assert_eq!(outcome.single_step, None);
    assert_eq!(tf.pc, 0x1004 + 8);

    let mut tf2 = TrapState::new(0x1004);
    tf2.set_reg(1, 5);
    tf2.set_reg(2, 6);
    let outcome2 = breakpoint_handler(&mut instr, &mut tf2);
    assert!(outcome2.handled);
    assert_eq!(tf2.pc, 0x1004 + 4);
}

#[test]
fn emulated_jumps_compute_their_targets() {
    let mut instr = fresh_instr();
    assert!(register_kprobe(&mut instr, 0x1008, user_args(2)));
    let mut tf = TrapState::new(0x1008);
    let outcome = breakpoint_handler(&mut instr, &mut tf);
    assert!(outcome.handled);
    assert_eq!(tf.pc, 0x1008 + 16);

    assert!(register_kprobe(&mut instr, 0x100c, user_args(3)));
    let mut tf2 = TrapState::new(0x100c);
    let outcome2 = breakpoint_handler(&mut instr, &mut tf2);
    assert!(outcome2.handled);
    assert_eq!(tf2.pc, 0x100c + 4);

    assert!(register_kprobe(&mut instr, 0x100e, user_args(4)));
    let mut tf3 = TrapState::new(0x100e);
    tf3.set_reg(1, 0x4445);
    let outcome3 = breakpoint_handler(&mut instr, &mut tf3);
    assert!(outcome3.handled);
    // target (x1 + 0) with the low bit cleared
    assert_eq!(tf3.pc, 0x4444);
}

#[test]
fn emulate_writes_link_register() {
    // jal x5, +16 writes x5 = pc + 4 before jumping
    let jal_x5: u32 = 0x0100006f | (5 << 7);
    let mut tf = TrapState::new(0);
    emulate_execution(&mut tf, jal_x5, 0x2000);
    assert_eq!(tf.pc, 0x2010);
    assert_eq!(tf.get_reg(5), 0x2004);
}

#[test]
fn branch_comparison_is_signed_where_the_shape_demands() {
    // blt x1, x2, +8: minus one is less than one as a signed comparison
    let blt: u32 = 0x0020c463;
    let mut tf = TrapState::new(0x2000);
    tf.set_reg(1, u64::MAX);
    tf.set_reg(2, 1);
    emulate_execution(&mut tf, blt, 0x2000);
    assert_eq!(tf.pc, 0x2008);

    // bltu x1, x2, +8: the same values compare unsigned, not taken
    let bltu: u32 = 0x0020e463;
    let mut tf2 = TrapState::new(0x2000);
    tf2.set_reg(1, u64::MAX);
    tf2.set_reg(2, 1);
    emulate_execution(&mut tf2, bltu, 0x2000);
    assert_eq!(tf2.pc, 0x2004);
}

#[test]
fn emulated_auipc_writes_destination() {
    // auipc x5, 0x1: x5 = pc + 0x1000, falling through
    let auipc: u32 = 0x00001297;
    assert_eq!(classify_word(auipc, 4), SingleStepType::Emulate);
    let mut tf = TrapState::new(0x2000);
    emulate_execution(&mut tf, auipc, 0x2000);
    assert_eq!(tf.pc, 0x2004);
    assert_eq!(tf.get_reg(5), 0x3000);
}

#[test]
fn backward_jump_offsets_are_signed() {
    // jal x0, -16: imm[20]=1 sign path
    // encoding: imm[10:1]=0b1111111000, imm[11]=1, imm[19:12]=0xff, imm[20]=1
    let jal_back: u32 = (1 << 31) | (0b1111111000 << 21) | (1 << 20) | (0xff << 12) | 0x6f;
    let mut tf = TrapState::new(0x2000);
    emulate_execution(&mut tf, jal_back, 0x2000);
    assert_eq!(tf.pc, 0x2000 - 16);
}

#[test]
fn duplicate_registration_is_refused() {
    // the second registration at one address fails and leaves one probe
    let mut instr = fresh_instr();
    assert!(register_kprobe(&mut instr, 0x1000, user_args(1)));
    assert!(!register_kprobe(&mut instr, 0x1000, user_args(2)));
    let mut tf = TrapState::new(0x1000);
    let outcome = breakpoint_handler(&mut instr, &mut tf);
    assert_eq!(outcome.invocations.len(), 1);
    assert_eq!(outcome.invocations[0].handler, HandlerRef { id: 1 });
    assert!(unregister_kprobe(&mut instr, 0x1000));
    assert!(!unregister_kprobe(&mut instr, 0x1000));
}

#[test]
fn unsupported_instruction_refuses_registration() {
    let mut instr = fresh_instr();
    assert!(!register_kprobe(&mut instr, 0x1012, user_args(1)));
    // an unmapped address is refused too
    assert!(!register_kprobe(&mut instr, 0x9000, user_args(1)));
}

#[test]
fn breakpoint_round_trip_restores_bytes() {
    // install then remove restores byte-identical content
    let mut code = CodeMemory::new();
    code.write(0x1000, 0x8093);
    let orig = install_breakpoint(&mut code, 0x1000).expect("mapped address");
    assert_eq!(orig, 0x8093);
    assert_eq!(code.read(0x1000), Some(EBREAK));
    remove_breakpoint(&mut code, 0x1000, orig);
    assert_eq!(code.read(0x1000), Some(0x8093));
    assert_eq!(install_breakpoint(&mut code, 0x2000), None);
}

#[test]
fn register_unregister_round_trip_restores_code() {
    let mut instr = fresh_instr();
    assert!(register_kprobe(&mut instr, 0x1000, user_args(1)));
    assert_eq!(instr.code.read(0x1000), Some(EBREAK));
    assert_eq!(instr.code.read(0x1002), Some((ADDI >> 16) as u16));
    assert!(unregister_kprobe(&mut instr, 0x1000));
    assert_eq!(instr.code.read(0x1000), Some((ADDI & 0xffff) as u16));
    assert_eq!(instr.code.read(0x1002), Some((ADDI >> 16) as u16));
}

#[test]
fn staged_buffer_holds_original_instruction() {
    let mut instr = fresh_instr();
    assert!(register_kprobe(&mut instr, 0x1000, user_args(1)));
    let probe = instr.kprobes.get(&0x1000).expect("registered");
    let buffer = probe.buffer.as_ref().expect("an Execute probe is staged");
    assert_eq!(buffer.content, vec![(ADDI & 0xffff) as u16, (ADDI >> 16) as u16, EBREAK]);
    assert_eq!(buffer.addr, 0x20000);
}

#[test]
fn unknown_trap_is_not_ours() {
    let mut instr = fresh_instr();
    let mut tf = TrapState::new(0x1ff0);
    let outcome = breakpoint_handler(&mut instr, &mut tf);
    assert!(!outcome.handled);
    assert_eq!(tf.pc, 0x1ff0);
    assert!(outcome.invocations.is_empty());
}

#[test]
fn post_handler_fires_after_pre() {
    let mut instr = fresh_instr();
    let args = KProbeArgs {
        pre_handler: ProbeHandler::User(HandlerRef { id: 1 }),
        post_handler: Some(HandlerRef { id: 2 }),
        user_data: 9,
    };
    assert!(register_kprobe(&mut instr, 0x1000, args));
    let mut tf = TrapState::new(0x1000);
    let outcome = breakpoint_handler(&mut instr, &mut tf);
    assert_eq!(outcome.invocations.len(), 2);
    assert_eq!(outcome.invocations[0].handler, HandlerRef { id: 1 });
    assert_eq!(outcome.invocations[1].handler, HandlerRef { id: 2 });
}

#[test]
fn staging_buffers_are_exhaustible() {
    // four buffer slots: the fifth Execute probe is refused, Emulate probes
    // still register
    let mut code = CodeMemory::new();
    for k in 0..6u64 {
        let addr = 0x1000 + 4 * k;
        code.write(addr, (ADDI & 0xffff) as u16);
        code.write(addr + 2, (ADDI >> 16) as u16);
    }
    code.write(0x2000, (BEQ & 0xffff) as u16);
    code.write(0x2002, (BEQ >> 16) as u16);
    let mut instr = Instrumentation::new(code, 0x20000, 4, 0x30000, 4);
    for k in 0..4u64 {
        assert!(register_kprobe(&mut instr, 0x1000 + 4 * k, user_args(k)));
    }
    assert!(!register_kprobe(&mut instr, 0x1010, user_args(4)));
    assert!(register_kprobe(&mut instr, 0x2000, user_args(5)));
}
