//! Instruction classification and emulation for 64-bit RISC-V.
//!
//! A probed instruction is replaced by a trap encoding, so resuming after a
//! probe hit must replay the original instruction. Most instructions can be
//! copied into a staging buffer and single-stepped there (`Execute`), but an
//! instruction whose effect depends on its own address — a relative jump or
//! branch, a jump-and-link, `auipc` — would compute the wrong result out of
//! line, so its effect is computed directly on the saved register state
//! (`Emulate`). Words the decoder does not recognise are `Unsupported` and
//! probe registration refuses them.
//!
//! The emulatable shapes are defined here bit by bit, and the emulator is
//! verified against those definitions. Whether any other word is a valid
//! instruction is delegated to the `riscv_decode` crate behind a trusted
//! wrapper.

use vstd::prelude::*;
use crate::machine::TrapState;

verus! {

/// How a probed instruction is replayed once the probe has fired.
#[derive(Clone, Copy, Debug, PartialEq, Eq, Structural)]
pub enum SingleStepType {
    /// Safe to copy into a buffer and single-step out of line.
    Execute,
    /// Its effect depends on the program counter; computed in place.
    Emulate,
    /// Not recognised; registration must fail.
    Unsupported,
}

/// Name for what `riscv_decode::decode` accepts: true exactly when the word
/// is an instruction encoding the decoder recognises.
pub uninterp spec fn insn_decodes(word: u32) -> bool;

/// Relies on `riscv_decode::decode`: reports whether the word is an
/// instruction encoding that the decoder recognises. The result is a
/// function of the word alone.
#[verifier::external_body]
fn word_decodes(word: u32) -> (r: bool)
    ensures
        r == insn_decodes(word),
{
    riscv_decode::decode(word).is_ok()
}

/// Length in bytes of the instruction whose low halfword is `low`: 2 for a
/// compressed encoding, 4 for a standard one. Longer encodings are reported
/// as 6 and treated as unsupported.
pub open spec fn spec_insn_length(low: u16) -> u64 {
    if low & 0b11 != 0b11 {
        2
    } else if low & 0b11100 != 0b11100 {
        4
    } else {
        6
    }
}

/// Length in bytes of the instruction whose low halfword is `low`.
pub fn insn_length(low: u16) -> (r: u64)
    ensures
        r == spec_insn_length(low),
{
    if low & 0b11 != 0b11 {
        2
    } else if low & 0b11100 != 0b11100 {
        4
    } else {
        6
    }
}

// Fields of a 32-bit encoding.

pub open spec fn opcode_of(w: u32) -> u32 {
    w & 0x7f
}

pub open spec fn funct3_of(w: u32) -> u32 {
    (w >> 12) & 0x7
}

pub open spec fn rd_of(w: u32) -> u32 {
    (w >> 7) & 0x1f
}

pub open spec fn rs1_of(w: u32) -> u32 {
    (w >> 15) & 0x1f
}

pub open spec fn rs2_of(w: u32) -> u32 {
    (w >> 20) & 0x1f
}

// The emulated shapes, 32-bit encodings.

pub open spec fn is_jal(w: u32) -> bool {
    opcode_of(w) == 0x6f
}

pub open spec fn is_jalr(w: u32) -> bool {
    opcode_of(w) == 0x67
}

pub open spec fn is_auipc(w: u32) -> bool {
    opcode_of(w) == 0x17
}

/// A conditional branch with one of the six defined comparisons.
pub open spec fn is_cond_branch(w: u32) -> bool {
    opcode_of(w) == 0x63 && funct3_of(w) != 2 && funct3_of(w) != 3
}

// The emulated shapes, compressed encodings (quadrant 1).

pub open spec fn c_funct3_of(h: u16) -> u16 {
    (h >> 13) & 0x7
}

pub open spec fn is_c_j(h: u16) -> bool {
    h & 0b11 == 0b01 && c_funct3_of(h) == 0b101
}

pub open spec fn is_c_beqz(h: u16) -> bool {
    h & 0b11 == 0b01 && c_funct3_of(h) == 0b110
}

pub open spec fn is_c_bnez(h: u16) -> bool {
    h & 0b11 == 0b01 && c_funct3_of(h) == 0b111
}

/// The emulated shapes among compressed encodings.
pub open spec fn is_emulated_c(h: u16) -> bool {
    is_c_j(h) || is_c_beqz(h) || is_c_bnez(h)
}

/// The emulated shapes among standard 32-bit encodings.
pub open spec fn is_emulated_32(w: u32) -> bool {
    is_jal(w) || is_jalr(w) || is_auipc(w) || is_cond_branch(w)
}

/// An instruction word the emulator handles. A compressed instruction is
/// carried as its halfword zero-extended to 32 bits.
pub open spec fn is_emulated(w: u32) -> bool {
    if w & 0b11 != 0b11 {
        w < 0x10000 && is_emulated_c(w as u16)
    } else {
        is_emulated_32(w)
    }
}

// Immediates, sign-extended into 64-bit two's complement.

/// The immediate of a conditional branch: a 13-bit signed byte offset.
pub open spec fn b_imm(w: u32) -> u64 {
    let raw = ((((w >> 31) & 1) as u64) << 12) | ((((w >> 7) & 1) as u64) << 11) | ((((w >> 25)
        & 0x3f) as u64) << 5) | ((((w >> 8) & 0xf) as u64) << 1);
    if (w >> 31) & 1 == 1 {
        raw | 0xffff_ffff_ffff_e000
    } else {
        raw
    }
}

/// The immediate of `jal`: a 21-bit signed byte offset.
pub open spec fn j_imm(w: u32) -> u64 {
    let raw = ((((w >> 31) & 1) as u64) << 20) | ((((w >> 12) & 0xff) as u64) << 12) | ((((w
        >> 20) & 1) as u64) << 11) | ((((w >> 21) & 0x3ff) as u64) << 1);
    if (w >> 31) & 1 == 1 {
        raw | 0xffff_ffff_ffe0_0000
    } else {
        raw
    }
}

/// The immediate of `jalr`: a 12-bit signed byte offset.
pub open spec fn i_imm(w: u32) -> u64 {
    let raw = ((w >> 20) & 0xfff) as u64;
    if (w >> 31) & 1 == 1 {
        raw | 0xffff_ffff_ffff_f000
    } else {
        raw
    }
}

/// The immediate of `auipc`: the upper 20 bits, sign-extended to 64 bits.
pub open spec fn u_imm(w: u32) -> u64 {
    let raw = (w & 0xffff_f000) as u64;
    if (w >> 31) & 1 == 1 {
        raw | 0xffff_ffff_0000_0000
    } else {
        raw
    }
}

/// The immediate of `c.j`: a 12-bit signed byte offset.
pub open spec fn cj_imm(h: u16) -> u64 {
    let raw = ((((h >> 12) & 1) as u64) << 11) | ((((h >> 11) & 1) as u64) << 4) | ((((h >> 9)
        & 0x3) as u64) << 8) | ((((h >> 8) & 1) as u64) << 10) | ((((h >> 7) & 1) as u64) << 6) | (
    (((h >> 6) & 1) as u64) << 7) | ((((h >> 3) & 0x7) as u64) << 1) | ((((h >> 2) & 1) as u64)
        << 5);
    if (h >> 12) & 1 == 1 {
        raw | 0xffff_ffff_ffff_f000
    } else {
        raw
    }
}

/// The immediate of `c.beqz`/`c.bnez`: a 9-bit signed byte offset.
pub open spec fn cb_imm(h: u16) -> u64 {
    let raw = ((((h >> 12) & 1) as u64) << 8) | ((((h >> 10) & 0x3) as u64) << 3) | ((((h >> 5)
        & 0x3) as u64) << 6) | ((((h >> 3) & 0x3) as u64) << 1) | ((((h >> 2) & 1) as u64) << 5);
    if (h >> 12) & 1 == 1 {
        raw | 0xffff_ffff_ffff_fe00
    } else {
        raw
    }
}

/// The register compared by `c.beqz`/`c.bnez` (one of `x8`..`x15`).
pub open spec fn c_rs1_of(h: u16) -> u16 {
    (8 + ((h >> 7) & 0x7)) as u16
}

/// Signed 64-bit comparison, expressed by flipping the sign bit and
/// comparing unsigned.
pub open spec fn s_lt(a: u64, b: u64) -> bool {
    (a ^ 0x8000_0000_0000_0000) < (b ^ 0x8000_0000_0000_0000)
}

/// Whether the conditional branch `w` is taken on register values `a`, `b`.
pub open spec fn branch_taken(w: u32, a: u64, b: u64) -> bool {
    if funct3_of(w) == 0 {
        a == b
    } else if funct3_of(w) == 1 {
        a != b
    } else if funct3_of(w) == 4 {
        s_lt(a, b)
    } else if funct3_of(w) == 5 {
        !s_lt(a, b)
    } else if funct3_of(w) == 6 {
        a < b
    } else {
        a >= b
    }
}

/// Wrapping 64-bit addition, as the hardware computes addresses.
pub open spec fn wadd(a: u64, b: u64) -> u64 {
    vstd::wrapping::u64_specs::wrapping_add(a, b)
}

/// The program counter after emulating `w` at address `pc` on registers
/// `regs`. A compressed instruction is carried zero-extended.
pub open spec fn emulated_pc(w: u32, pc: u64, regs: Seq<u64>) -> u64 {
    if w & 0b11 != 0b11 {
        let h = w as u16;
        if is_c_j(h) {
            wadd(pc, cj_imm(h))
        } else if is_c_beqz(h) {
            if regs[c_rs1_of(h) as int] == 0 {
                wadd(pc, cb_imm(h))
            } else {
                wadd(pc, 2)
            }
        } else {
            if regs[c_rs1_of(h) as int] != 0 {
                wadd(pc, cb_imm(h))
            } else {
                wadd(pc, 2)
            }
        }
    } else {
        if is_jal(w) {
            wadd(pc, j_imm(w))
        } else if is_jalr(w) {
            wadd(regs[rs1_of(w) as int], i_imm(w)) & !1
        } else if is_auipc(w) {
            wadd(pc, 4)
        } else {
            if branch_taken(w, regs[rs1_of(w) as int], regs[rs2_of(w) as int]) {
                wadd(pc, b_imm(w))
            } else {
                wadd(pc, 4)
            }
        }
    }
}

/// The registers after emulating `w` at address `pc`: the jump-and-link
/// shapes write their destination register, everything else leaves the
/// registers alone. Writes to `x0` are discarded.
pub open spec fn emulated_regs(w: u32, pc: u64, regs: Seq<u64>) -> Seq<u64> {
    if w & 0b11 != 0b11 {
        regs
    } else if (is_jal(w) || is_jalr(w)) && rd_of(w) != 0 {
        regs.update(rd_of(w) as int, wadd(pc, 4))
    } else if is_auipc(w) && rd_of(w) != 0 {
        regs.update(rd_of(w) as int, wadd(pc, u_imm(w)))
    } else {
        regs
    }
}

/// Classify one instruction word: `Emulate` for the program-counter-relative
/// shapes, `Execute` for every other word the decoder recognises,
/// `Unsupported` otherwise. `len` must be `spec_insn_length` of the low
/// halfword; words longer than 4 bytes are unsupported.
pub open spec fn spec_classify(w: u32, len: u64) -> SingleStepType {
    if len == 2 {
        if is_emulated_c(w as u16) {
            SingleStepType::Emulate
        } else if insn_decodes(w) {
            SingleStepType::Execute
        } else {
            SingleStepType::Unsupported
        }
    } else if len == 4 {
        if is_emulated_32(w) {
            SingleStepType::Emulate
        } else if insn_decodes(w) {
            SingleStepType::Execute
        } else {
            SingleStepType::Unsupported
        }
    } else {
        SingleStepType::Unsupported
    }
}

/// Classify the instruction word `w` whose encoded length is `len` bytes.
/// A 2-byte word must be carried zero-extended.
pub fn classify_word(w: u32, len: u64) -> (r: SingleStepType)
    requires
        len == 2 ==> w < 0x10000 && w & 0b11 != 0b11,
        len == 4 ==> w & 0b11 == 0b11,
    ensures
        r == spec_classify(w, len),
        r == SingleStepType::Emulate ==> is_emulated(w),
{
    if len == 2 {
        let h = w as u16;
        proof {
            assert(w < 0x10000 && w & 0b11 != 0b11 ==> (w as u16) & 0b11 != 0b11)
                by (bit_vector);
        }
        let f3 = (h >> 13) & 0x7;
        if h & 0b11 == 0b01 && (f3 == 0b101 || f3 == 0b110 || f3 == 0b111) {
            SingleStepType::Emulate
        } else if word_decodes(w) {
            SingleStepType::Execute
        } else {
            SingleStepType::Unsupported
        }
    } else if len == 4 {
        let op = w & 0x7f;
        let f3 = (w >> 12) & 0x7;
        if op == 0x6f || op == 0x67 || op == 0x17 || (op == 0x63 && f3 != 2 && f3 != 3) {
            SingleStepType::Emulate
        } else if word_decodes(w) {
            SingleStepType::Execute
        } else {
            SingleStepType::Unsupported
        }
    } else {
        SingleStepType::Unsupported
    }
}

// Executable immediate extraction, each equal to its specification by
// construction.

fn exec_b_imm(w: u32) -> (r: u64)
    ensures
        r == b_imm(w),
{
    let raw = ((((w >> 31) & 1) as u64) << 12) | ((((w >> 7) & 1) as u64) << 11) | ((((w >> 25)
        & 0x3f) as u64) << 5) | ((((w >> 8) & 0xf) as u64) << 1);
    if (w >> 31) & 1 == 1 {
        raw | 0xffff_ffff_ffff_e000
    } else {
        raw
    }
}

fn exec_j_imm(w: u32) -> (r: u64)
    ensures
        r == j_imm(w),
{
    let raw = ((((w >> 31) & 1) as u64) << 20) | ((((w >> 12) & 0xff) as u64) << 12) | ((((w
        >> 20) & 1) as u64) << 11) | ((((w >> 21) & 0x3ff) as u64) << 1);
    if (w >> 31) & 1 == 1 {
        raw | 0xffff_ffff_ffe0_0000
    } else {
        raw
    }
}

fn exec_i_imm(w: u32) -> (r: u64)
    ensures
        r == i_imm(w),
{
    let raw = ((w >> 20) & 0xfff) as u64;
    if (w >> 31) & 1 == 1 {
        raw | 0xffff_ffff_ffff_f000
    } else {
        raw
    }
}

fn exec_u_imm(w: u32) -> (r: u64)
    ensures
        r == u_imm(w),
{
    let raw = (w & 0xffff_f000) as u64;
    if (w >> 31) & 1 == 1 {
        raw | 0xffff_ffff_0000_0000
    } else {
        raw
    }
}

fn exec_cj_imm(h: u16) -> (r: u64)
    ensures
        r == cj_imm(h),
{
    let raw = ((((h >> 12) & 1) as u64) << 11) | ((((h >> 11) & 1) as u64) << 4) | ((((h >> 9)
        & 0x3) as u64) << 8) | ((((h >> 8) & 1) as u64) << 10) | ((((h >> 7) & 1) as u64) << 6) | (
    (((h >> 6) & 1) as u64) << 7) | ((((h >> 3) & 0x7) as u64) << 1) | ((((h >> 2) & 1) as u64)
        << 5);
    if (h >> 12) & 1 == 1 {
        raw | 0xffff_ffff_ffff_f000
    } else {
        raw
    }
}

fn exec_cb_imm(h: u16) -> (r: u64)
    ensures
        r == cb_imm(h),
{
    let raw = ((((h >> 12) & 1) as u64) << 8) | ((((h >> 10) & 0x3) as u64) << 3) | ((((h >> 5)
        & 0x3) as u64) << 6) | ((((h >> 3) & 0x3) as u64) << 1) | ((((h >> 2) & 1) as u64) << 5);
    if (h >> 12) & 1 == 1 {
        raw | 0xffff_ffff_ffff_fe00
    } else {
        raw
    }
}

/// Compute the effect of the program-counter-relative instruction `insn_word`
/// (taken from address `pc`) directly on the saved register state: the
/// resuming counter is written into `tf.pc`, and the jump-and-link shapes
/// write their destination register.
pub fn emulate_execution(tf: &mut TrapState, insn_word: u32, pc: u64)
    requires
        old(tf).wf(),
        is_emulated(insn_word),
    ensures
        final(tf).wf(),
        final(tf).pc == emulated_pc(insn_word, pc, old(tf).regs@),
        final(tf).regs@ == emulated_regs(insn_word, pc, old(tf).regs@),
{
    let w = insn_word;
    if w & 0b11 != 0b11 {
        let h = w as u16;
        let f3 = (h >> 13) & 0x7;
        if f3 == 0b101 {
            let off = exec_cj_imm(h);
            tf.pc = pc.wrapping_add(off);
        } else {
            let low3 = (h >> 7) & 0x7;
            proof {
                assert(((h >> 7) & 0x7) < 8) by (bit_vector);
            }
            let r1 = (8 + low3) as usize;
            assert(r1 == c_rs1_of(h));
            let v = tf.get_reg(r1);
            let taken = if f3 == 0b110 {
                v == 0
            } else {
                v != 0
            };
            if taken {
                let off = exec_cb_imm(h);
                tf.pc = pc.wrapping_add(off);
            } else {
                tf.pc = pc.wrapping_add(2);
            }
        }
    } else {
        let op = w & 0x7f;
        if op == 0x6f {
            let off = exec_j_imm(w);
            tf.pc = pc.wrapping_add(off);
            let rd = ((w >> 7) & 0x1f) as usize;
            proof {
                assert(((w >> 7) & 0x1f) < 32) by (bit_vector);
            }
            if rd != 0 {
                tf.set_reg(rd, pc.wrapping_add(4));
            }
        } else if op == 0x67 {
            let off = exec_i_imm(w);
            let r1 = ((w >> 15) & 0x1f) as usize;
            proof {
                assert(((w >> 15) & 0x1f) < 32) by (bit_vector);
            }
            let base = tf.get_reg(r1);
            tf.pc = base.wrapping_add(off) & !1;
            let rd = ((w >> 7) & 0x1f) as usize;
            proof {
                assert(((w >> 7) & 0x1f) < 32) by (bit_vector);
            }
            if rd != 0 {
                tf.set_reg(rd, pc.wrapping_add(4));
            }
        } else if op == 0x17 {
            tf.pc = pc.wrapping_add(4);
            let rd = ((w >> 7) & 0x1f) as usize;
            proof {
                assert(((w >> 7) & 0x1f) < 32) by (bit_vector);
            }
            if rd != 0 {
                let off = exec_u_imm(w);
                tf.set_reg(rd, pc.wrapping_add(off));
            }
        } else {
            let f3 = (w >> 12) & 0x7;
            let r1 = ((w >> 15) & 0x1f) as usize;
            let r2 = ((w >> 20) & 0x1f) as usize;
            proof {
                assert(((w >> 15) & 0x1f) < 32) by (bit_vector);
                assert(((w >> 20) & 0x1f) < 32) by (bit_vector);
            }
            let a = tf.get_reg(r1);
            let b = tf.get_reg(r2);
            let taken = if f3 == 0 {
                a == b
            } else if f3 == 1 {
                a != b
            } else if f3 == 4 {
                (a ^ 0x8000_0000_0000_0000) < (b ^ 0x8000_0000_0000_0000)
            } else if f3 == 5 {
                !((a ^ 0x8000_0000_0000_0000) < (b ^ 0x8000_0000_0000_0000))
            } else if f3 == 6 {
                a < b
            } else {
                a >= b
            };
            if taken {
                let off = exec_b_imm(w);
                tf.pc = pc.wrapping_add(off);
            } else {
                tf.pc = pc.wrapping_add(4);
            }
        }
    }
}

/// Law: emulating a conditional branch whose compared registers satisfy the
/// branch condition resumes at exactly the branch-taken target, and
/// otherwise at the instruction that follows the branch. In particular, an
/// equal/unequal pair steers `beq`/`bne` to the taken/not-taken target.
pub proof fn lemma_branch_emulation(w: u32, pc: u64, regs: Seq<u64>)
    requires
        w & 0b11 == 0b11,
        is_cond_branch(w),
    ensures
        branch_taken(w, regs[rs1_of(w) as int], regs[rs2_of(w) as int]) ==> emulated_pc(
            w,
            pc,
            regs,
        ) == wadd(pc, b_imm(w)),
        !branch_taken(w, regs[rs1_of(w) as int], regs[rs2_of(w) as int]) ==> emulated_pc(
            w,
            pc,
            regs,
        ) == wadd(pc, 4),
        funct3_of(w) == 0 ==> branch_taken(w, regs[rs1_of(w) as int], regs[rs2_of(w) as int])
            == (regs[rs1_of(w) as int] == regs[rs2_of(w) as int]),
        funct3_of(w) == 1 ==> branch_taken(w, regs[rs1_of(w) as int], regs[rs2_of(w) as int])
            == (regs[rs1_of(w) as int] != regs[rs2_of(w) as int]),
{
}

} // verus!
