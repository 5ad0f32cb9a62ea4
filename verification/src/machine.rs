//! Saved processor state captured on a trap: the program counter and the 32
//! general registers of a 64-bit RISC-V hart.

use vstd::prelude::*;

verus! {

/// Number of general registers in the trap frame.
pub const NR_REGS: usize = 32;

/// Index of the return-address register `ra` (`x1`).
pub const REG_RA: usize = 1;

/// Index of the first argument / result register `a0` (`x10`).
pub const REG_A0: usize = 10;

/// Saved register state captured on a breakpoint exception.
///
/// `regs[0]` is the hard-wired zero register; the emulator never writes it.
pub struct TrapState {
    /// The program counter at which the trap was taken, and, on return from
    /// the trap path, the address where execution resumes.
    pub pc: u64,
    /// The 32 general registers, indexed by architectural register number.
    pub regs: Vec<u64>,
}

impl TrapState {
    /// A trap state is usable when it carries all 32 general registers.
    pub open spec fn wf(self) -> bool {
        self.regs@.len() == NR_REGS
    }

    /// Fresh trap state: all registers zero, resuming at `pc`.
    pub fn new(pc: u64) -> (r: TrapState)
        ensures
            r.wf(),
            r.pc == pc,
            forall|i: int| 0 <= i < NR_REGS ==> r.regs@[i] == 0,
    {
        let mut regs: Vec<u64> = Vec::new();
        let mut i: usize = 0;
        while i < NR_REGS
            invariant
                i <= NR_REGS,
                regs@.len() == i,
                forall|j: int| 0 <= j < i ==> regs@[j] == 0,
            decreases NR_REGS - i,
        {
            regs.push(0);
            i = i + 1;
        }
        TrapState { pc, regs }
    }

    /// Read one general register.
    pub fn get_reg(&self, reg: usize) -> (r: u64)
        requires
            self.wf(),
            reg < NR_REGS,
        ensures
            r == self.regs@[reg as int],
    {
        self.regs[reg]
    }

    /// Overwrite one general register.
    pub fn set_reg(&mut self, reg: usize, value: u64)
        requires
            old(self).wf(),
            reg < NR_REGS,
        ensures
            final(self).wf(),
            final(self).pc == old(self).pc,
            final(self).regs@ == old(self).regs@.update(reg as int, value),
    {
        self.regs[reg] = value;
    }
}

/// The trapped program counter.
pub fn get_trapframe_pc(tf: &TrapState) -> (r: u64)
    ensures
        r == tf.pc,
{
    tf.pc
}

/// Redirect where execution resumes after the trap.
pub fn set_trapframe_pc(tf: &mut TrapState, pc: u64)
    ensures
        final(tf).pc == pc,
        final(tf).regs@ == old(tf).regs@,
{
    tf.pc = pc;
}

/// The saved return-address register `ra`.
pub fn get_trapframe_ra(tf: &TrapState) -> (r: u64)
    requires
        tf.wf(),
    ensures
        r == tf.regs@[REG_RA as int],
{
    tf.get_reg(REG_RA)
}

/// Overwrite the saved return-address register `ra`.
pub fn set_trapframe_ra(tf: &mut TrapState, ra: u64)
    requires
        old(tf).wf(),
    ensures
        final(tf).wf(),
        final(tf).pc == old(tf).pc,
        final(tf).regs@ == old(tf).regs@.update(REG_RA as int, ra),
{
    tf.set_reg(REG_RA, ra);
}

} // verus!
