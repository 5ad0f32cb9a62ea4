//! The kernel's view of instruction memory, at halfword granularity, and the
//! breakpoint primitive that swaps a trap encoding in and out of it.
//!
//! RISC-V instruction parcels are 16 bits wide, and the trap encoding used
//! for probes (`c.ebreak`) occupies exactly one parcel, so code memory is
//! modelled as a map from (2-byte-aligned) byte addresses to halfwords. The
//! kernel populates it with the text ranges it intends to instrument; an
//! address that was never populated is treated as unmapped and refuses
//! probes.

use vstd::prelude::*;
use vstd::hash_map::HashMapWithView;

verus! {

/// The trap encoding written over probed code: `c.ebreak`.
pub const EBREAK: u16 = 0x9002;

/// Length in bytes of the trap encoding — one 16-bit parcel.
pub const BREAKPOINT_LEN: u64 = 2;

/// Instruction memory: halfwords keyed by byte address.
pub struct CodeMemory {
    mem: HashMapWithView<u64, u16>,
}

impl View for CodeMemory {
    type V = Map<u64, u16>;

    closed spec fn view(&self) -> Map<u64, u16> {
        self.mem@
    }
}

impl CodeMemory {
    /// Empty instruction memory: nothing mapped yet.
    pub fn new() -> (r: CodeMemory)
        ensures
            r@ == Map::<u64, u16>::empty(),
    {
        CodeMemory { mem: HashMapWithView::new() }
    }

    /// The halfword at `addr`, or `None` if the address is unmapped.
    pub fn read(&self, addr: u64) -> (r: Option<u16>)
        ensures
            r == if self@.dom().contains(addr) {
                Some(self@[addr])
            } else {
                None::<u16>
            },
    {
        match self.mem.get(&addr) {
            Some(h) => Some(*h),
            None => None,
        }
    }

    /// Write the halfword at `addr`, mapping the address if it was not.
    pub fn write(&mut self, addr: u64, value: u16)
        ensures
            final(self)@ == old(self)@.insert(addr, value),
    {
        self.mem.insert(addr, value);
    }
}

/// Install a breakpoint: save the halfword at `addr` and overwrite it with
/// the trap encoding. Fails on an unmapped address. The caller (the probe
/// registry) must keep the returned original parcel to undo the
/// installation, and must never install twice at one address.
pub fn install_breakpoint(code: &mut CodeMemory, addr: u64) -> (r: Option<u16>)
    ensures
        match r {
            Some(orig) => old(code)@.dom().contains(addr) && orig == old(code)@[addr]
                && final(code)@ == old(code)@.insert(addr, EBREAK),
            None => !old(code)@.dom().contains(addr) && final(code)@ == old(code)@,
        },
{
    match code.read(addr) {
        Some(orig) => {
            code.write(addr, EBREAK);
            Some(orig)
        },
        None => None,
    }
}

/// Remove a breakpoint: restore the saved original parcel at `addr`.
pub fn remove_breakpoint(code: &mut CodeMemory, addr: u64, original: u16)
    ensures
        final(code)@ == old(code)@.insert(addr, original),
{
    code.write(addr, original);
}

/// Law: installing a breakpoint and then removing it with the saved parcel
/// restores code memory byte for byte.
pub proof fn lemma_breakpoint_round_trip(mem: Map<u64, u16>, addr: u64)
    requires
        mem.dom().contains(addr),
    ensures
        mem.insert(addr, EBREAK).insert(addr, mem[addr]) == mem,
{
    let out = mem.insert(addr, EBREAK).insert(addr, mem[addr]);
    assert(out =~= mem);
}

} // verus!
