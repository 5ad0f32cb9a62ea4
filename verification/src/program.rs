//! Loaded programs of the attached-program facility.
//!
//! A program object stores native code produced by the external
//! just-in-time translator collaborator from validated bytecode. The
//! library validates the container and extracts the bytecode words
//! ([`crate::elf`]); translating the words and executing the resulting
//! native code are the surrounding kernel's work, so the code buffer lives
//! here as plain data.

use vstd::prelude::*;
use vstd::arithmetic::div_mod::lemma_fundamental_div_mod;
use crate::elf::{elf_find_text, spec_text_range, u64_at};
use crate::errors::{SysError, SysResult};
use crate::object::{BpfObject, BpfObjects};

verus! {

/// Attributes of the extended program-load operation: the caller-space
/// address and size of the bytecode container.
#[derive(Clone, Copy, Debug, PartialEq, Eq, Structural)]
pub struct ProgramLoadExAttr {
    pub elf_prog: u64,
    pub elf_size: u32,
}

/// A loaded program: optionally the original bytecode words, the jitted
/// native code, and a table of the map handles it references.
pub struct BpfProgram {
    pub bpf_insns: Option<Vec<u64>>,
    pub jited_prog: Option<Vec<u32>>,
    pub map_fd_table: Option<Vec<u32>>,
}

/// Validate a bytecode container and extract its program: the words of the
/// `.text` section of an ELF-64 object tagged for the bytecode machine,
/// read little-endian, a trailing partial word discarded. The words go to
/// the external just-in-time translator; no verification of the bytecode
/// itself is performed — the caller is trusted.
pub fn bpf_program_extract(elf: &Vec<u8>) -> (r: Result<Vec<u64>, SysError>)
    ensures
        match spec_text_range(elf@) {
            Err(e) => r == Err::<Vec<u64>, SysError>(e),
            Ok((off, size)) => r is Ok && r->Ok_0@.len() == size / 8 && forall|k: int|
                0 <= k < size / 8 ==> r->Ok_0@[k] == u64_at(elf@, off + 8 * k),
        },
{
    let (off, size) = match elf_find_text(elf) {
        Ok(pair) => pair,
        Err(e) => {
            return Err(e);
        },
    };
    let nw = size / 8;
    proof {
        lemma_fundamental_div_mod(size as int, 8);
    }
    let mut words: Vec<u64> = Vec::new();
    let mut k: usize = 0;
    while k < nw
        invariant
            spec_text_range(elf@) is Ok,
            off == spec_text_range(elf@)->Ok_0.0,
            size == spec_text_range(elf@)->Ok_0.1,
            off + size <= elf@.len(),
            nw == size as int / 8,
            8 * nw <= size,
            k <= nw,
            words@.len() == k,
            forall|j: int| 0 <= j < k ==> words@[j] == u64_at(elf@, off + 8 * j),
        decreases nw - k,
    {
        words.push(read_text_word(elf, off, size, k));
        k = k + 1;
    }
    Ok(words)
}

/// One little-endian word of the text section.
fn read_text_word(elf: &Vec<u8>, off: usize, size: usize, k: usize) -> (r: u64)
    requires
        off + size <= elf@.len(),
        8 * (k + 1) <= size,
    ensures
        r == u64_at(elf@, off + 8 * k),
{
    let _n = elf.len();
    crate::elf::read_u64(elf, off + 8 * k)
}

/// Store a translated program under a fresh handle.
///
/// `InvalidArgument` only when the reserved handle range is exhausted.
pub fn bpf_program_install(bpf: &mut BpfObjects, bpf_insns: Option<Vec<u64>>, jited_prog: Vec<
    u32,
>) -> (r: SysResult)
    requires
        old(bpf).inv(),
    ensures
        final(bpf).inv(),
        final(bpf).tracepoints@ == old(bpf).tracepoints@,
        r is Err ==> r == Err::<u64, SysError>(SysError::InvalidArgument) && old(bpf).next_fd
            == u32::MAX && final(bpf).objects@ == old(bpf).objects@,
        r is Ok ==> {
            &&& old(bpf).next_fd < u32::MAX
            &&& r->Ok_0 == old(bpf).next_fd
            &&& final(bpf).next_fd == old(bpf).next_fd + 1
            &&& final(bpf).objects@.dom() == old(bpf).objects@.dom().insert(old(bpf).next_fd)
            &&& final(bpf).objects@[old(bpf).next_fd] is Program
        },
{
    let fd = match bpf.allocate_handle() {
        Some(fd) => fd,
        None => {
            return Err(SysError::InvalidArgument);
        },
    };
    let program = BpfProgram { bpf_insns, jited_prog: Some(jited_prog), map_fd_table: None };
    bpf.objects.insert(fd, BpfObject::Program(program));
    proof {
        assert(bpf.objects@.dom() =~= old(bpf).objects@.dom().insert(fd));
        assert forall|g: u32| #[trigger] bpf.objects@.dom().contains(g) && bpf
            .objects@[g] is MapObject implies bpf.objects@[g]->MapObject_0.wf() by {
            if g != fd {
                assert(old(bpf).objects@.dom().contains(g));
            }
        }
    }
    Ok(fd as u64)
}

} // verus!
