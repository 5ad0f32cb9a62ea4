//! Tracepoint attachment: binding loaded programs to probed kernel
//! addresses.
//!
//! An attach request names a target `"<kind>:<symbol>"` and a program
//! handle. The symbol is resolved against the loaded-module table, and the
//! programs attached to one resolved address share a single kprobe whose
//! pre-handler is the tracepoint dispatcher: on every hit the dispatcher
//! reports the attached handles in attachment order, and the kernel runs
//! them one after another, a failing program never preventing the next.

use vstd::prelude::*;
use crate::errors::{SysError, SysResult};
use crate::kprobes::register_kprobe;
use crate::object::{BpfObject, BpfObjects};
use crate::probes::{Instrumentation, KProbeArgs, ProbeHandler};
use crate::symbols::{resolve_symbol, SymbolTable};

verus! {

/// The kinds of hook point a program can be attached to. Only `KProbe` is
/// accepted by the attachment machinery.
#[derive(Clone, Copy, Debug, PartialEq, Eq, PartialOrd, Ord, Structural)]
pub enum TracepointType {
    KProbe,
    KRetProbe,
}

/// A hook point: its kind and its resolved token (the probed address).
#[derive(Clone, Copy, Debug, PartialEq, Eq, PartialOrd, Ord, Structural)]
pub struct Tracepoint {
    pub tp_type: TracepointType,
    pub token: u64,
}

/// An attach request: the target specification bytes and the handle of the
/// program to attach.
#[derive(Debug)]
pub struct AttachTarget {
    pub target: Vec<u8>,
    pub prog_fd: u32,
}

/// A byte lowered as ASCII: letters fold to lower case, everything else is
/// itself.
pub open spec fn ascii_lower(b: u8) -> u8 {
    if 0x41 <= b <= 0x5a {
        (b + 0x20) as u8
    } else {
        b
    }
}

/// The position of the first `:` at or after `i` in the target
/// specification.
pub open spec fn spec_colon_from(t: Seq<u8>, i: int) -> Option<int>
    decreases t.len() - i,
{
    if i < 0 || i >= t.len() {
        None
    } else if t[i] == 0x3a {
        Some(i)
    } else {
        spec_colon_from(t, i + 1)
    }
}

/// The target specification's shape: the bytes before the first `:` name
/// the kind, the bytes after it name the symbol.
pub open spec fn spec_colon_split(t: Seq<u8>) -> Option<int> {
    spec_colon_from(t, 0)
}

/// Whether `t` spells `kprobe`, ASCII case ignored.
pub open spec fn spec_is_kprobe_kind(t: Seq<u8>) -> bool {
    t.map_values(|b: u8| ascii_lower(b)) == seq![0x6bu8, 0x70u8, 0x72u8, 0x6fu8, 0x62u8, 0x65u8]
}

/// Find the first `:` in the target specification.
fn find_colon(t: &Vec<u8>) -> (r: Option<usize>)
    ensures
        match r {
            Some(i) => spec_colon_split(t@) == Some(i as int) && i < t@.len(),
            None => spec_colon_split(t@) is None,
        },
{
    let n = t.len();
    let mut i: usize = 0;
    while i < n
        invariant
            n == t@.len(),
            i <= n,
            spec_colon_split(t@) == spec_colon_from(t@, i as int),
        decreases n - i,
    {
        if t[i] == 0x3a {
            return Some(i);
        }
        proof {
            assert(spec_colon_from(t@, i as int) == spec_colon_from(t@, i + 1));
        }
        i = i + 1;
    }
    None
}

/// Whether the bytes spell `kprobe`, ASCII case ignored.
fn is_kprobe_kind(t: &Vec<u8>, end: usize) -> (r: bool)
    requires
        end <= t@.len(),
    ensures
        r == spec_is_kprobe_kind(t@.subrange(0, end as int)),
{
    let pattern: [u8; 6] = [0x6b, 0x70, 0x72, 0x6f, 0x62, 0x65];
    if end != 6 {
        proof {
            assert(t@.subrange(0, end as int).map_values(|b: u8| ascii_lower(b)).len() == end);
        }
        return false;
    }
    let mut i: usize = 0;
    while i < 6
        invariant
            end == 6 <= t@.len(),
            i <= 6,
            pattern@ == seq![0x6bu8, 0x70u8, 0x72u8, 0x6fu8, 0x62u8, 0x65u8],
            forall|j: int|
                0 <= j < i ==> ascii_lower(t@.subrange(0, 6)[j]) == seq![
                    0x6bu8,
                    0x70u8,
                    0x72u8,
                    0x6fu8,
                    0x62u8,
                    0x65u8,
                ][j],
        decreases 6 - i,
    {
        let b = t[i];
        let low = if 0x41 <= b && b <= 0x5a {
            b + 0x20
        } else {
            b
        };
        if low != pattern[i] {
            proof {
                assert(t@.subrange(0, 6)[i as int] == t@[i as int]);
                assert(t@.subrange(0, 6).map_values(|x: u8| ascii_lower(x))[i as int]
                    == ascii_lower(t@[i as int]));
            }
            return false;
        }
        i = i + 1;
    }
    proof {
        assert(t@.subrange(0, 6).map_values(|x: u8| ascii_lower(x)) =~= seq![
            0x6bu8,
            0x70u8,
            0x72u8,
            0x6fu8,
            0x62u8,
            0x65u8,
        ]);
    }
    true
}

/// The position of the attachment list for `tp`, if one exists.
pub open spec fn spec_tp_index(tps: Seq<(Tracepoint, Vec<u32>)>, tp: Tracepoint) -> Option<int> {
    if exists|i: int| 0 <= i < tps.len() && #[trigger] tps[i].0 == tp {
        Some(choose|i: int| 0 <= i < tps.len() && #[trigger] tps[i].0 == tp)
    } else {
        None
    }
}

/// Find the attachment list for `tp`.
fn find_tracepoint(bpf: &BpfObjects, tp: Tracepoint) -> (r: Option<usize>)
    requires
        bpf.inv(),
    ensures
        match r {
            Some(i) => i < bpf.tracepoints@.len() && bpf.tracepoints@[i as int].0 == tp,
            None => forall|i: int|
                0 <= i < bpf.tracepoints@.len() ==> #[trigger] bpf.tracepoints@[i].0 != tp,
        },
{
    let n = bpf.tracepoints.len();
    let mut i: usize = 0;
    while i < n
        invariant
            n == bpf.tracepoints@.len(),
            i <= n,
            forall|j: int| 0 <= j < i ==> #[trigger] bpf.tracepoints@[j].0 != tp,
        decreases n - i,
    {
        if bpf.tracepoints[i].0 == tp {
            return Some(i);
        }
        i = i + 1;
    }
    None
}

/// The programs attached to the tracepoint at address `addr`, in
/// attachment order; empty when nothing is attached there. This is what
/// the kernel runs, one after another, when the trap path reports a
/// tracepoint hit.
pub fn tracepoint_attached_programs(bpf: &BpfObjects, addr: u64) -> (r: Vec<u32>)
    requires
        bpf.inv(),
    ensures
        match spec_tp_index(bpf.tracepoints@, Tracepoint { tp_type: TracepointType::KProbe, token: addr }) {
            Some(i) => r@ == bpf.tracepoints@[i].1@,
            None => r@.len() == 0,
        },
        forall|k: int|
            0 <= k < r@.len() ==> #[trigger] bpf.objects@.dom().contains(r@[k])
                && bpf.objects@[r@[k]] is Program,
{
    let tp = Tracepoint { tp_type: TracepointType::KProbe, token: addr };
    match find_tracepoint(bpf, tp) {
        Some(i) => {
            let mut out: Vec<u32> = Vec::new();
            let list = &bpf.tracepoints[i].1;
            let n = list.len();
            let mut k: usize = 0;
            while k < n
                invariant
                    n == list@.len(),
                    k <= n,
                    out@ == list@.subrange(0, k as int),
                decreases n - k,
            {
                out.push(list[k]);
                proof {
                    assert(out@ =~= list@.subrange(0, k + 1));
                }
                k = k + 1;
            }
            proof {
                assert(out@ =~= list@);
                if spec_tp_index(bpf.tracepoints@, tp) is Some {
                    let j = spec_tp_index(bpf.tracepoints@, tp)->Some_0;
                    assert(bpf.tracepoints@[j].0 == tp);
                    assert(j == i);
                }
                assert forall|k2: int| 0 <= k2 < out@.len() implies bpf.objects@.dom().contains(
                    #[trigger] out@[k2],
                ) && bpf.objects@[out@[k2]] is Program by {
                    assert(out@[k2] == bpf.tracepoints@[i as int].1@[k2]);
                    assert(bpf.objects@.dom().contains(bpf.tracepoints@[i as int].1@[k2]));
                }
            }
            out
        },
        None => Vec::new(),
    }
}

/// Law: an attached handle always names a live program object — a
/// tracepoint's list never holds a handle whose object has been closed.
pub proof fn lemma_attached_programs_live(bpf: BpfObjects, i: int, k: int)
    requires
        bpf.inv(),
        0 <= i < bpf.tracepoints@.len(),
        0 <= k < bpf.tracepoints@[i].1@.len(),
    ensures
        bpf.objects@.dom().contains(bpf.tracepoints@[i].1@[k]),
        bpf.objects@[bpf.tracepoints@[i].1@[k]] is Program,
{
    assert(bpf.objects@.dom().contains(bpf.tracepoints@[i].1@[k]) && bpf.objects@[bpf
        .tracepoints@[i].1@[k]] is Program);
}

/// Attach the program `prog_fd` to the target `"<kind>:<symbol>"`.
///
/// `NotFound` when `prog_fd` names no live program or the symbol does not
/// resolve; `InvalidArgument` when the target has no `:`, names a kind
/// other than `kprobe`, or — for the first program on a fresh target —
/// when the kprobe cannot be installed at the resolved address. The first
/// attachment registers the shared dispatcher kprobe and creates the list;
/// later ones append to it, preserving attachment order.
pub open spec fn attach_effect(
    tps0: Seq<(Tracepoint, Vec<u32>)>,
    tps1: Seq<(Tracepoint, Vec<u32>)>,
    addr: u64,
    prog_fd: u32,
) -> bool {
    let tp = Tracepoint { tp_type: TracepointType::KProbe, token: addr };
    match spec_tp_index(tps0, tp) {
        Some(i) => {
            &&& tps1.len() == tps0.len()
            &&& tps1[i].0 == tp
            &&& tps1[i].1@ == tps0[i].1@.push(prog_fd)
            &&& forall|j: int| 0 <= j < tps0.len() && j != i ==> #[trigger] tps1[j] == tps0[j]
        },
        None => {
            &&& tps1.len() == tps0.len() + 1
            &&& forall|j: int| 0 <= j < tps0.len() ==> #[trigger] tps1[j] == tps0[j]
            &&& tps1[tps0.len() as int].0 == tp
            &&& tps1[tps0.len() as int].1@ == seq![prog_fd]
        },
    }
}

/// What an attach request decides: the error it is refused with, or the
/// resolved address at which it takes effect. A request succeeds exactly
/// when its program handle names a live program, its target splits at a
/// `:` with the kind `kprobe` (case ignored), its symbol resolves, and the
/// resolved address either already carries a tracepoint or admits a fresh
/// kprobe.
pub open spec fn spec_attach_outcome(
    bpf: BpfObjects,
    instr: Instrumentation,
    symbols: crate::symbols::SymbolTable,
    target: Seq<u8>,
    prog_fd: u32,
) -> Result<u64, SysError> {
    if !(bpf.objects@.dom().contains(prog_fd) && bpf.objects@[prog_fd] is Program) {
        Err(SysError::NotFound)
    } else {
        match spec_colon_split(target) {
            None => Err(SysError::InvalidArgument),
            Some(pos) => {
                if !spec_is_kprobe_kind(target.subrange(0, pos)) {
                    Err(SysError::InvalidArgument)
                } else {
                    match crate::symbols::spec_resolve(
                        symbols.entries@,
                        target.subrange(pos + 1, target.len() as int),
                    ) {
                        None => Err(SysError::NotFound),
                        Some(addr) => {
                            let tp = Tracepoint { tp_type: TracepointType::KProbe, token: addr };
                            if spec_tp_index(bpf.tracepoints@, tp) is Some {
                                Ok(addr)
                            } else if crate::kprobes::can_register_kprobe(instr, addr) {
                                Ok(addr)
                            } else {
                                Err(SysError::InvalidArgument)
                            }
                        },
                    }
                }
            },
        }
    }
}

pub fn bpf_program_attach(bpf: &mut BpfObjects, instr: &mut Instrumentation,
    symbols: &SymbolTable, target: &Vec<u8>, prog_fd: u32) -> (r: SysResult)
    requires
        old(bpf).inv(),
        old(instr).inv(),
    ensures
        final(bpf).inv(),
        final(instr).inv(),
        final(bpf).objects@ == old(bpf).objects@,
        final(bpf).next_fd == old(bpf).next_fd,
        match spec_attach_outcome(*old(bpf), *old(instr), *symbols, target@, prog_fd) {
            Err(e) => r == Err::<u64, SysError>(e) && final(bpf).tracepoints@ == old(
                bpf,
            ).tracepoints@ && crate::probes::instr_unchanged(*old(instr), *final(instr)),
            Ok(addr) => {
                let tp = Tracepoint { tp_type: TracepointType::KProbe, token: addr };
                &&& r == Ok::<u64, SysError>(0)
                &&& attach_effect(old(bpf).tracepoints@, final(bpf).tracepoints@, addr, prog_fd)
                &&& (spec_tp_index(old(bpf).tracepoints@, tp) is Some
                    ==> crate::probes::instr_unchanged(*old(instr), *final(instr)))
                &&& (spec_tp_index(old(bpf).tracepoints@, tp) is None ==> {
                    &&& final(instr).kprobes@.dom().contains(addr)
                    &&& final(instr).kprobes@[addr].pre_handler == ProbeHandler::TracepointDispatch
                    &&& final(instr).kprobes@ == old(instr).kprobes@.insert(
                        addr,
                        final(instr).kprobes@[addr],
                    )
                    &&& final(instr).code@ == old(instr).code@.insert(
                        addr,
                        crate::code_mem::EBREAK,
                    )
                    &&& final(instr).kretprobes@ == old(instr).kretprobes@
                    &&& final(instr).instances@ == old(instr).instances@
                })
            },
        },
{
    let listed = match bpf.objects.get(&prog_fd) {
        Some(BpfObject::Program(_)) => true,
        _ => false,
    };
    if !listed {
        return Err(SysError::NotFound);
    }
    let pos = match find_colon(target) {
        Some(p) => p,
        None => {
            return Err(SysError::InvalidArgument);
        },
    };
    if !is_kprobe_kind(target, pos) {
        return Err(SysError::InvalidArgument);
    }
    let mut fn_name: Vec<u8> = Vec::new();
    let n = target.len();
    let mut i: usize = pos + 1;
    while i < n
        invariant
            n == target@.len(),
            pos + 1 <= i <= n,
            fn_name@ == target@.subrange(pos + 1, i as int),
        decreases n - i,
    {
        fn_name.push(target[i]);
        proof {
            assert(fn_name@ =~= target@.subrange(pos + 1, i + 1));
        }
        i = i + 1;
    }
    let addr = match resolve_symbol(symbols, &fn_name) {
        Some(a) => a,
        None => {
            return Err(SysError::NotFound);
        },
    };
    let tp = Tracepoint { tp_type: TracepointType::KProbe, token: addr };
    match find_tracepoint(bpf, tp) {
        Some(idx) => {
            let (tpk, mut lv) = bpf.tracepoints.remove(idx);
            lv.push(prog_fd);
            bpf.tracepoints.insert(idx, (tpk, lv));
            proof {
                assert forall|j: int|
                    0 <= j < old(bpf).tracepoints@.len() && j != idx implies #[trigger] bpf
                    .tracepoints@[j] == old(bpf).tracepoints@[j] by {
                }
                restore_bpf_inv_after_push(*old(bpf), *bpf, idx as int, prog_fd);
                assert(spec_tp_index(old(bpf).tracepoints@, tp) is Some);
                let i0 = spec_tp_index(old(bpf).tracepoints@, tp)->Some_0;
                assert(old(bpf).tracepoints@[i0].0 == tp);
                assert(i0 == idx);
                assert(attach_effect(old(bpf).tracepoints@, bpf.tracepoints@, addr, prog_fd));
            }
            Ok(0)
        },
        None => {
            let args = KProbeArgs {
                pre_handler: ProbeHandler::TracepointDispatch,
                post_handler: None,
                user_data: addr,
            };
            if !register_kprobe(instr, addr, args) {
                return Err(SysError::InvalidArgument);
            }
            let mut list: Vec<u32> = Vec::new();
            list.push(prog_fd);
            bpf.tracepoints.push((tp, list));
            proof {
                let tps0 = old(bpf).tracepoints@;
                let tps1 = bpf.tracepoints@;
                assert forall|a: int, b: int|
                    0 <= a < tps1.len() && 0 <= b < tps1.len() && a != b implies #[trigger] tps1[a].0
                    != #[trigger] tps1[b].0 by {
                    if a < tps0.len() && b < tps0.len() {
                        assert(tps0[a].0 != tps0[b].0);
                    }
                }
                assert(spec_tp_index(tps0, tp) is None);
                assert(attach_effect(tps0, tps1, addr, prog_fd));
            }
            Ok(0)
        },
    }
}

/// Re-establish the object-table invariant after appending a live program
/// handle to the list at `idx`.
proof fn restore_bpf_inv_after_push(b0: BpfObjects, b1: BpfObjects, idx: int, prog_fd: u32)
    requires
        b0.inv(),
        0 <= idx < b0.tracepoints@.len(),
        b0.objects@.dom().contains(prog_fd),
        b0.objects@[prog_fd] is Program,
        b1.objects@ == b0.objects@,
        b1.next_fd == b0.next_fd,
        b1.tracepoints@.len() == b0.tracepoints@.len(),
        b1.tracepoints@[idx].0 == b0.tracepoints@[idx].0,
        b1.tracepoints@[idx].1@ == b0.tracepoints@[idx].1@.push(prog_fd),
        forall|i: int|
            0 <= i < b0.tracepoints@.len() && i != idx ==> #[trigger] b1.tracepoints@[i] == b0.tracepoints@[i],
    ensures
        b1.inv(),
{
    assert forall|i: int, k: int|
        0 <= i < b1.tracepoints@.len() && 0 <= k < b1.tracepoints@[i].1@.len() implies {
        &&& b1.objects@.dom().contains(#[trigger] b1.tracepoints@[i].1@[k])
        &&& b1.objects@[b1.tracepoints@[i].1@[k]] is Program
    } by {
        if i == idx {
            if k < b0.tracepoints@[idx].1@.len() {
                assert(b0.objects@.dom().contains(b0.tracepoints@[i].1@[k]));
            }
        } else {
            assert(b1.tracepoints@[i] == b0.tracepoints@[i]);
            assert(b0.objects@.dom().contains(b0.tracepoints@[i].1@[k]));
        }
    }
    assert forall|i: int, j: int|
        0 <= i < b1.tracepoints@.len() && 0 <= j < b1.tracepoints@.len() && i != j implies #[trigger] b1.tracepoints@[i].0 != #[trigger] b1.tracepoints@[j].0 by {
        assert(b1.tracepoints@[i].0 == b0.tracepoints@[i].0);
        assert(b1.tracepoints@[j].0 == b0.tracepoints@[j].0);
    }
}

} // verus!
