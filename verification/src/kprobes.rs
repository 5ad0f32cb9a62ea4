//! The kprobe registry: probes keyed by instruction address.
//!
//! Registration classifies the probed instruction, stages a copy of it for
//! out-of-line replay when it can be single-stepped, and installs the trap
//! encoding. Unregistration restores the original parcel. Both refuse
//! anything that would leave the table or the probed code inconsistent:
//! a duplicate address, an instruction the classifier rejects, or an
//! exhausted staging region.

use vstd::prelude::*;
use crate::code_mem::{install_breakpoint, remove_breakpoint, EBREAK};
use crate::insn::{
    classify_word, emulate_execution, emulated_pc, emulated_regs, insn_length, wadd,
    SingleStepType,
};
use crate::kretprobes::{entry_fire_effect, kretprobe_kprobe_pre_handler};
use crate::machine::TrapState;
use crate::probes::{
    instr_unchanged, kprobe_ok, pool_unchanged, staged_content, word_at, InstructionBuffer,
    Instrumentation, Invocation, KProbe, KProbeArgs, ProbeHandler, TrapOutcome,
};

verus! {

/// The invocation owed for a probe's own pre-handler, when it is a
/// caller-supplied capability.
pub open spec fn pre_invocations(p: KProbe) -> Seq<Invocation> {
    match p.pre_handler {
        ProbeHandler::User(h) => seq![Invocation { handler: h, user_data: p.user_data }],
        _ => Seq::<Invocation>::empty(),
    }
}

/// The invocation owed for a probe's post-handler, if it has one.
pub open spec fn post_invocations(p: KProbe) -> Seq<Invocation> {
    match p.post_handler {
        Some(h) => seq![Invocation { handler: h, user_data: p.user_data }],
        None => Seq::<Invocation>::empty(),
    }
}

/// An optional invocation as a sequence of zero or one elements.
pub open spec fn opt_invocations(o: Option<Invocation>) -> Seq<Invocation> {
    match o {
        Some(iv) => seq![iv],
        None => Seq::<Invocation>::empty(),
    }
}

/// The effect of one firing of the kprobe trap handler: when the trapped
/// address keys no probe, nothing happens and the trap is reported as not
/// ours. Otherwise the probe's handlers are owed in pre-then-post order and
/// execution resumes as the probed instruction demands: an `Emulate` probe
/// has its effect computed in place, an `Execute` probe resumes past the
/// probed instruction with an out-of-line step of the staged copy owed.
/// A kretprobe entry probe additionally performs the entry trampoline's
/// effect on the registers and tables before the resume decision.
pub open spec fn kprobe_fire_effect(
    s0: Instrumentation,
    tf0: TrapState,
    s1: Instrumentation,
    tf1: TrapState,
    r: TrapOutcome,
) -> bool {
    let pc = tf0.pc;
    if !s0.kprobes@.dom().contains(pc) {
        &&& instr_unchanged(s0, s1)
        &&& tf1 == tf0
        &&& !r.handled
        &&& r.invocations@ == Seq::<Invocation>::empty()
        &&& r.single_step is None
        &&& r.tracepoint is None
    } else {
        let p = s0.kprobes@[pc];
        &&& r.handled
        &&& r.tracepoint == if p.pre_handler == ProbeHandler::TracepointDispatch {
            Some(pc)
        } else {
            None::<u64>
        }
        &&& (p.kind == SingleStepType::Execute ==> r.single_step == Some(p.buffer->Some_0.addr)
            && tf1.pc == wadd(pc, p.insn_len))
        &&& (p.kind == SingleStepType::Emulate ==> r.single_step is None)
        &&& if p.pre_handler != ProbeHandler::KRetProbeEntry {
            &&& instr_unchanged(s0, s1)
            &&& (p.kind == SingleStepType::Emulate ==> tf1.pc == emulated_pc(p.insn, pc, tf0.regs@)
                && tf1.regs@ == emulated_regs(p.insn, pc, tf0.regs@))
            &&& (p.kind == SingleStepType::Execute ==> tf1.regs@ == tf0.regs@)
            &&& r.invocations@ == pre_invocations(p) + post_invocations(p)
        } else {
            exists|regs1: Seq<u64>, ei: Option<Invocation>|
                {
                    &&& #[trigger] entry_fire_effect(s0, pc, tf0.regs@, s1, regs1, ei)
                    &&& (p.kind == SingleStepType::Emulate ==> tf1.pc == emulated_pc(
                        p.insn,
                        pc,
                        regs1,
                    ) && tf1.regs@ == emulated_regs(p.insn, pc, regs1))
                    &&& (p.kind == SingleStepType::Execute ==> tf1.regs@ == regs1)
                    &&& r.invocations@ == opt_invocations(ei) + post_invocations(p)
                }
        }
    }
}

/// Whether registration at `addr` can succeed on state `s`: the address is
/// free, the instruction there is supported, and — when it must be staged —
/// a buffer slot is left.
pub open spec fn can_register_kprobe(s: Instrumentation, addr: u64) -> bool {
    &&& !s.kprobes@.dom().contains(addr)
    &&& word_at(s.code@, addr) is Some
    &&& {
        let (w, len) = word_at(s.code@, addr)->Some_0;
        &&& crate::insn::spec_classify(w, len) != SingleStepType::Unsupported
        &&& (crate::insn::spec_classify(w, len) == SingleStepType::Execute
            ==> !s.buf_pool.full())
    }
}

/// Register a probe at `addr` with the given handlers.
///
/// Fails — reporting `false` and changing nothing — when a probe already
/// sits at `addr`, when the instruction there cannot be classified, or when
/// no staging slot is left for an instruction that needs one. On success
/// the trap encoding is installed at `addr` and the probe is recorded.
pub fn register_kprobe(instr: &mut Instrumentation, addr: u64, args: KProbeArgs) -> (r: bool)
    requires
        old(instr).inv(),
    ensures
        final(instr).inv(),
        r == can_register_kprobe(*old(instr), addr),
        !r ==> crate::probes::instr_unchanged(*old(instr), *final(instr)),
        r ==> {
            let (w, len) = word_at(old(instr).code@, addr)->Some_0;
            let p = final(instr).kprobes@[addr];
            &&& final(instr).kprobes@ == old(instr).kprobes@.insert(addr, p)
            &&& p.insn == w
            &&& p.insn_len == len
            &&& p.kind == crate::insn::spec_classify(w, len)
            &&& p.pre_handler == args.pre_handler
            &&& p.post_handler == args.post_handler
            &&& p.user_data == args.user_data
            &&& final(instr).code@ == old(instr).code@.insert(addr, EBREAK)
            &&& final(instr).kretprobes@ == old(instr).kretprobes@
            &&& final(instr).instances@ == old(instr).instances@
            &&& final(instr).tramp_pool == old(instr).tramp_pool
            &&& final(instr).buf_pool.base == old(instr).buf_pool.base
            &&& final(instr).buf_pool.stride == old(instr).buf_pool.stride
            &&& final(instr).buf_pool.slot_count() == old(instr).buf_pool.slot_count()
        },
{
    if instr.kprobes.contains_key(&addr) {
        return false;
    }
    let low = match instr.code.read(addr) {
        Some(l) => l,
        None => {
            return false;
        },
    };
    let len = insn_length(low);
    let w: u32;
    if len == 2 {
        w = low as u32;
        proof {
            assert((low as u32) < 0x10000 && ((low as u32) & 0xffff) as u16 == low) by (bit_vector);
            assert(low & 0b11 != 0b11 ==> (low as u32) & 0b11 != 0b11) by (bit_vector);
        }
    } else if len == 4 {
        if addr > u64::MAX - 2 {
            return false;
        }
        let hi = match instr.code.read(addr + 2) {
            Some(h) => h,
            None => {
                return false;
            },
        };
        w = (low as u32) | ((hi as u32) << 16);
        proof {
            assert((((low as u32) | ((hi as u32) << 16)) & 0xffff) as u16 == low) by (bit_vector);
            assert(((((low as u32) | ((hi as u32) << 16)) >> 16) & 0xffff) as u16 == hi)
                by (bit_vector);
            assert(low & 0b11 == 0b11 ==> ((low as u32) | ((hi as u32) << 16)) & 0b11 == 0b11)
                by (bit_vector);
        }
    } else {
        return false;
    }
    let kind = classify_word(w, len);
    if kind == SingleStepType::Unsupported {
        return false;
    }
    let buffer: Option<InstructionBuffer> = if kind == SingleStepType::Execute {
        match instr.buf_pool.acquire() {
            Some((slot, buf_addr)) => {
                let mut content: Vec<u16> = Vec::new();
                content.push(low);
                if len == 4 {
                    content.push(#[verifier::truncate] ((w >> 16) as u16));
                    proof {
                        assert(((w >> 16) & 0xffff) as u16 == (w >> 16) as u16) by (bit_vector);
                    }
                }
                content.push(EBREAK);
                proof {
                    assert(content@ =~= staged_content(w, len));
                }
                Some(InstructionBuffer { slot, addr: buf_addr, content })
            },
            None => {
                return false;
            },
        }
    } else {
        None
    };
    let saved = match install_breakpoint(&mut instr.code, addr) {
        Some(s) => s,
        None => {
            proof {
                assert(false);
            }
            return false;
        },
    };
    let probe = KProbe {
        pre_handler: args.pre_handler,
        post_handler: args.post_handler,
        user_data: args.user_data,
        insn: w,
        insn_len: len,
        kind,
        saved,
        buffer,
    };
    instr.kprobes.insert(addr, probe);
    proof {
        let s0 = *old(instr);
        let s1 = *instr;
        assert forall|a: u64| #[trigger] s1.kprobes@.dom().contains(a) implies kprobe_ok(
            s1.kprobes@[a],
            a,
            s1.code@,
            s1.buf_pool,
        ) by {
            if a != addr {
                assert(s0.kprobes@.dom().contains(a));
                assert(kprobe_ok(s0.kprobes@[a], a, s0.code@, s0.buf_pool));
            }
        }
    }
    true
}

/// Remove the probe at `addr`, restoring the original code parcel and
/// releasing its staging slot. Fails — reporting `false` and changing
/// nothing — when no probe is registered there.
pub fn unregister_kprobe(instr: &mut Instrumentation, addr: u64) -> (r: bool)
    requires
        old(instr).inv(),
    ensures
        final(instr).inv(),
        r == old(instr).kprobes@.dom().contains(addr),
        !r ==> crate::probes::instr_unchanged(*old(instr), *final(instr)),
        r ==> {
            let p = old(instr).kprobes@[addr];
            &&& final(instr).kprobes@ == old(instr).kprobes@.remove(addr)
            &&& final(instr).code@ == old(instr).code@.insert(addr, p.saved)
            &&& final(instr).kretprobes@ == old(instr).kretprobes@
            &&& final(instr).instances@ == old(instr).instances@
            &&& final(instr).tramp_pool == old(instr).tramp_pool
            &&& final(instr).buf_pool.base == old(instr).buf_pool.base
            &&& final(instr).buf_pool.stride == old(instr).buf_pool.stride
            &&& final(instr).buf_pool.slot_count() == old(instr).buf_pool.slot_count()
        },
{
    let (saved, buf_slot) = match instr.kprobes.get(&addr) {
        None => {
            return false;
        },
        Some(p) => (
            p.saved,
            match &p.buffer {
                Some(b) => Some(b.slot),
                None => None,
            },
        ),
    };
    instr.kprobes.remove(&addr);
    remove_breakpoint(&mut instr.code, addr, saved);
    if let Some(slot) = buf_slot {
        instr.buf_pool.free(slot);
    }
    proof {
        let s0 = *old(instr);
        let s1 = *instr;
        assert forall|a: u64| #[trigger] s1.kprobes@.dom().contains(a) implies kprobe_ok(
            s1.kprobes@[a],
            a,
            s1.code@,
            s1.buf_pool,
        ) by {
            assert(s0.kprobes@.dom().contains(a));
            assert(kprobe_ok(s0.kprobes@[a], a, s0.code@, s0.buf_pool));
            assert(a != addr);
        }
    }
    true
}

/// The kprobe trap handler: fired on every breakpoint exception, first in
/// dispatch order.
///
/// Looks the trapped program counter up in the probe table; reports the
/// trap as not ours when no probe is registered there. Otherwise runs the
/// probe's pre-phase (recording a caller handler, performing the kretprobe
/// entry trampoline, or flagging the tracepoint to dispatch), makes the
/// resume decision for the probed instruction, and records the post-handler
/// if one is registered.
pub fn kprobe_trap_handler(instr: &mut Instrumentation, tf: &mut TrapState) -> (r: TrapOutcome)
    requires
        old(instr).inv(),
        old(tf).wf(),
    ensures
        final(instr).inv(),
        final(tf).wf(),
        final(instr).code@ == old(instr).code@,
        final(instr).kprobes@ == old(instr).kprobes@,
        pool_unchanged(final(instr).buf_pool, old(instr).buf_pool),
        final(instr).tramp_pool.base == old(instr).tramp_pool.base,
        final(instr).tramp_pool.stride == old(instr).tramp_pool.stride,
        final(instr).tramp_pool.slot_count() == old(instr).tramp_pool.slot_count(),
        kprobe_fire_effect(*old(instr), *old(tf), *final(instr), *final(tf), r),
{
    let pc = tf.pc;
    let (insn, len, kind, pre, post, ud, buf_addr) = match instr.kprobes.get(&pc) {
        None => {
            return TrapOutcome {
                handled: false,
                invocations: Vec::new(),
                single_step: None,
                tracepoint: None,
            };
        },
        Some(p) => (
            p.insn,
            p.insn_len,
            p.kind,
            p.pre_handler,
            p.post_handler,
            p.user_data,
            match &p.buffer {
                Some(b) => Some(b.addr),
                None => None,
            },
        ),
    };
    let mut invocations: Vec<Invocation> = Vec::new();
    let mut tracepoint: Option<u64> = None;
    let ghost mut entry_inv: Option<Invocation> = None;
    match pre {
        ProbeHandler::User(h) => {
            invocations.push(Invocation { handler: h, user_data: ud });
        },
        ProbeHandler::KRetProbeEntry => {
            let e = kretprobe_kprobe_pre_handler(instr, tf);
            proof {
                entry_inv = e;
            }
            if let Some(iv) = e {
                invocations.push(iv);
            }
        },
        ProbeHandler::TracepointDispatch => {
            tracepoint = Some(pc);
        },
    }
    let ghost regs1 = tf.regs@;
    let single_step: Option<u64>;
    if kind == SingleStepType::Emulate {
        emulate_execution(tf, insn, pc);
        single_step = None;
    } else {
        tf.pc = pc.wrapping_add(len);
        single_step = buf_addr;
    }
    if let Some(h) = post {
        invocations.push(Invocation { handler: h, user_data: ud });
    }
    let r = TrapOutcome { handled: true, invocations, single_step, tracepoint };
    proof {
        let s0 = *old(instr);
        let p = s0.kprobes@[pc];
        if p.pre_handler == ProbeHandler::KRetProbeEntry {
            assert(entry_fire_effect(s0, pc, old(tf).regs@, *instr, regs1, entry_inv));
            assert(r.invocations@ == opt_invocations(entry_inv) + post_invocations(p));
        } else {
            assert(r.invocations@ == pre_invocations(p) + post_invocations(p));
        }
    }
    r
}

} // verus!
