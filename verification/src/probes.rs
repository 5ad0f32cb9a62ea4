//! Shared state and shapes of the probe machinery.
//!
//! One [`Instrumentation`] value owns everything the trap path touches: the
//! code-memory model, the kprobe and kretprobe tables, the in-flight
//! kretprobe instance table, and the two reserved slot regions (single-step
//! staging buffers and return trampolines). Operations that touch both the
//! kretprobe table and the instance table always do so inside one call that
//! holds the whole value exclusively, which fixes the lock order the design
//! requires.
//!
//! Handler capabilities are data, not code: a caller registers a
//! [`HandlerRef`] token and the trap path returns, in order, the tokens to
//! invoke together with their opaque user data. The kernel around the
//! library maps tokens to real callbacks and runs them after the trap
//! decision; handlers therefore observe the trap state but do not mutate
//! the registry from inside the trap path, which is this module's stated
//! re-entrancy policy.

use vstd::prelude::*;
use vstd::hash_map::HashMapWithView;
use crate::code_mem::{CodeMemory, EBREAK};
use crate::insn::{spec_classify, spec_insn_length, SingleStepType};
use crate::pool::SlotPool;
use crate::machine::TrapState;

verus! {

/// An opaque capability naming a caller-supplied handler.
#[derive(Clone, Copy, Debug, PartialEq, Eq, Structural)]
pub struct HandlerRef {
    pub id: u64,
}

/// What a kprobe runs before replaying the probed instruction: a caller's
/// handler, or one of the two fixed internal handlers.
#[derive(Clone, Copy, Debug, PartialEq, Eq, Structural)]
pub enum ProbeHandler {
    /// A caller-registered capability, returned for the kernel to invoke.
    User(HandlerRef),
    /// The kretprobe entry trampoline: records an in-flight call instance
    /// and redirects the return address.
    KRetProbeEntry,
    /// The tracepoint dispatcher: reports the programs attached to the
    /// probed address so the kernel can run them.
    TracepointDispatch,
}

/// Arguments to kprobe registration.
#[derive(Clone, Copy, Debug)]
pub struct KProbeArgs {
    pub pre_handler: ProbeHandler,
    pub post_handler: Option<HandlerRef>,
    /// Opaque word handed back with every handler invocation.
    pub user_data: u64,
}

/// An owned staging buffer: a reserved executable slot holding a copy of
/// the probed instruction followed by a trap encoding, so the instruction
/// can be single-stepped out of line.
pub struct InstructionBuffer {
    /// Index of the slot in the buffer pool.
    pub slot: usize,
    /// Address of the slot — where the out-of-line step begins.
    pub addr: u64,
    /// The staged parcels: the original instruction, then `EBREAK`.
    pub content: Vec<u16>,
}

/// A registered probe, keyed by its instruction address.
pub struct KProbe {
    pub pre_handler: ProbeHandler,
    pub post_handler: Option<HandlerRef>,
    pub user_data: u64,
    /// The original instruction word (a compressed parcel zero-extended).
    pub insn: u32,
    /// Its encoded length: 2 or 4 bytes.
    pub insn_len: u64,
    /// How the instruction is replayed after the probe fires.
    pub kind: SingleStepType,
    /// The original parcel overwritten by the trap encoding.
    pub saved: u16,
    /// The staging buffer, for `Execute` probes only.
    pub buffer: Option<InstructionBuffer>,
}

/// A registered function-return probe, keyed by the function entry address.
#[derive(Clone, Copy)]
pub struct KRetProbe {
    pub entry_handler: Option<HandlerRef>,
    pub exit_handler: HandlerRef,
    /// Bound on concurrently in-flight calls.
    pub instance_limit: u64,
    pub user_data: u64,
    /// Calls currently in flight.
    pub nr_instances: u64,
    /// Calls that ran uninstrumented because the limit was reached.
    pub nr_misses: u64,
}

/// One in-flight call of a kretprobed function, keyed by the trampoline
/// breakpoint address its return was redirected to.
#[derive(Clone, Copy)]
pub struct KRetProbeInstance {
    /// The probed function's entry address, to find the owning kretprobe.
    pub entry_addr: u64,
    /// The call's original return address, restored when it returns.
    pub ret_addr: u64,
    /// Index of the trampoline slot backing this instance.
    pub slot: usize,
}

/// Arguments to kretprobe registration.
#[derive(Clone, Copy, Debug)]
pub struct KRetProbeArgs {
    pub exit_handler: HandlerRef,
    pub entry_handler: Option<HandlerRef>,
    /// Bound on in-flight calls; unbounded when absent.
    pub limit: Option<u64>,
    pub user_data: u64,
}

/// One handler invocation owed to the kernel: which capability to call and
/// with what opaque data.
#[derive(Clone, Copy, Debug, PartialEq, Eq, Structural)]
pub struct Invocation {
    pub handler: HandlerRef,
    pub user_data: u64,
}

/// What the trap path decided: whether the trap was ours, which handlers to
/// invoke (in order), whether an out-of-line single step at a staged buffer
/// is owed, and whether a tracepoint's programs must run.
pub struct TrapOutcome {
    pub handled: bool,
    /// Caller handlers to invoke, in firing order.
    pub invocations: Vec<Invocation>,
    /// Address of the staged copy to single-step, for an `Execute` probe.
    pub single_step: Option<u64>,
    /// The probed address whose attached programs must run, when the probe
    /// is a tracepoint.
    pub tracepoint: Option<u64>,
}

/// All shared state of the instrumentation subsystem.
pub struct Instrumentation {
    /// The kernel text this subsystem may instrument.
    pub code: CodeMemory,
    /// Probes keyed by instruction address.
    pub kprobes: HashMapWithView<u64, KProbe>,
    /// Return probes keyed by function entry address.
    pub kretprobes: HashMapWithView<u64, KRetProbe>,
    /// In-flight call instances keyed by trampoline address.
    pub instances: HashMapWithView<u64, KRetProbeInstance>,
    /// Reserved region for single-step staging buffers.
    pub buf_pool: SlotPool,
    /// Reserved region for return trampolines.
    pub tramp_pool: SlotPool,
}

/// The instruction word at `addr` and its length: the parcel at `addr`,
/// extended by the parcel at `addr + 2` for a 4-byte encoding. `None` when
/// the address is unmapped, the word is longer than 4 bytes, or the second
/// parcel is missing.
pub open spec fn word_at(code: Map<u64, u16>, addr: u64) -> Option<(u32, u64)> {
    if !code.dom().contains(addr) {
        None
    } else {
        let low = code[addr];
        if spec_insn_length(low) == 2 {
            Some((low as u32, 2))
        } else if spec_insn_length(low) == 4 {
            if addr + 2 <= u64::MAX && code.dom().contains((addr + 2) as u64) {
                Some(((low as u32) | ((code[(addr + 2) as u64] as u32) << 16), 4))
            } else {
                None
            }
        } else {
            None
        }
    }
}

/// The parcels staged in an `Execute` probe's buffer: the original
/// instruction followed by the trap encoding.
pub open spec fn staged_content(insn: u32, len: u64) -> Seq<u16> {
    if len == 2 {
        seq![(insn & 0xffff) as u16, EBREAK]
    } else {
        seq![(insn & 0xffff) as u16, ((insn >> 16) & 0xffff) as u16, EBREAK]
    }
}

/// Well-formedness of one registered probe at address `addr`.
pub open spec fn kprobe_ok(
    p: KProbe,
    addr: u64,
    code: Map<u64, u16>,
    buf_pool: SlotPool,
) -> bool {
    &&& (p.insn_len == 2 || p.insn_len == 4)
    &&& (p.insn_len == 2 ==> p.insn < 0x10000 && p.insn & 0b11 != 0b11)
    &&& (p.insn_len == 4 ==> p.insn & 0b11 == 0b11)
    &&& p.kind == spec_classify(p.insn, p.insn_len)
    &&& (p.kind == SingleStepType::Execute || p.kind == SingleStepType::Emulate)
    &&& p.saved == (p.insn & 0xffff) as u16
    &&& code.dom().contains(addr)
    &&& code[addr] == EBREAK
    &&& (p.kind == SingleStepType::Execute ==> p.buffer is Some && {
        let b = p.buffer->Some_0;
        &&& b.slot < buf_pool.slot_count()
        &&& buf_pool.slot_used(b.slot as int)
        &&& b.addr == buf_pool.slot_addr(b.slot as int)
        &&& b.content@ == staged_content(p.insn, p.insn_len)
    })
    &&& (p.kind == SingleStepType::Emulate ==> p.buffer is None)
}

/// Whether two slot pools are observably identical.
pub open spec fn pool_unchanged(a: SlotPool, b: SlotPool) -> bool {
    &&& a.base == b.base
    &&& a.stride == b.stride
    &&& a.used@ == b.used@
}

/// Whether two instrumentation states are observably identical: same code
/// bytes, same tables, same pools.
pub open spec fn instr_unchanged(a: Instrumentation, b: Instrumentation) -> bool {
    &&& a.code@ == b.code@
    &&& a.kprobes@ == b.kprobes@
    &&& a.kretprobes@ == b.kretprobes@
    &&& a.instances@ == b.instances@
    &&& pool_unchanged(a.buf_pool, b.buf_pool)
    &&& pool_unchanged(a.tramp_pool, b.tramp_pool)
}

/// The set of in-flight instances owned by the kretprobe at `entry`.
pub open spec fn ret_instances(m: Map<u64, KRetProbeInstance>, entry: u64) -> Set<u64> {
    m.dom().filter(|bp: u64| m[bp].entry_addr == entry)
}

impl Instrumentation {
    /// The subsystem invariant: every table entry is internally consistent,
    /// staged buffers and trampolines sit in live slots of their pools, and
    /// each kretprobe's in-flight counter equals the number of instances
    /// that name it and never exceeds its limit.
    pub open spec fn inv(self) -> bool {
        &&& self.buf_pool.wf()
        &&& self.tramp_pool.wf()
        &&& self.kprobes@.dom().finite()
        &&& self.instances@.dom().finite()
        &&& (forall|a: u64| #[trigger]
            self.kprobes@.dom().contains(a) ==> kprobe_ok(
                self.kprobes@[a],
                a,
                self.code@,
                self.buf_pool,
            ))
        &&& (forall|a1: u64, a2: u64|
            self.kprobes@.dom().contains(a1) && self.kprobes@.dom().contains(a2) && a1 != a2
                && #[trigger] self.kprobes@[a1].buffer is Some
                && #[trigger] self.kprobes@[a2].buffer is Some
                ==> self.kprobes@[a1].buffer->Some_0.slot != self.kprobes@[a2].buffer->Some_0.slot)
        &&& (forall|a: u64| #[trigger]
            self.kretprobes@.dom().contains(a) ==> {
                &&& self.kretprobes@[a].nr_instances <= self.kretprobes@[a].instance_limit
                &&& self.kretprobes@[a].nr_instances == ret_instances(self.instances@, a).len()
            })
        &&& (forall|bp: u64| #[trigger]
            self.instances@.dom().contains(bp) ==> {
                let inst = self.instances@[bp];
                &&& self.kretprobes@.dom().contains(inst.entry_addr)
                &&& inst.slot < self.tramp_pool.slot_count()
                &&& self.tramp_pool.slot_used(inst.slot as int)
                &&& bp == self.tramp_pool.slot_addr(inst.slot as int)
            })
    }

    /// A fresh, idle subsystem around the given code memory. The staging
    /// buffer region starts at `buf_base` with `buf_count` slots of 8
    /// bytes; the trampoline region starts at `tramp_base` with
    /// `tramp_count` slots of one parcel.
    pub fn new(code: CodeMemory, buf_base: u64, buf_count: usize, tramp_base: u64,
        tramp_count: usize) -> (r: Instrumentation)
        requires
            buf_base + buf_count * 8 <= u64::MAX,
            tramp_base + tramp_count * 2 <= u64::MAX,
        ensures
            r.inv(),
            r.code == code,
            r.kprobes@ == Map::<u64, KProbe>::empty(),
            r.kretprobes@ == Map::<u64, KRetProbe>::empty(),
            r.instances@ == Map::<u64, KRetProbeInstance>::empty(),
    {
        let r = Instrumentation {
            code,
            kprobes: HashMapWithView::new(),
            kretprobes: HashMapWithView::new(),
            instances: HashMapWithView::new(),
            buf_pool: SlotPool::new(buf_base, 8, buf_count),
            tramp_pool: SlotPool::new(tramp_base, 2, tramp_count),
        };
        proof {
            assert(ret_instances(r.instances@, 0u64) =~= Set::<u64>::empty());
        }
        r
    }
}

/// The top-level trap dispatch, invoked on every breakpoint exception: the
/// kprobe registry is tried first; when it reports the trap as not ours,
/// the kretprobe return path is tried.
pub fn breakpoint_handler(instr: &mut Instrumentation, tf: &mut TrapState) -> (r: TrapOutcome)
    requires
        old(instr).inv(),
        old(tf).wf(),
    ensures
        final(instr).inv(),
        final(tf).wf(),
        final(instr).code@ == old(instr).code@,
        final(instr).kprobes@ == old(instr).kprobes@,
        pool_unchanged(final(instr).buf_pool, old(instr).buf_pool),
        old(instr).kprobes@.dom().contains(old(tf).pc) ==> crate::kprobes::kprobe_fire_effect(
            *old(instr),
            *old(tf),
            *final(instr),
            *final(tf),
            r,
        ),
        !old(instr).kprobes@.dom().contains(old(tf).pc) ==> crate::kretprobes::ret_fire_effect(
            *old(instr),
            *old(tf),
            *final(instr),
            *final(tf),
            r,
        ),
{
    let r1 = crate::kprobes::kprobe_trap_handler(instr, tf);
    if r1.handled {
        return r1;
    }
    crate::kretprobes::kretprobe_trap_handler(instr, tf)
}

/// Law: registering a probe at an address that already has one is refused,
/// so two registrations at one address leave exactly the first probe active
/// and report failure for the second. Together with `register_kprobe`'s
/// contract — a refused registration reports `false` and changes nothing —
/// this pins the duplicate-registration behaviour.
pub proof fn lemma_duplicate_register_refused(s: Instrumentation, addr: u64)
    requires
        s.kprobes@.dom().contains(addr),
    ensures
        !crate::kprobes::can_register_kprobe(s, addr),
{
}

/// Law: hitting a registered probe on an `Execute`-classified instruction
/// resumes execution at the probed address plus the instruction's length,
/// leaves every register untouched, and owes a single step of the staged
/// buffer — which holds exactly the original instruction followed by the
/// trap encoding, so the step applies the original instruction's register
/// effects. `s1` is any state in which the probe stands registered (as
/// `register_kprobe`'s contract leaves it) and the remaining parameters
/// are one firing of the trap handler on it.
pub proof fn lemma_register_then_hit(
    s1: Instrumentation,
    tf0: TrapState,
    s2: Instrumentation,
    tf1: TrapState,
    r: TrapOutcome,
    addr: u64,
)
    requires
        s1.inv(),
        s1.kprobes@.dom().contains(addr),
        s1.kprobes@[addr].pre_handler is User,
        s1.kprobes@[addr].kind == SingleStepType::Execute,
        tf0.pc == addr,
        crate::kprobes::kprobe_fire_effect(s1, tf0, s2, tf1, r),
    ensures
        r.handled,
        tf1.pc == crate::insn::wadd(addr, s1.kprobes@[addr].insn_len),
        tf1.regs@ == tf0.regs@,
        r.single_step == Some(s1.kprobes@[addr].buffer->Some_0.addr),
        s1.kprobes@[addr].buffer->Some_0.content@ == staged_content(
            s1.kprobes@[addr].insn,
            s1.kprobes@[addr].insn_len,
        ),
        spec_classify(s1.kprobes@[addr].insn, s1.kprobes@[addr].insn_len)
            == SingleStepType::Execute,
        instr_unchanged(s1, s2),
{
    lemma_execute_probe_staged(s1, addr);
}

/// Law: hitting a registered probe on an emulated conditional branch with
/// the compared registers equal or unequal resumes at exactly the
/// branch-taken or branch-not-taken target, as the branch's comparison
/// demands. `s1` is any state in which the probe stands registered and the
/// remaining parameters are one firing of the trap handler on it.
pub proof fn lemma_branch_probe_hit(
    s1: Instrumentation,
    tf0: TrapState,
    s2: Instrumentation,
    tf1: TrapState,
    r: TrapOutcome,
    addr: u64,
)
    requires
        s1.inv(),
        tf0.wf(),
        s1.kprobes@.dom().contains(addr),
        s1.kprobes@[addr].pre_handler is User,
        s1.kprobes@[addr].kind == SingleStepType::Emulate,
        crate::insn::is_cond_branch(s1.kprobes@[addr].insn),
        tf0.pc == addr,
        crate::kprobes::kprobe_fire_effect(s1, tf0, s2, tf1, r),
    ensures
        r.handled,
        ({
            let w = s1.kprobes@[addr].insn;
            let a = tf0.regs@[crate::insn::rs1_of(w) as int];
            let b = tf0.regs@[crate::insn::rs2_of(w) as int];
            &&& (crate::insn::branch_taken(w, a, b) ==> tf1.pc == crate::insn::wadd(
                addr,
                crate::insn::b_imm(w),
            ))
            &&& (!crate::insn::branch_taken(w, a, b) ==> tf1.pc == crate::insn::wadd(addr, 4))
        }),
{
    let w = s1.kprobes@[addr].insn;
    assert(w & 0x7f == 0x63 ==> w & 0b11 == 0b11) by (bit_vector);
    assert((w >> 15) & 0x1f < 32 && (w >> 20) & 0x1f < 32) by (bit_vector);
    crate::insn::lemma_branch_emulation(w, addr, tf0.regs@);
}

/// Law: in any state satisfying the registry invariant, an `Execute`
/// probe's staging buffer holds exactly the original instruction followed
/// by the trap encoding, and the probed instruction really is classified
/// for out-of-line replay.
pub proof fn lemma_execute_probe_staged(s: Instrumentation, addr: u64)
    requires
        s.inv(),
        s.kprobes@.dom().contains(addr),
        s.kprobes@[addr].kind == SingleStepType::Execute,
    ensures
        s.kprobes@[addr].buffer is Some,
        s.kprobes@[addr].buffer->Some_0.content@ == staged_content(
            s.kprobes@[addr].insn,
            s.kprobes@[addr].insn_len,
        ),
        spec_classify(s.kprobes@[addr].insn, s.kprobes@[addr].insn_len)
            == SingleStepType::Execute,
        s.code@[addr] == EBREAK,
{
}

} // verus!
