//! Function-return interception built on kprobes.
//!
//! A kretprobe wraps one kprobe at a function's entry. When that probe
//! fires, the entry trampoline records the call as an in-flight instance —
//! unless the probe's instance limit is reached, in which case the call is
//! counted as a miss and proceeds uninstrumented — and redirects the saved
//! return address to a freshly reserved trampoline breakpoint. When the
//! function returns, it traps at that trampoline; the return handler
//! invokes the exit capability, restores both the program counter and the
//! return-address register to the call's true return address, and retires
//! the instance.
//!
//! The registry invariant ties every kretprobe's `nr_instances` to the
//! exact number of live instances naming it and bounds it by
//! `instance_limit`; both facts hold in every reachable state.

use vstd::prelude::*;
use vstd::set_lib::lemma_len_subset;
use crate::machine::{get_trapframe_ra, set_trapframe_ra, set_trapframe_pc, TrapState};
use crate::kprobes::{can_register_kprobe, register_kprobe, unregister_kprobe};
use crate::probes::{
    instr_unchanged, pool_unchanged, ret_instances, Instrumentation, Invocation, KProbeArgs,
    KRetProbe, KRetProbeArgs, KRetProbeInstance, ProbeHandler, TrapOutcome,
};

verus! {

/// `p` after one missed call: the miss counter bumped (and pinned at its
/// ceiling rather than wrapping), everything else unchanged.
pub open spec fn with_miss(p: KRetProbe) -> KRetProbe {
    KRetProbe {
        nr_misses: if p.nr_misses == u64::MAX {
            p.nr_misses
        } else {
            (p.nr_misses + 1) as u64
        },
        ..p
    }
}

/// `p` after a call entered: one more in-flight instance.
pub open spec fn with_entry(p: KRetProbe) -> KRetProbe {
    KRetProbe { nr_instances: (p.nr_instances + 1) as u64, ..p }
}

/// `p` after a call returned: one in-flight instance retired.
pub open spec fn with_exit(p: KRetProbe) -> KRetProbe {
    KRetProbe { nr_instances: (p.nr_instances - 1) as u64, ..p }
}

/// How `ret_instances` changes under an insertion at a fresh key.
proof fn lemma_ret_instances_insert(
    m: Map<u64, KRetProbeInstance>,
    bp: u64,
    inst: KRetProbeInstance,
    x: u64,
)
    requires
        !m.dom().contains(bp),
    ensures
        inst.entry_addr == x ==> ret_instances(m.insert(bp, inst), x) == ret_instances(
            m,
            x,
        ).insert(bp),
        inst.entry_addr != x ==> ret_instances(m.insert(bp, inst), x) == ret_instances(m, x),
{
    if inst.entry_addr == x {
        assert(ret_instances(m.insert(bp, inst), x) =~= ret_instances(m, x).insert(bp));
    } else {
        assert(ret_instances(m.insert(bp, inst), x) =~= ret_instances(m, x));
    }
}

/// How `ret_instances` changes under a removal.
proof fn lemma_ret_instances_remove(m: Map<u64, KRetProbeInstance>, bp: u64, x: u64)
    requires
        m.dom().contains(bp),
    ensures
        m[bp].entry_addr == x ==> ret_instances(m.remove(bp), x) == ret_instances(m, x).remove(bp),
        m[bp].entry_addr != x ==> ret_instances(m.remove(bp), x) == ret_instances(m, x),
{
    if m[bp].entry_addr == x {
        assert(ret_instances(m.remove(bp), x) =~= ret_instances(m, x).remove(bp));
    } else {
        assert(ret_instances(m.remove(bp), x) =~= ret_instances(m, x));
    }
}

/// The instance sets are finite and no larger than the instance table.
proof fn lemma_ret_instances_finite(m: Map<u64, KRetProbeInstance>, x: u64)
    requires
        m.dom().finite(),
    ensures
        ret_instances(m, x).finite(),
        ret_instances(m, x).len() <= m.dom().len(),
{
    lemma_len_subset(ret_instances(m, x), m.dom());
}

/// Law: in every state satisfying the registry invariant, a kretprobe's
/// in-flight count never exceeds its instance limit, and equals the exact
/// number of live instances that name its entry address.
pub proof fn lemma_instance_limit(s: Instrumentation, entry: u64)
    requires
        s.inv(),
        s.kretprobes@.dom().contains(entry),
    ensures
        s.kretprobes@[entry].nr_instances <= s.kretprobes@[entry].instance_limit,
        s.kretprobes@[entry].nr_instances == ret_instances(s.instances@, entry).len(),
{
}

/// The effect of one firing of the entry trampoline at entry address `pc`,
/// relating the registry and register file before (`s0`, `regs0`) and after
/// (`s1`, `regs1`), and the entry invocation `r` owed to the kernel.
///
/// Unknown address: nothing happens. Limit reached or trampoline region
/// exhausted: one miss is recorded and the call proceeds untouched, so its
/// exit handler can never run. Otherwise one in-flight instance is recorded
/// under a fresh trampoline address and `ra` is redirected there.
pub open spec fn entry_fire_effect(
    s0: Instrumentation,
    pc: u64,
    regs0: Seq<u64>,
    s1: Instrumentation,
    regs1: Seq<u64>,
    r: Option<Invocation>,
) -> bool {
    if !s0.kretprobes@.dom().contains(pc) {
        &&& instr_unchanged(s0, s1)
        &&& regs1 == regs0
        &&& r is None
    } else {
        let p = s0.kretprobes@[pc];
        if p.nr_instances >= p.instance_limit || s0.tramp_pool.full() {
            &&& s1.kretprobes@ == s0.kretprobes@.insert(pc, with_miss(p))
            &&& s1.instances@ == s0.instances@
            &&& pool_unchanged(s1.tramp_pool, s0.tramp_pool)
            &&& regs1 == regs0
            &&& r is None
        } else {
            let bp = regs1[crate::machine::REG_RA as int];
            let inst = s1.instances@[bp];
            &&& !s0.instances@.dom().contains(bp)
            &&& inst.entry_addr == pc
            &&& inst.ret_addr == regs0[crate::machine::REG_RA as int]
            &&& s1.instances@ == s0.instances@.insert(bp, inst)
            &&& s1.kretprobes@ == s0.kretprobes@.insert(pc, with_entry(p))
            &&& regs1 == regs0.update(crate::machine::REG_RA as int, bp)
            &&& r == if p.entry_handler is Some {
                Some(Invocation { handler: p.entry_handler->Some_0, user_data: p.user_data })
            } else {
                None::<Invocation>
            }
        }
    }
}

/// The effect of one firing of the return-path handler at trapped address
/// `pc`: when `pc` keys no instance the trap is not ours and nothing
/// changes; otherwise the instance is retired, its owner's in-flight count
/// drops by one, the program counter and `ra` are both restored to the true
/// return address, and the exit capability is owed to the kernel.
pub open spec fn ret_fire_effect(
    s0: Instrumentation,
    tf0: TrapState,
    s1: Instrumentation,
    tf1: TrapState,
    r: TrapOutcome,
) -> bool {
    let pc = tf0.pc;
    &&& r.single_step is None
    &&& r.tracepoint is None
    &&& if !s0.instances@.dom().contains(pc) {
        &&& instr_unchanged(s0, s1)
        &&& tf1 == tf0
        &&& !r.handled
        &&& r.invocations@ == Seq::<Invocation>::empty()
    } else {
        let inst = s0.instances@[pc];
        let p = s0.kretprobes@[inst.entry_addr];
        &&& r.handled
        &&& s1.instances@ == s0.instances@.remove(pc)
        &&& s1.kretprobes@ == s0.kretprobes@.insert(inst.entry_addr, with_exit(p))
        &&& tf1.pc == inst.ret_addr
        &&& tf1.regs@ == tf0.regs@.update(crate::machine::REG_RA as int, inst.ret_addr)
        &&& s1.tramp_pool.used@ == s0.tramp_pool.used@.update(inst.slot as int, false)
        &&& r.invocations@ == seq![Invocation { handler: p.exit_handler, user_data: p.user_data }]
    }
}

/// The entry trampoline, fired as the pre-handler of a kretprobe's
/// underlying kprobe.
///
/// At the trapped entry address: when no kretprobe is registered there the
/// call is ignored. When the probe's limit is reached, or no trampoline
/// slot is left, the miss counter is bumped and the call proceeds with its
/// return address untouched — its exit handler will never run. Otherwise
/// the in-flight counter is bumped, an instance recording the true return
/// address is keyed by a fresh trampoline address, and the saved `ra` is
/// redirected there; the entry capability, if any, is handed back for the
/// kernel to invoke.
pub fn kretprobe_kprobe_pre_handler(instr: &mut Instrumentation, tf: &mut TrapState) -> (r: Option<
    Invocation,
>)
    requires
        old(instr).inv(),
        old(tf).wf(),
    ensures
        final(instr).inv(),
        final(tf).wf(),
        final(tf).pc == old(tf).pc,
        final(instr).code@ == old(instr).code@,
        final(instr).kprobes@ == old(instr).kprobes@,
        pool_unchanged(final(instr).buf_pool, old(instr).buf_pool),
        final(instr).tramp_pool.base == old(instr).tramp_pool.base,
        final(instr).tramp_pool.stride == old(instr).tramp_pool.stride,
        final(instr).tramp_pool.slot_count() == old(instr).tramp_pool.slot_count(),
        entry_fire_effect(
            *old(instr),
            old(tf).pc,
            old(tf).regs@,
            *final(instr),
            final(tf).regs@,
            r,
        ),
{
    let pc = tf.pc;
    let p = match instr.kretprobes.get(&pc) {
        None => {
            return None;
        },
        Some(p) => *p,
    };
    if p.nr_instances >= p.instance_limit {
        let misses = if p.nr_misses == u64::MAX {
            p.nr_misses
        } else {
            p.nr_misses + 1
        };
        instr.kretprobes.insert(pc, KRetProbe { nr_misses: misses, ..p });
        proof {
            restore_kretprobe_inv_after_miss(*old(instr), *instr, pc);
        }
        return None;
    }
    let (slot, bp) = match instr.tramp_pool.acquire() {
        None => {
            let misses = if p.nr_misses == u64::MAX {
                p.nr_misses
            } else {
                p.nr_misses + 1
            };
            instr.kretprobes.insert(pc, KRetProbe { nr_misses: misses, ..p });
            proof {
                restore_kretprobe_inv_after_miss(*old(instr), *instr, pc);
            }
            return None;
        },
        Some(pair) => pair,
    };
    let ra = get_trapframe_ra(tf);
    proof {
        if old(instr).instances@.dom().contains(bp) {
            let inst0 = old(instr).instances@[bp];
            old(instr).tramp_pool.lemma_slot_addr_injective(inst0.slot as int, slot as int);
        }
    }
    instr.instances.insert(bp, KRetProbeInstance { entry_addr: pc, ret_addr: ra, slot });
    instr.kretprobes.insert(pc, KRetProbe { nr_instances: p.nr_instances + 1, ..p });
    set_trapframe_ra(tf, bp);
    proof {
        let s0 = *old(instr);
        let s1 = *instr;
        let inst = KRetProbeInstance { entry_addr: pc, ret_addr: ra, slot };
        assert forall|a: u64| #[trigger] s1.kretprobes@.dom().contains(a) implies {
            &&& s1.kretprobes@[a].nr_instances <= s1.kretprobes@[a].instance_limit
            &&& s1.kretprobes@[a].nr_instances == ret_instances(s1.instances@, a).len()
        } by {
            lemma_ret_instances_finite(s0.instances@, a);
            lemma_ret_instances_insert(s0.instances@, bp, inst, a);
            if a == pc {
                assert(s0.kretprobes@.dom().contains(a));
            } else {
                assert(s0.kretprobes@.dom().contains(a));
            }
        }
        assert forall|b: u64| #[trigger] s1.instances@.dom().contains(b) implies {
            let i = s1.instances@[b];
            &&& s1.kretprobes@.dom().contains(i.entry_addr)
            &&& i.slot < s1.tramp_pool.slot_count()
            &&& s1.tramp_pool.slot_used(i.slot as int)
            &&& b == s1.tramp_pool.slot_addr(i.slot as int)
        } by {
            if b != bp {
                assert(s0.instances@.dom().contains(b));
            }
        }
    }
    match p.entry_handler {
        Some(h) => Some(Invocation { handler: h, user_data: p.user_data }),
        None => None,
    }
}

/// Re-establish the registry invariant after a miss: only the kretprobe
/// record at `pc` changed, and only its miss counter.
proof fn restore_kretprobe_inv_after_miss(s0: Instrumentation, s1: Instrumentation, pc: u64)
    requires
        s0.inv(),
        s0.kretprobes@.dom().contains(pc),
        s1.kretprobes@ == s0.kretprobes@.insert(pc, with_miss(s0.kretprobes@[pc])),
        s1.instances@ == s0.instances@,
        s1.kprobes@ == s0.kprobes@,
        s1.code@ == s0.code@,
        pool_unchanged(s1.buf_pool, s0.buf_pool),
        pool_unchanged(s1.tramp_pool, s0.tramp_pool),
    ensures
        s1.inv(),
{
    assert forall|a: u64| #[trigger] s1.kretprobes@.dom().contains(a) implies {
        &&& s1.kretprobes@[a].nr_instances <= s1.kretprobes@[a].instance_limit
        &&& s1.kretprobes@[a].nr_instances == ret_instances(s1.instances@, a).len()
    } by {
        assert(s0.kretprobes@.dom().contains(a));
    }
}

/// The return-path trap handler: fired when a redirected call returns into
/// its trampoline breakpoint.
///
/// If the trapped address keys no instance the trap is not ours. Otherwise
/// the owning kretprobe's exit capability is owed to the kernel, the
/// in-flight counter is decremented, both the program counter and the
/// return-address register are restored to the call's true return address,
/// the trampoline slot is released and the instance retired.
pub fn kretprobe_trap_handler(instr: &mut Instrumentation, tf: &mut TrapState) -> (r: TrapOutcome)
    requires
        old(instr).inv(),
        old(tf).wf(),
    ensures
        final(instr).inv(),
        final(tf).wf(),
        final(instr).code@ == old(instr).code@,
        final(instr).kprobes@ == old(instr).kprobes@,
        pool_unchanged(final(instr).buf_pool, old(instr).buf_pool),
        final(instr).tramp_pool.base == old(instr).tramp_pool.base,
        final(instr).tramp_pool.stride == old(instr).tramp_pool.stride,
        final(instr).tramp_pool.slot_count() == old(instr).tramp_pool.slot_count(),
        ret_fire_effect(*old(instr), *old(tf), *final(instr), *final(tf), r),
{
    let pc = tf.pc;
    let inst = match instr.instances.get(&pc) {
        None => {
            return TrapOutcome {
                handled: false,
                invocations: Vec::new(),
                single_step: None,
                tracepoint: None,
            };
        },
        Some(i) => *i,
    };
    proof {
        lemma_ret_instances_finite(old(instr).instances@, inst.entry_addr);
        assert(ret_instances(old(instr).instances@, inst.entry_addr).contains(pc));
        vstd::set::axiom_set_remove_len(ret_instances(old(instr).instances@, inst.entry_addr), pc);
    }
    let p = match instr.kretprobes.get(&inst.entry_addr) {
        None => {
            proof {
                assert(false);
            }
            return TrapOutcome {
                handled: false,
                invocations: Vec::new(),
                single_step: None,
                tracepoint: None,
            };
        },
        Some(p) => *p,
    };
    instr.kretprobes.insert(inst.entry_addr, KRetProbe { nr_instances: p.nr_instances - 1, ..p });
    instr.instances.remove(&pc);
    instr.tramp_pool.free(inst.slot);
    set_trapframe_pc(tf, inst.ret_addr);
    set_trapframe_ra(tf, inst.ret_addr);
    let mut invocations: Vec<Invocation> = Vec::new();
    invocations.push(Invocation { handler: p.exit_handler, user_data: p.user_data });
    proof {
        let s0 = *old(instr);
        let s1 = *instr;
        assert forall|a: u64| #[trigger] s1.kretprobes@.dom().contains(a) implies {
            &&& s1.kretprobes@[a].nr_instances <= s1.kretprobes@[a].instance_limit
            &&& s1.kretprobes@[a].nr_instances == ret_instances(s1.instances@, a).len()
        } by {
            assert(s0.kretprobes@.dom().contains(a));
            lemma_ret_instances_finite(s0.instances@, a);
            lemma_ret_instances_remove(s0.instances@, pc, a);
        }
        assert forall|b: u64| #[trigger] s1.instances@.dom().contains(b) implies {
            let i = s1.instances@[b];
            &&& s1.kretprobes@.dom().contains(i.entry_addr)
            &&& i.slot < s1.tramp_pool.slot_count()
            &&& s1.tramp_pool.slot_used(i.slot as int)
            &&& b == s1.tramp_pool.slot_addr(i.slot as int)
        } by {
            assert(s0.instances@.dom().contains(b));
            assert(b != pc);
            if s0.instances@[b].slot == inst.slot {
                s0.tramp_pool.lemma_slot_addr_injective(
                    s0.instances@[b].slot as int,
                    inst.slot as int,
                );
            }
        }
    }
    TrapOutcome { handled: true, invocations, single_step: None, tracepoint: None }
}

/// Register a kretprobe at `entry_addr`: a kprobe whose pre-handler is the
/// entry trampoline, plus a record holding the handlers, the optional
/// instance limit (unbounded when absent) and fresh counters.
///
/// Fails — reporting `false` and changing nothing — when a kretprobe is
/// already registered there or when the underlying kprobe registration
/// fails.
pub fn register_kretprobe(instr: &mut Instrumentation, entry_addr: u64, args: KRetProbeArgs) -> (r:
    bool)
    requires
        old(instr).inv(),
    ensures
        final(instr).inv(),
        r == (!old(instr).kretprobes@.dom().contains(entry_addr) && can_register_kprobe(
            *old(instr),
            entry_addr,
        )),
        !r ==> instr_unchanged(*old(instr), *final(instr)),
        r ==> {
            &&& final(instr).kretprobes@ == old(instr).kretprobes@.insert(
                entry_addr,
                KRetProbe {
                    entry_handler: args.entry_handler,
                    exit_handler: args.exit_handler,
                    instance_limit: if args.limit is Some {
                        args.limit->Some_0
                    } else {
                        u64::MAX
                    },
                    user_data: args.user_data,
                    nr_instances: 0,
                    nr_misses: 0,
                },
            )
            &&& final(instr).kprobes@.dom().contains(entry_addr)
            &&& final(instr).kprobes@ == old(instr).kprobes@.insert(
                entry_addr,
                final(instr).kprobes@[entry_addr],
            )
            &&& final(instr).kprobes@[entry_addr].pre_handler == ProbeHandler::KRetProbeEntry
            &&& final(instr).code@ == old(instr).code@.insert(entry_addr, crate::code_mem::EBREAK)
            &&& final(instr).instances@ == old(instr).instances@
            &&& pool_unchanged(final(instr).tramp_pool, old(instr).tramp_pool)
        },
{
    if instr.kretprobes.contains_key(&entry_addr) {
        return false;
    }
    let kargs = KProbeArgs {
        pre_handler: ProbeHandler::KRetProbeEntry,
        post_handler: None,
        user_data: args.user_data,
    };
    if !register_kprobe(instr, entry_addr, kargs) {
        return false;
    }
    let limit = match args.limit {
        Some(l) => l,
        None => u64::MAX,
    };
    let probe = KRetProbe {
        entry_handler: args.entry_handler,
        exit_handler: args.exit_handler,
        instance_limit: limit,
        user_data: args.user_data,
        nr_instances: 0,
        nr_misses: 0,
    };
    instr.kretprobes.insert(entry_addr, probe);
    proof {
        let s0 = *old(instr);
        let s1 = *instr;
        assert forall|a: u64| #[trigger] s1.kretprobes@.dom().contains(a) implies {
            &&& s1.kretprobes@[a].nr_instances <= s1.kretprobes@[a].instance_limit
            &&& s1.kretprobes@[a].nr_instances == ret_instances(s1.instances@, a).len()
        } by {
            if a == entry_addr {
                assert forall|b: u64| !(#[trigger] ret_instances(
                    s1.instances@,
                    a,
                ).contains(b)) by {
                    if s1.instances@.dom().contains(b) {
                        assert(s0.instances@.dom().contains(b));
                        assert(s0.kretprobes@.dom().contains(s0.instances@[b].entry_addr));
                    }
                }
                assert(ret_instances(s1.instances@, a) =~= Set::<u64>::empty());
            } else {
                assert(s0.kretprobes@.dom().contains(a));
            }
        }
    }
    true
}

/// Remove the kretprobe at `entry_addr` and its underlying kprobe.
///
/// Fails — reporting `false` and changing nothing — when no kretprobe is
/// registered there, when calls are still in flight (the caller must retry
/// once they drain), or when the underlying kprobe is gone.
pub fn unregister_kretprobe(instr: &mut Instrumentation, entry_addr: u64) -> (r: bool)
    requires
        old(instr).inv(),
    ensures
        final(instr).inv(),
        r == (old(instr).kretprobes@.dom().contains(entry_addr) && old(
            instr,
        ).kretprobes@[entry_addr].nr_instances == 0 && old(instr).kprobes@.dom().contains(
            entry_addr,
        )),
        !r ==> instr_unchanged(*old(instr), *final(instr)),
        old(instr).kretprobes@.dom().contains(entry_addr) && old(
            instr,
        ).kretprobes@[entry_addr].nr_instances > 0 ==> !r,
        r ==> {
            &&& final(instr).kretprobes@ == old(instr).kretprobes@.remove(entry_addr)
            &&& final(instr).kprobes@ == old(instr).kprobes@.remove(entry_addr)
            &&& final(instr).code@ == old(instr).code@.insert(
                entry_addr,
                old(instr).kprobes@[entry_addr].saved,
            )
            &&& final(instr).instances@ == old(instr).instances@
            &&& pool_unchanged(final(instr).tramp_pool, old(instr).tramp_pool)
        },
{
    let nr = match instr.kretprobes.get(&entry_addr) {
        None => {
            return false;
        },
        Some(p) => p.nr_instances,
    };
    if nr > 0 {
        return false;
    }
    if !unregister_kprobe(instr, entry_addr) {
        return false;
    }
    instr.kretprobes.remove(&entry_addr);
    proof {
        let s0 = *old(instr);
        let s1 = *instr;
        assert forall|a: u64| #[trigger] s1.kretprobes@.dom().contains(a) implies {
            &&& s1.kretprobes@[a].nr_instances <= s1.kretprobes@[a].instance_limit
            &&& s1.kretprobes@[a].nr_instances == ret_instances(s1.instances@, a).len()
        } by {
            assert(s0.kretprobes@.dom().contains(a));
        }
        assert forall|b: u64| #[trigger] s1.instances@.dom().contains(b) implies {
            let i = s1.instances@[b];
            &&& s1.kretprobes@.dom().contains(i.entry_addr)
            &&& i.slot < s1.tramp_pool.slot_count()
            &&& s1.tramp_pool.slot_used(i.slot as int)
            &&& b == s1.tramp_pool.slot_addr(i.slot as int)
        } by {
            assert(s0.instances@.dom().contains(b));
            if s0.instances@[b].entry_addr == entry_addr {
                lemma_ret_instances_finite(s0.instances@, entry_addr);
                assert(ret_instances(s0.instances@, entry_addr).contains(b));
                vstd::set::axiom_set_remove_len(
                    ret_instances(s0.instances@, entry_addr),
                    b,
                );
            }
        }
    }
    true
}

} // verus!
