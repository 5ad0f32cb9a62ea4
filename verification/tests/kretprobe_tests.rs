//! The kretprobe protocol on concrete call sequences: instance accounting,
//! the miss path at the limit, return-address restoration and drain-gated
//! unregistration.

use kprobes::code_mem::CodeMemory;
use kprobes::kretprobes::{register_kretprobe, unregister_kretprobe};
use kprobes::machine::{get_trapframe_ra, TrapState, REG_RA};
use kprobes::probes::{breakpoint_handler, HandlerRef, Instrumentation, KRetProbeArgs};

// addi x1, x1, 1 — a typical probed function-entry instruction
const ADDI: u32 = 0x00108093;

fn entry_instr(tramp_slots: usize) -> Instrumentation {
    let mut code = CodeMemory::new();
    code.write(0x1000, (ADDI & 0xffff) as u16);
    code.write(0x1002, (ADDI >> 16) as u16);
    Instrumentation::new(code, 0x20000, 4, 0x30000, tramp_slots)
}

fn ret_args(limit: Option<u64>) -> KRetProbeArgs {
    KRetProbeArgs {
        exit_handler: HandlerRef { id: 100 },
        entry_handler: Some(HandlerRef { id: 200 }),
        limit,
        user_data: 5,
    }
}

#[test]
fn kretprobe_intercepts_return() {
    let mut instr = entry_instr(4);
    assert!(register_kretprobe(&mut instr, 0x1000, ret_args(None)));

    // the call enters: the return address is redirected to a trampoline
    let mut tf = TrapState::new(0x1000);
    tf.set_reg(REG_RA, 0x5000);
    let outcome = breakpoint_handler(&mut instr, &mut tf);
    assert!(outcome.handled);
    assert_eq!(tf.pc, 0x1004);
    let tramp = get_trapframe_ra(&tf);
    assert_ne!(tramp, 0x5000);
    assert_eq!(outcome.invocations.len(), 1);
    assert_eq!(outcome.invocations[0].handler, HandlerRef { id: 200 });
    assert_eq!(instr.kretprobes.get(&0x1000).unwrap().nr_instances, 1);

    // the function returns into the trampoline: the exit handler is owed
    // and both the counter and the return-address register are restored
    let mut tf_ret = TrapState::new(tramp);
    tf_ret.set_reg(REG_RA, tramp);
    let outcome_ret = breakpoint_handler(&mut instr, &mut tf_ret);
    assert!(outcome_ret.handled);
    assert_eq!(tf_ret.pc, 0x5000);
    assert_eq!(get_trapframe_ra(&tf_ret), 0x5000);
    assert_eq!(outcome_ret.invocations.len(), 1);
    assert_eq!(outcome_ret.invocations[0].handler, HandlerRef { id: 100 });
    assert_eq!(outcome_ret.invocations[0].user_data, 5);
    assert_eq!(instr.kretprobes.get(&0x1000).unwrap().nr_instances, 0);
}

#[test]
fn instance_limit_counts_misses() {
    // limit 1: the second nested call is a miss — counted, uninstrumented,
    // its exit handler never runs
    let mut instr = entry_instr(4);
    assert!(register_kretprobe(&mut instr, 0x1000, ret_args(Some(1))));

    let mut tf1 = TrapState::new(0x1000);
    tf1.set_reg(REG_RA, 0x5000);
    let o1 = breakpoint_handler(&mut instr, &mut tf1);
    assert!(o1.handled);
    let tramp = get_trapframe_ra(&tf1);

    let mut tf2 = TrapState::new(0x1000);
    tf2.set_reg(REG_RA, 0x6000);
    let o2 = breakpoint_handler(&mut instr, &mut tf2);
    assert!(o2.handled);
    // untouched: the second call returns to its true caller
    assert_eq!(get_trapframe_ra(&tf2), 0x6000);
    // no entry invocation for the missed call
    assert!(o2.invocations.is_empty());
    let probe = instr.kretprobes.get(&0x1000).unwrap();
    assert_eq!(probe.nr_instances, 1);
    assert_eq!(probe.nr_misses, 1);

    // the second call's return traps nowhere: its address keys no instance
    let mut tf2_ret = TrapState::new(0x6000);
    let o2_ret = breakpoint_handler(&mut instr, &mut tf2_ret);
    assert!(!o2_ret.handled);

    // the first call still drains normally
    let mut tf1_ret = TrapState::new(tramp);
    tf1_ret.set_reg(REG_RA, tramp);
    let o1_ret = breakpoint_handler(&mut instr, &mut tf1_ret);
    assert!(o1_ret.handled);
    assert_eq!(tf1_ret.pc, 0x5000);
    assert_eq!(instr.kretprobes.get(&0x1000).unwrap().nr_instances, 0);
}

#[test]
fn trampoline_exhaustion_is_a_miss() {
    // one trampoline slot, no limit: the second in-flight call misses
    let mut instr = entry_instr(1);
    assert!(register_kretprobe(&mut instr, 0x1000, ret_args(None)));

    let mut tf1 = TrapState::new(0x1000);
    tf1.set_reg(REG_RA, 0x5000);
    assert!(breakpoint_handler(&mut instr, &mut tf1).handled);

    let mut tf2 = TrapState::new(0x1000);
    tf2.set_reg(REG_RA, 0x6000);
    assert!(breakpoint_handler(&mut instr, &mut tf2).handled);
    assert_eq!(get_trapframe_ra(&tf2), 0x6000);
    let probe = instr.kretprobes.get(&0x1000).unwrap();
    assert_eq!(probe.nr_instances, 1);
    assert_eq!(probe.nr_misses, 1);
}

#[test]
fn unregister_refused_while_instances_outstanding() {
    let mut instr = entry_instr(4);
    assert!(register_kretprobe(&mut instr, 0x1000, ret_args(None)));

    let mut tf = TrapState::new(0x1000);
    tf.set_reg(REG_RA, 0x5000);
    assert!(breakpoint_handler(&mut instr, &mut tf).handled);
    let tramp = get_trapframe_ra(&tf);

    // in flight: refused, and the instance table is intact
    assert!(!unregister_kretprobe(&mut instr, 0x1000));
    assert_eq!(instr.kretprobes.get(&0x1000).unwrap().nr_instances, 1);

    // drain, then unregistration succeeds and restores the probed bytes
    let mut tf_ret = TrapState::new(tramp);
    tf_ret.set_reg(REG_RA, tramp);
    assert!(breakpoint_handler(&mut instr, &mut tf_ret).handled);
    assert_eq!(tf_ret.pc, 0x5000);
    assert!(unregister_kretprobe(&mut instr, 0x1000));
    assert_eq!(instr.code.read(0x1000), Some((ADDI & 0xffff) as u16));
    assert!(!unregister_kretprobe(&mut instr, 0x1000));
}

#[test]
fn duplicate_kretprobe_is_refused() {
    let mut instr = entry_instr(4);
    assert!(register_kretprobe(&mut instr, 0x1000, ret_args(None)));
    assert!(!register_kretprobe(&mut instr, 0x1000, ret_args(None)));
}

#[test]
fn nested_calls_unwind_in_call_order() {
    // two nested calls: each return is steered by its own trampoline
    let mut instr = entry_instr(4);
    assert!(register_kretprobe(&mut instr, 0x1000, ret_args(None)));

    let mut tf1 = TrapState::new(0x1000);
    tf1.set_reg(REG_RA, 0x5000);
    assert!(breakpoint_handler(&mut instr, &mut tf1).handled);
    let tramp1 = get_trapframe_ra(&tf1);

    let mut tf2 = TrapState::new(0x1000);
    tf2.set_reg(REG_RA, 0x6000);
    assert!(breakpoint_handler(&mut instr, &mut tf2).handled);
    let tramp2 = get_trapframe_ra(&tf2);
    assert_ne!(tramp1, tramp2);
    assert_eq!(instr.kretprobes.get(&0x1000).unwrap().nr_instances, 2);

    // the inner call returns first
    let mut ret2 = TrapState::new(tramp2);
    ret2.set_reg(REG_RA, tramp2);
    assert!(breakpoint_handler(&mut instr, &mut ret2).handled);
    assert_eq!(ret2.pc, 0x6000);
    assert_eq!(instr.kretprobes.get(&0x1000).unwrap().nr_instances, 1);

    let mut ret1 = TrapState::new(tramp1);
    ret1.set_reg(REG_RA, tramp1);
    assert!(breakpoint_handler(&mut instr, &mut ret1).handled);
    assert_eq!(ret1.pc, 0x5000);
    assert_eq!(instr.kretprobes.get(&0x1000).unwrap().nr_instances, 0);
}
