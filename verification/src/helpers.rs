//! The helper calls exposed to loaded programs.
//!
//! A running program calls back into the kernel through a small fixed set
//! of helpers. Each one here takes the object table and plain values, and
//! reports a signed result: the operation's payload on success, `-1` on any
//! error, so a result is never mistaken for a valid pointer.

use vstd::prelude::*;
use crate::errors::{SysError, SysResult};
use crate::map::{bpf_map_lookup_helper, bpf_map_ops, BPF_MAP_DELETE_ELEM, BPF_MAP_UPDATE_ELEM};
use crate::object::BpfObjects;

verus! {

/// Name for what `dyn_fmt` produces when a format string with `{}`
/// placeholders is instantiated with the given words: the result depends
/// on the bytes and the words alone.
pub uninterp spec fn dyn_formatted(fmt: Seq<u8>, args: Seq<u64>) -> Seq<char>;

/// Relies on `dyn_fmt::Arguments`: formats a runtime format string with
/// the given words, ignoring surplus placeholders or arguments rather than
/// failing.
#[verifier::external_body]
fn dyn_format(fmt: &Vec<u8>, args: &Vec<u64>) -> (r: String)
    ensures
        r@ == dyn_formatted(fmt@, args@),
{
    let s = String::from_utf8_lossy(fmt);
    format!("{}", dyn_fmt::Arguments::new(&s, args.as_slice()))
}

/// Fold a control-plane result into a helper's signed return: the payload,
/// or `-1` for every error.
pub fn convert_result(result: SysResult) -> (r: i64)
    ensures
        result is Ok ==> r == result->Ok_0 as i64,
        result is Err ==> r == -1,
{
    match result {
        Ok(val) => #[verifier::truncate] (val as i64),
        Err(_) => -1,
    }
}

/// The do-nothing helper in slot zero of the helper table.
pub fn bpf_nop(_a1: u64, _a2: u64, _a3: u64, _a4: u64, _a5: u64) -> (r: i64)
    ensures
        r == 0,
{
    0
}

/// Helper: look a map slot up, reporting its byte offset or `-1`.
pub fn bpf_map_lookup_elem(bpf: &BpfObjects, map_fd: u32, key: &Vec<u8>) -> (r: i64)
    requires
        bpf.inv(),
    ensures
        !(bpf.objects@.dom().contains(map_fd) && bpf.objects@[map_fd] is MapObject) ==> r == -1,
        bpf.objects@.dom().contains(map_fd) && bpf.objects@[map_fd] is MapObject ==> {
            let m = bpf.objects@[map_fd]->MapObject_0;
            &&& (key@.len() != 4 ==> r == -1)
            &&& (key@.len() == 4 && crate::map::spec_key_index(key@) >= m.attr.max_entries ==> r
                == -1)
            &&& (key@.len() == 4 && crate::map::spec_key_index(key@) < m.attr.max_entries ==> r
                == ((crate::map::spec_key_index(key@) * m.attr.value_size) as u64) as i64)
        },
{
    convert_result(bpf_map_lookup_helper(bpf, map_fd, key))
}

/// Helper: update a map slot, reporting `0` or `-1`.
pub fn bpf_map_update_elem(bpf: &mut BpfObjects, map_fd: u32, key: &Vec<u8>, value: &Vec<u8>,
    flags: u64) -> (r: i64)
    requires
        old(bpf).inv(),
    ensures
        final(bpf).inv(),
        final(bpf).tracepoints@ == old(bpf).tracepoints@,
        final(bpf).objects@.dom() == old(bpf).objects@.dom(),
        !(old(bpf).objects@.dom().contains(map_fd) && old(bpf).objects@[map_fd] is MapObject)
            ==> r == -1,
        old(bpf).objects@.dom().contains(map_fd) && old(bpf).objects@[map_fd] is MapObject ==> {
            let m = old(bpf).objects@[map_fd]->MapObject_0;
            &&& (key@.len() == 4 && value@.len() == m.attr.value_size && crate::map::spec_key_index(
                key@,
            ) < m.attr.max_entries ==> r == 0 && final(bpf).objects@[map_fd] is MapObject
                && final(bpf).objects@[map_fd]->MapObject_0.storage@
                == crate::map::spec_update_storage(m, key@, value@))
            &&& (key@.len() != 4 || value@.len() != m.attr.value_size ==> r == -1)
            &&& (key@.len() == 4 && value@.len() == m.attr.value_size && crate::map::spec_key_index(
                key@,
            ) >= m.attr.max_entries ==> r == -1)
        },
{
    let res = bpf_map_ops(bpf, map_fd, BPF_MAP_UPDATE_ELEM, key, value, flags);
    match res {
        Ok(_) => 0,
        Err(_) => -1,
    }
}

/// Helper: delete a map slot — the array variant refuses deletion, so this
/// reports `-1` whatever the handle names.
pub fn bpf_map_delete_elem(bpf: &mut BpfObjects, map_fd: u32, key: &Vec<u8>) -> (r: i64)
    requires
        old(bpf).inv(),
    ensures
        final(bpf).inv(),
        final(bpf).tracepoints@ == old(bpf).tracepoints@,
        final(bpf).objects@.dom() == old(bpf).objects@.dom(),
        r == -1,
{
    let empty: Vec<u8> = Vec::new();
    let res = bpf_map_ops(bpf, map_fd, BPF_MAP_DELETE_ELEM, key, &empty, 0);
    match res {
        Ok(_) => 0,
        Err(_) => -1,
    }
}

/// Helper: the current kernel time in nanoseconds, computed from the
/// uptime in milliseconds that the kernel's clock reports.
pub fn bpf_ktime_get_ns(uptime_msec: u64) -> (r: i64)
    ensures
        r == vstd::wrapping::u64_specs::wrapping_mul(uptime_msec, 1000000) as i64,
{
    #[verifier::truncate] (uptime_msec.wrapping_mul(1000000) as i64)
}

/// Helper: render a trace line from a runtime format string and up to
/// three words. Reports the helper's status and the rendered line, which
/// the kernel prints to its console.
pub fn bpf_trace_printk(fmt: &Vec<u8>, p1: u64, p2: u64, p3: u64) -> (r: (i64, String))
    ensures
        r.0 == 0,
        r.1@ == dyn_formatted(fmt@, seq![p1, p2, p3]),
{
    let mut args: Vec<u64> = Vec::new();
    args.push(p1);
    args.push(p2);
    args.push(p3);
    proof {
        assert(args@ =~= seq![p1, p2, p3]);
    }
    let line = dyn_format(fmt, &args);
    (0, line)
}

} // verus!
