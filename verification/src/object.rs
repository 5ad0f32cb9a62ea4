//! The handle-indexed object table of the attached-program facility, and
//! the tracepoint attachment lists that consume it.
//!
//! Handles come from a reserved numeric range, distinct from ordinary file
//! descriptors, and are allocated monotonically: a handle is never reused
//! while any object may still be named by it. The table invariant also
//! carries the attachment-liveness property: a tracepoint's program list
//! never contains a handle whose object has been closed.

use vstd::prelude::*;
use vstd::hash_map::HashMapWithView;
use crate::map::ArrayMap;
use crate::program::BpfProgram;
use crate::tracepoints::Tracepoint;

verus! {

/// First handle of the reserved range for maps and programs.
pub const BPF_FD_BASE: u32 = 0x80000000;

/// A stored object: a key/value map or a loaded program. The kind set is
/// closed by the control-plane interface.
pub enum BpfObject {
    MapObject(ArrayMap),
    Program(BpfProgram),
}

/// The object table, its handle allocator, and the tracepoint attachment
/// lists.
pub struct BpfObjects {
    /// Live objects keyed by handle.
    pub objects: HashMapWithView<u32, BpfObject>,
    /// The next handle to hand out.
    pub next_fd: u32,
    /// Attached programs per tracepoint, in attachment order.
    pub tracepoints: Vec<(Tracepoint, Vec<u32>)>,
}

/// Whether `tp` occurs as a key in the attachment lists.
pub open spec fn tp_listed(tps: Seq<(Tracepoint, Vec<u32>)>, tp: Tracepoint) -> bool {
    exists|i: int| 0 <= i < tps.len() && #[trigger] tps[i].0 == tp
}

impl BpfObjects {
    /// The table invariant: handles live in the reserved range below the
    /// allocation cursor, tracepoint keys are unique, and every attached
    /// handle names a live program object.
    pub open spec fn inv(self) -> bool {
        &&& self.next_fd >= BPF_FD_BASE
        &&& (forall|fd: u32| #[trigger]
            self.objects@.dom().contains(fd) ==> BPF_FD_BASE <= fd < self.next_fd)
        &&& (forall|fd: u32| #[trigger]
            self.objects@.dom().contains(fd) && self.objects@[fd] is MapObject
                ==> self.objects@[fd]->MapObject_0.wf())
        &&& (forall|i: int, j: int|
            0 <= i < self.tracepoints@.len() && 0 <= j < self.tracepoints@.len() && i != j
                ==> #[trigger] self.tracepoints@[i].0 != #[trigger] self.tracepoints@[j].0)
        &&& (forall|i: int, k: int|
            0 <= i < self.tracepoints@.len() && 0 <= k < #[trigger] self.tracepoints@[i].1@.len()
                ==> #[trigger] self.objects@.dom().contains(self.tracepoints@[i].1@[k])
                    && self.objects@[self.tracepoints@[i].1@[k]] is Program)
    }

    /// An empty table with no objects and no attachments.
    pub fn new() -> (r: BpfObjects)
        ensures
            r.inv(),
            r.objects@ == Map::<u32, BpfObject>::empty(),
            r.next_fd == BPF_FD_BASE,
            r.tracepoints@.len() == 0,
    {
        BpfObjects {
            objects: HashMapWithView::new(),
            next_fd: BPF_FD_BASE,
            tracepoints: Vec::new(),
        }
    }

    /// Hand out a fresh handle from the reserved range, or `None` when the
    /// range is exhausted. A fresh handle never collides with a live one.
    pub fn allocate_handle(&mut self) -> (r: Option<u32>)
        requires
            old(self).inv(),
        ensures
            final(self).inv(),
            final(self).objects@ == old(self).objects@,
            final(self).tracepoints@ == old(self).tracepoints@,
            match r {
                Some(fd) => fd == old(self).next_fd && !old(self).objects@.dom().contains(fd)
                    && final(self).next_fd == old(self).next_fd + 1,
                None => old(self).next_fd == u32::MAX && *final(self) == *old(self),
            },
    {
        if self.next_fd == u32::MAX {
            return None;
        }
        let fd = self.next_fd;
        self.next_fd = self.next_fd + 1;
        Some(fd)
    }
}

} // verus!
