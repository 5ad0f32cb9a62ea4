//! A fixed-region slot allocator.
//!
//! Both the single-step staging buffers and the kretprobe trampoline
//! breakpoints live in small reserved regions of executable memory, handed
//! out one fixed-size slot at a time. A slot pool owns such a region: a base
//! address, a stride, and one in-use flag per slot. Distinct slots have
//! distinct addresses, so an address returned by `acquire` is never equal to
//! that of any other live slot.

use vstd::prelude::*;
use vstd::arithmetic::mul::{lemma_mul_inequality, lemma_mul_strict_inequality};

verus! {

/// A reserved memory region handed out in fixed-size slots.
pub struct SlotPool {
    pub base: u64,
    pub stride: u64,
    pub used: Vec<bool>,
}

impl SlotPool {
    /// The region is well-formed: slots are at least a parcel wide and the
    /// whole region fits in the address space.
    pub open spec fn wf(self) -> bool {
        1 <= self.stride && self.base + self.used@.len() * self.stride <= u64::MAX
    }

    /// Number of slots in the region.
    pub open spec fn slot_count(self) -> nat {
        self.used@.len()
    }

    /// Whether slot `i` is currently handed out.
    pub open spec fn slot_used(self, i: int) -> bool {
        self.used@[i]
    }

    /// The address of slot `i`.
    pub open spec fn slot_addr(self, i: int) -> u64 {
        (self.base + i * self.stride) as u64
    }

    /// Whether every slot is handed out.
    pub open spec fn full(self) -> bool {
        forall|i: int| 0 <= i < self.slot_count() ==> self.slot_used(i)
    }

    /// A pool of `count` free slots of `stride` bytes starting at `base`.
    pub fn new(base: u64, stride: u64, count: usize) -> (r: SlotPool)
        requires
            1 <= stride,
            base + count * stride <= u64::MAX,
        ensures
            r.wf(),
            r.slot_count() == count,
            forall|i: int| 0 <= i < count ==> !r.slot_used(i),
            forall|i: int| 0 <= i < count ==> r.slot_addr(i) == (base + i * stride) as u64,
    {
        let mut used: Vec<bool> = Vec::new();
        let mut i: usize = 0;
        while i < count
            invariant
                i <= count,
                used@.len() == i,
                forall|j: int| 0 <= j < i ==> !used@[j],
            decreases count - i,
        {
            used.push(false);
            i = i + 1;
        }
        SlotPool { base, stride, used }
    }

    /// Hand out a free slot, if one is left: its index and its address.
    pub fn acquire(&mut self) -> (r: Option<(usize, u64)>)
        requires
            old(self).wf(),
        ensures
            final(self).wf(),
            final(self).base == old(self).base,
            final(self).stride == old(self).stride,
            final(self).slot_count() == old(self).slot_count(),
            match r {
                Some((i, addr)) => 0 <= i < old(self).slot_count() && !old(self).slot_used(i as int)
                    && addr == old(self).slot_addr(i as int)
                    && final(self).used@ == old(self).used@.update(i as int, true),
                None => old(self).full() && final(self).used@ == old(self).used@,
            },
    {
        let n = self.used.len();
        let mut i: usize = 0;
        while i < n
            invariant
                self == old(self),
                self.wf(),
                n == self.slot_count(),
                i <= n,
                forall|j: int| 0 <= j < i ==> self.slot_used(j),
            decreases n - i,
        {
            if !self.used[i] {
                proof {
                    lemma_mul_inequality(i as int, n as int, self.stride as int);
                    assert(self.base + (i as int) * self.stride <= u64::MAX);
                }
                let addr = self.base + (i as u64) * self.stride;
                self.used[i] = true;
                return Some((i, addr));
            }
            i = i + 1;
        }
        None
    }

    /// Return slot `i` to the pool.
    pub fn free(&mut self, i: usize)
        requires
            old(self).wf(),
            i < old(self).slot_count(),
            old(self).slot_used(i as int),
        ensures
            final(self).wf(),
            final(self).base == old(self).base,
            final(self).stride == old(self).stride,
            final(self).slot_count() == old(self).slot_count(),
            final(self).used@ == old(self).used@.update(i as int, false),
    {
        self.used[i] = false;
    }

    /// Distinct slots of one pool have distinct addresses.
    pub proof fn lemma_slot_addr_injective(self, i: int, j: int)
        requires
            self.wf(),
            0 <= i < self.slot_count(),
            0 <= j < self.slot_count(),
            i != j,
        ensures
            self.slot_addr(i) != self.slot_addr(j),
    {
        lemma_mul_inequality(i, self.slot_count() as int, self.stride as int);
        lemma_mul_inequality(j, self.slot_count() as int, self.stride as int);
        lemma_mul_inequality(0, i, self.stride as int);
        lemma_mul_inequality(0, j, self.stride as int);
        assert(0 <= self.base + i * self.stride <= u64::MAX);
        assert(0 <= self.base + j * self.stride <= u64::MAX);
        if i < j {
            lemma_mul_strict_inequality(i, j, self.stride as int);
        } else {
            lemma_mul_strict_inequality(j, i, self.stride as int);
        }
        assert(self.base + i * self.stride != self.base + j * self.stride);
    }
}

} // verus!
