//! Heap storage behind the kernel's growing tables.
//!
//! A table keeps its entries in one block of the kernel heap. When the block
//! is full the table takes a block of twice the capacity, moves over, and
//! gives the old block back.

use vstd::prelude::*;
use crate::mem::heap::{
    allocate, deallocate, can_insert, effective_align, effective_size, first_fit, spec_carve,
    spec_insert_region, KernelAllocator, Layout, ListNode, NODE_ALIGN,
};

verus! {

/// Capacity of a table's first block.
pub const INITIAL_CAPACITY: usize = 4;

/// The block behind a table: where it lies and how many entries it holds.
/// A capacity of zero means that no block was taken yet.
#[derive(Copy, Clone, Debug, PartialEq, Eq, Structural)]
pub struct Backing {
    pub addr: u64,
    pub capacity: usize,
}

/// How an attempt to make room ended.
#[derive(Copy, Clone, Debug, PartialEq, Eq, Structural)]
pub enum Growth {
    /// The block already holds that many entries.
    Enough,
    /// The table moved to a larger block.
    Grown,
    /// No capacity large enough can be counted.
    CapacityOverflow,
    /// A block of that capacity cannot be described.
    LayoutOverflow,
    /// The heap has no such block.
    OutOfMemory,
}

/// The first capacity in the row `capacity, 2 * capacity, 4 * capacity, ..`
/// that is not below `required`.
pub open spec fn doubled_until(capacity: int, required: int) -> int
    decreases (if capacity < required { required - capacity } else { 0 }),
{
    if capacity >= required || capacity <= 0 {
        capacity
    } else {
        doubled_until(2 * capacity, required)
    }
}

/// The capacity that a table of `capacity` entries grows to, to hold `required`.
pub open spec fn grown_capacity(capacity: usize, required: usize) -> int {
    doubled_until(if capacity == 0 { INITIAL_CAPACITY as int } else { capacity as int }, required as int)
}

/// What making room for `required` entries of `entry_bytes` each does to the
/// free list and to the block, and how it ends.
pub open spec fn spec_grow(
    list: Seq<ListNode>,
    backing: Backing,
    required: usize,
    entry_bytes: u64,
) -> (Seq<ListNode>, Backing, Growth) {
    let capacity = grown_capacity(backing.capacity, required);
    if required <= backing.capacity {
        (list, backing, Growth::Enough)
    } else if capacity > usize::MAX {
        (list, backing, Growth::CapacityOverflow)
    } else if capacity * entry_bytes > u64::MAX {
        (list, backing, Growth::LayoutOverflow)
    } else {
        let bytes = (capacity * entry_bytes) as u64;
        match first_fit(list, 0, effective_size(bytes), NODE_ALIGN) {
            None => (list, backing, Growth::OutOfMemory),
            Some((index, start)) => {
                let taken = spec_carve(list, index, start, effective_size(bytes));
                let old_bytes = effective_size((backing.capacity * entry_bytes) as u64);
                let released = if backing.capacity != 0 && can_insert(taken, backing.addr, old_bytes) {
                    spec_insert_region(taken, backing.addr, old_bytes)
                } else {
                    taken
                };
                (released, Backing { addr: start, capacity: capacity as usize }, Growth::Grown)
            },
        }
    }
}

impl Backing {
    /// The block's bytes can be counted.
    pub open spec fn wf(&self, entry_bytes: u64) -> bool {
        self.capacity * entry_bytes <= u64::MAX
    }

    /// A table without a block.
    pub fn new() -> (backing: Backing)
        ensures
            backing.capacity == 0,
            backing.addr == 0,
    {
        Backing { addr: 0, capacity: 0 }
    }

    /// Makes room for `required` entries of `entry_bytes` each.
    #[verifier::loop_isolation(false)]
    pub fn grow(&mut self, heap: &mut KernelAllocator, required: usize, entry_bytes: u64) -> (outcome:
        Growth)
        requires
            old(heap).wf(),
            old(self).wf(entry_bytes),
        ensures
            final(heap).wf(),
            final(heap).start == old(heap).start,
            final(heap).size == old(heap).size,
            final(self).wf(entry_bytes),
            (final(heap).list@, *final(self), outcome) == spec_grow(
                old(heap).list@,
                *old(self),
                required,
                entry_bytes,
            ),
            outcome == Growth::Enough || outcome == Growth::Grown <==> final(self).capacity
                >= required,
    {
        if required <= self.capacity {
            return Growth::Enough;
        }
        let mut capacity: usize = if self.capacity == 0 { INITIAL_CAPACITY } else { self.capacity };
        while capacity < required
            invariant
                capacity >= 1,
                doubled_until(capacity as int, required as int) == grown_capacity(
                    old(self).capacity,
                    required,
                ),
            decreases (if capacity < required { required - capacity } else { 0 }),
        {
            capacity = match capacity.checked_mul(2) {
                Some(c) => c,
                None => {
                    proof {
                        lemma_doubled_grows(2 * capacity, required as int);
                    }
                    return Growth::CapacityOverflow;
                },
            };
        }
        let bytes = match (capacity as u64).checked_mul(entry_bytes) {
            Some(b) => b,
            None => { return Growth::LayoutOverflow; },
        };
        let addr = match allocate(heap, Layout { size: bytes, align: NODE_ALIGN }) {
            Some(addr) => addr,
            None => { return Growth::OutOfMemory; },
        };
        if self.capacity != 0 {
            let old_bytes = self.capacity as u64 * entry_bytes;
            let _ = deallocate(heap, self.addr, Layout { size: old_bytes, align: NODE_ALIGN });
        }
        self.addr = addr;
        self.capacity = capacity;
        Growth::Grown
    }

    /// Gives the block back to the heap.
    pub fn release(&mut self, heap: &mut KernelAllocator, entry_bytes: u64)
        requires
            old(heap).wf(),
            old(self).wf(entry_bytes),
        ensures
            final(heap).wf(),
            final(heap).start == old(heap).start,
            final(heap).size == old(heap).size,
            final(self).capacity == 0,
            final(self).addr == 0,
            final(heap).list@ == (if old(self).capacity != 0 && can_insert(
                old(heap).list@,
                old(self).addr,
                effective_size((old(self).capacity * entry_bytes) as u64),
            ) {
                spec_insert_region(
                    old(heap).list@,
                    old(self).addr,
                    effective_size((old(self).capacity * entry_bytes) as u64),
                )
            } else {
                old(heap).list@
            }),
    {
        if self.capacity != 0 {
            let old_bytes = self.capacity as u64 * entry_bytes;
            let _ = deallocate(heap, self.addr, Layout { size: old_bytes, align: NODE_ALIGN });
        }
        self.addr = 0;
        self.capacity = 0;
    }
}

/// Doubling a positive capacity never ends below it.
pub proof fn lemma_doubled_grows(capacity: int, required: int)
    requires
        capacity >= 1,
    ensures
        doubled_until(capacity, required) >= capacity,
        doubled_until(capacity, required) >= required,
    decreases (if capacity < required { required - capacity } else { 0 }),
{
    if capacity < required {
        lemma_doubled_grows(2 * capacity, required);
    }
}

} // verus!
