//! The memory that a process owns: blocks of the kernel heap, with what they
//! are for and what the process may do with them.

use vstd::prelude::*;
use crate::mem::backing::{spec_grow, Backing, Growth};
use crate::mem::heap::{spec_free, KernelAllocator, Layout, ListNode};
use crate::process::types::{MemoryPermissions, MemoryRegionKind, ProcessError};

verus! {

/// Bytes that one region takes in the list's block of the heap.
pub const REGION_BYTES: u64 = 32;

/// A block of the kernel heap that a process owns.
#[derive(Clone, Copy, Debug, PartialEq, Eq, Structural)]
pub struct OwnedRegion {
    pub base: u64,
    pub layout: Layout,
    pub kind: MemoryRegionKind,
    pub permissions: MemoryPermissions,
}

/// The regions of a process, in a block of the kernel heap that grows with them.
pub struct MemoryRegionList {
    pub regions: Vec<OwnedRegion>,
    pub backing: Backing,
}

impl View for MemoryRegionList {
    type V = Seq<OwnedRegion>;

    open spec fn view(&self) -> Seq<OwnedRegion> {
        self.regions@
    }
}

/// What registering `region` does to the list and to the heap's free list:
/// room is made first, and without room nothing is registered.
pub open spec fn spec_register(
    regions: Seq<OwnedRegion>,
    backing: Backing,
    list: Seq<ListNode>,
    region: OwnedRegion,
) -> (Seq<OwnedRegion>, Backing, Seq<ListNode>, Result<(), ProcessError>) {
    if regions.len() + 1 > usize::MAX {
        (regions, backing, list, Err(ProcessError::AllocationFailed))
    } else {
        let (after, grown, growth) = spec_grow(list, backing, (regions.len() + 1) as usize, REGION_BYTES);
        if growth == Growth::Enough || growth == Growth::Grown {
            (regions.push(region), grown, after, Ok(()))
        } else {
            (regions, grown, after, Err(ProcessError::AllocationFailed))
        }
    }
}

/// The index of the first region that begins at `base`, or the number of
/// regions where none does.
pub open spec fn spec_position(regions: Seq<OwnedRegion>, base: u64) -> int
    decreases regions.len(),
{
    if regions.len() == 0 || regions[0].base == base {
        0
    } else {
        1 + spec_position(regions.drop_first(), base)
    }
}

/// The regions after the one at `index` was taken out: the last region
/// takes its place.
pub open spec fn spec_swap_remove<T>(entries: Seq<T>, index: int) -> Seq<T> {
    if index == entries.len() - 1 {
        entries.drop_last()
    } else {
        entries.update(index, entries.last()).drop_last()
    }
}

impl MemoryRegionList {
    /// The regions fit in the list's block.
    pub open spec fn wf(&self) -> bool {
        &&& self.regions@.len() <= self.backing.capacity
        &&& self.backing.wf(REGION_BYTES)
    }

    pub fn new() -> (list: MemoryRegionList)
        ensures
            list.wf(),
            list@.len() == 0,
            list.backing == (Backing { addr: 0, capacity: 0 }),
    {
        MemoryRegionList { regions: Vec::new(), backing: Backing::new() }
    }

    /// Appends a region.
    pub fn register(&mut self, heap: &mut KernelAllocator, region: OwnedRegion) -> (res: Result<
        (),
        ProcessError,
    >)
        requires
            old(self).wf(),
            old(heap).wf(),
        ensures
            final(self).wf(),
            final(heap).wf(),
            final(heap).start == old(heap).start,
            final(heap).size == old(heap).size,
            (final(self)@, final(self).backing, final(heap).list@, res) == spec_register(
                old(self)@,
                old(self).backing,
                old(heap).list@,
                region,
            ),
    {
        match self.ensure_capacity(heap, 1) {
            Ok(()) => {},
            Err(e) => { return Err(e); },
        }
        self.regions.push(region);
        Ok(())
    }

    /// Takes out the first region that begins at `ptr`.
    pub fn remove_by_ptr(&mut self, ptr: u64) -> (removed: Option<OwnedRegion>)
        requires
            old(self).wf(),
        ensures
            final(self).wf(),
            final(self).backing == old(self).backing,
            ({
                let index = spec_position(old(self)@, ptr);
                if index < old(self)@.len() {
                    removed == Some(old(self)@[index]) && final(self)@ == spec_swap_remove(
                        old(self)@,
                        index,
                    )
                } else {
                    removed is None && final(self)@ == old(self)@
                }
            }),
    {
        let mut index: usize = 0;
        assert(self@.subrange(0, self@.len() as int) =~= self@);
        while index < self.regions.len()
            invariant
                self.wf(),
                *self == *old(self),
                index <= self@.len(),
                spec_position(self@, ptr) == index + spec_position(
                    self@.subrange(index as int, self@.len() as int),
                    ptr,
                ),
            decreases self@.len() - index,
        {
            if self.regions[index].base == ptr {
                let removed = self.regions.swap_remove(index);
                assert(self@ =~= spec_swap_remove(old(self)@, index as int));
                return Some(removed);
            }
            assert(self@.subrange(index as int, self@.len() as int).drop_first() =~= self@.subrange(
                index + 1,
                self@.len() as int,
            ));
            index += 1;
        }
        None
    }

    /// The regions, in order.
    pub fn iter(&self) -> (regions: &Vec<OwnedRegion>)
        ensures
            regions@ == self@,
    {
        &self.regions
    }

    /// The regions, in order.
    pub fn as_slice(&self) -> (regions: &[OwnedRegion])
        ensures
            regions@ == self@,
    {
        self.regions.as_slice()
    }

    /// Takes the last region off the list, until none is left.
    pub fn drain_next(&mut self) -> (region: Option<OwnedRegion>)
        ensures
            final(self).backing == old(self).backing,
            old(self)@.len() == 0 ==> region is None && final(self)@ == old(self)@,
            old(self)@.len() > 0 ==> region == Some(old(self)@.last()) && final(self)@ == old(self)@.drop_last(),
    {
        self.regions.pop()
    }

    /// Makes room for `additional` more regions.
    pub fn ensure_capacity(&mut self, heap: &mut KernelAllocator, additional: usize) -> (res: Result<
        (),
        ProcessError,
    >)
        requires
            old(self).wf(),
            old(heap).wf(),
        ensures
            final(self).wf(),
            final(heap).wf(),
            final(heap).start == old(heap).start,
            final(heap).size == old(heap).size,
            final(self)@ == old(self)@,
            old(self)@.len() + additional > usize::MAX ==> res == Err::<(), ProcessError>(
                ProcessError::AllocationFailed,
            ) && final(self).backing == old(self).backing && final(heap).list@ == old(heap).list@,
            old(self)@.len() + additional <= usize::MAX ==> ({
                let (list, backing, growth) = spec_grow(
                    old(heap).list@,
                    old(self).backing,
                    (old(self)@.len() + additional) as usize,
                    REGION_BYTES,
                );
                &&& final(heap).list@ == list
                &&& final(self).backing == backing
                &&& res == (if growth == Growth::Enough || growth == Growth::Grown {
                    Ok::<(), ProcessError>(())
                } else {
                    Err::<(), ProcessError>(ProcessError::AllocationFailed)
                })
            }),
            res is Ok ==> final(self)@.len() + additional <= final(self).backing.capacity,
    {
        let required = match self.regions.len().checked_add(additional) {
            Some(r) => r,
            None => { return Err(ProcessError::AllocationFailed); },
        };
        match self.backing.grow(heap, required, REGION_BYTES) {
            Growth::Enough | Growth::Grown => Ok(()),
            _ => Err(ProcessError::AllocationFailed),
        }
    }

    /// Gives the list's block back to the heap. The regions are forgotten.
    pub fn release(&mut self, heap: &mut KernelAllocator)
        requires
            old(self).wf(),
            old(heap).wf(),
        ensures
            final(self).wf(),
            final(heap).wf(),
            final(heap).start == old(heap).start,
            final(heap).size == old(heap).size,
            final(self)@.len() == 0,
            final(self).backing == (Backing { addr: 0, capacity: 0 }),
            final(heap).list@ == (if old(self).backing.capacity != 0 {
                spec_free(
                    old(heap).list@,
                    old(self).backing.addr,
                    (old(self).backing.capacity * REGION_BYTES) as u64,
                )
            } else {
                old(heap).list@
            }),
    {
        self.regions.clear();
        self.backing.release(heap, REGION_BYTES);
    }
}

} // verus!
