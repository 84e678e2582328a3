//! The kernel heap: a first-fit allocator over a list of free regions.
//!
//! The list is kept in address order. Regions never overlap and never touch:
//! two free regions that meet are merged as soon as the second is inserted.

use vstd::prelude::*;
use crate::mem::paging::{round_up, is_power_of_two};
use crate::mem::phys::{align_up_u64, lemma_page_size_is_power_of_two, lemma_round_up_bounds};

verus! {

/// Size in bytes of the kernel heap.
pub const HEAP_SIZE: u64 = 1024 * 1024;

/// Bytes that the header of a free region takes: no region is smaller.
pub const NODE_SIZE: u64 = 16;

/// Alignment of the header of a free region: every region starts on it.
pub const NODE_ALIGN: u64 = 8;

/// The size and alignment of a block of memory.
#[derive(Copy, Clone, Debug, PartialEq, Eq, Structural)]
pub struct Layout {
    pub size: u64,
    pub align: u64,
}

impl Layout {
    /// The alignment is a power of two.
    pub open spec fn wf(&self) -> bool {
        is_power_of_two(self.align)
    }

    /// A layout of `size` bytes aligned to `align`, which must be a power of two.
    pub fn from_size_align(size: u64, align: u64) -> (res: Option<Layout>)
        ensures
            res is Some <==> is_power_of_two(align),
            res matches Some(layout) ==> layout.size == size && layout.align == align,
    {
        if crate::mem::paging::is_valid_alignment(align) {
            Some(Layout { size, align })
        } else {
            None
        }
    }

    pub fn size(&self) -> (n: u64)
        ensures
            n == self.size,
    {
        self.size
    }

    pub fn align(&self) -> (n: u64)
        ensures
            n == self.align,
    {
        self.align
    }
}

/// A free region. Its header lies at its first address.
#[derive(Copy, Clone, Debug, PartialEq, Eq, Structural)]
pub struct ListNode {
    pub addr: u64,
    pub size: u64,
}

impl ListNode {
    /// The address just past the region.
    pub open spec fn end(&self) -> int {
        self.addr + self.size
    }

    /// A region holds its own header, starts on the header's alignment and
    /// ends inside the address space.
    pub open spec fn wf(&self) -> bool {
        &&& self.size >= NODE_SIZE
        &&& self.addr % NODE_ALIGN == 0
        &&& self.addr + self.size <= u64::MAX
    }

    pub fn new(addr: u64, size: u64) -> (node: ListNode)
        ensures
            node.addr == addr,
            node.size == size,
    {
        ListNode { addr, size }
    }

    pub fn start_addr(&self) -> (addr: u64)
        ensures
            addr == self.addr,
    {
        self.addr
    }

    pub fn end_addr(&self) -> (addr: u64)
        requires
            self.addr + self.size <= u64::MAX,
        ensures
            addr == self.end(),
    {
        self.addr + self.size
    }
}

/// Every region is well formed, and each one ends at or before the start
/// of every later one.
pub open spec fn sorted_disjoint(regions: Seq<ListNode>) -> bool {
    &&& forall|i: int| 0 <= i < regions.len() ==> (#[trigger] regions[i]).wf()
    &&& forall|i: int, j: int|
        0 <= i < j < regions.len() ==> (#[trigger] regions[i]).end() <= (#[trigger] regions[j]).addr
}

/// The regions at `i` and `i + 1` meet.
pub open spec fn touching(regions: Seq<ListNode>, i: int) -> bool {
    0 <= i && i + 1 < regions.len() && regions[i].end() == regions[i + 1].addr
}

/// No two neighbours of the list meet: whatever could be merged has been.
pub open spec fn coalesced(regions: Seq<ListNode>) -> bool {
    forall|i: int| !#[trigger] touching(regions, i)
}

/// Neighbours meet at most where the region at `index` is one of the two.
pub open spec fn coalesced_but(regions: Seq<ListNode>, index: int) -> bool {
    forall|i: int| #[trigger] touching(regions, i) ==> i == index || i + 1 == index
}

/// The invariant of the free list.
pub open spec fn free_list_wf(regions: Seq<ListNode>) -> bool {
    sorted_disjoint(regions) && coalesced(regions)
}

/// The number of leading regions that start below `addr`: where a region
/// that starts at `addr` is inserted.
pub open spec fn insert_position(regions: Seq<ListNode>, addr: u64) -> int
    decreases regions.len(),
{
    if regions.len() == 0 || regions[0].addr >= addr {
        0
    } else {
        1 + insert_position(regions.drop_first(), addr)
    }
}

/// The bytes of all regions together.
pub open spec fn total_size(regions: Seq<ListNode>) -> int
    decreases regions.len(),
{
    if regions.len() == 0 {
        0
    } else {
        total_size(regions.drop_last()) + regions.last().size
    }
}

/// The range `[start, end)` lies between the regions around `index`.
pub open spec fn fits_at(regions: Seq<ListNode>, index: int, start: int, end: int) -> bool {
    &&& 0 <= index <= regions.len()
    &&& index > 0 ==> regions[index - 1].end() <= start
    &&& index < regions.len() ==> end <= regions[index].addr
}

/// The list after the region at `index` swallowed its successor, where the two meet.
pub open spec fn spec_merge_with_next(regions: Seq<ListNode>, index: int) -> Seq<ListNode> {
    if touching(regions, index) {
        regions.remove(index + 1).update(
            index,
            ListNode {
                addr: regions[index].addr,
                size: (regions[index].size + regions[index + 1].size) as u64,
            },
        )
    } else {
        regions
    }
}

/// The list after the predecessor of the region at `index` swallowed it, where the two meet.
pub open spec fn spec_merge_with_previous(regions: Seq<ListNode>, index: int) -> Seq<ListNode> {
    if touching(regions, index - 1) {
        regions.remove(index).update(
            index - 1,
            ListNode {
                addr: regions[index - 1].addr,
                size: (regions[index - 1].size + regions[index].size) as u64,
            },
        )
    } else {
        regions
    }
}

/// The region that is left of `[addr, addr + size)` once its start is moved
/// up to the header's alignment, if that is still large enough for a header.
pub open spec fn usable_part(addr: u64, size: u64) -> Option<ListNode> {
    let start = round_up(addr as int, NODE_ALIGN as int);
    let end = addr + size;
    if end <= u64::MAX && start < end && end - start >= NODE_SIZE {
        Some(ListNode { addr: start as u64, size: (end - start) as u64 })
    } else {
        None
    }
}

/// The list after `[addr, addr + size)` was given to it: the usable part of
/// the range is put in address order and merged with each neighbour that it
/// meets. A range with no usable part leaves the list as it is.
pub open spec fn spec_insert_region(regions: Seq<ListNode>, addr: u64, size: u64) -> Seq<ListNode> {
    match usable_part(addr, size) {
        None => regions,
        Some(node) => {
            let index = insert_position(regions, node.addr);
            spec_merge_with_previous(
                spec_merge_with_next(regions.insert(index, node), index),
                index,
            )
        },
    }
}

/// Whether giving `[addr, addr + size)` to the list is sound: its usable
/// part overlaps no region of the list.
pub open spec fn can_insert(regions: Seq<ListNode>, addr: u64, size: u64) -> bool {
    usable_part(addr, size) matches Some(node) ==> fits_at(
        regions,
        insert_position(regions, node.addr),
        node.addr as int,
        node.end(),
    )
}

/// What a request becomes: at least a header's size and alignment.
pub open spec fn effective_size(size: u64) -> u64 {
    if size >= NODE_SIZE { size } else { NODE_SIZE }
}

pub open spec fn effective_align(align: u64) -> u64 {
    if align >= NODE_ALIGN { align } else { NODE_ALIGN }
}

/// How a region serves a request.
pub enum Fit {
    /// The block's bounds do not fit in 64 bits: the search ends.
    Overflow,
    /// The region is too small: the search goes on.
    TooSmall,
    /// The block starts here.
    At(u64),
}

/// How `region` serves a request of `size` bytes aligned to `align`.
pub open spec fn fit_in(region: ListNode, size: u64, align: u64) -> Fit {
    let start = round_up(region.addr as int, align as int);
    if start + size > u64::MAX {
        Fit::Overflow
    } else if start + size > region.end() {
        Fit::TooSmall
    } else {
        Fit::At(start as u64)
    }
}

/// The index of the first region from `from` on that serves the request and
/// the address of the block in it, or nothing where no region does or the
/// search ends early.
pub open spec fn first_fit(regions: Seq<ListNode>, from: int, size: u64, align: u64) -> Option<
    (int, u64),
>
    decreases regions.len() - from,
{
    if from < 0 || from >= regions.len() {
        None
    } else {
        match fit_in(regions[from], size, align) {
            Fit::Overflow => None,
            Fit::TooSmall => first_fit(regions, from + 1, size, align),
            Fit::At(start) => Some((from, start)),
        }
    }
}

/// The list after a block of `size` bytes at `start` was cut out of the
/// region at `index`: the region leaves the list, and what is left of it
/// before and after the block is given back.
pub open spec fn spec_carve(regions: Seq<ListNode>, index: int, start: u64, size: u64) -> Seq<
    ListNode,
> {
    let region = regions[index];
    let without = regions.remove(index);
    let before = (start - region.addr) as u64;
    let after = (region.end() - (start + size)) as u64;
    let first = if before >= NODE_SIZE {
        spec_insert_region(without, region.addr, before)
    } else {
        without
    };
    if after >= NODE_SIZE {
        spec_insert_region(first, (start + size) as u64, after)
    } else {
        first
    }
}

/// The free list of the kernel heap.
pub struct LinkedListAllocator {
    pub regions: Vec<ListNode>,
}

impl View for LinkedListAllocator {
    type V = Seq<ListNode>;

    open spec fn view(&self) -> Seq<ListNode> {
        self.regions@
    }
}

impl LinkedListAllocator {
    /// The list is in address order, and no two of its regions overlap or meet.
    pub open spec fn wf(&self) -> bool {
        free_list_wf(self@)
    }

    /// An allocator with nothing to hand out.
    pub fn new() -> (heap: LinkedListAllocator)
        ensures
            heap.wf(),
            heap@.len() == 0,
    {
        LinkedListAllocator { regions: Vec::new() }
    }

    /// Starts over with `[heap_start, heap_start + heap_size)` as the only free memory.
    pub fn init(&mut self, heap_start: u64, heap_size: u64)
        ensures
            final(self).wf(),
            final(self)@ == spec_insert_region(Seq::empty(), heap_start, heap_size),
    {
        self.regions.clear();
        assert(self@ =~= Seq::<ListNode>::empty());
        assert(free_list_wf(self@));
        self.insert_region(heap_start, heap_size);
    }

    /// The least size of a free region.
    pub fn min_region_size() -> (size: u64)
        ensures
            size == NODE_SIZE,
    {
        NODE_SIZE
    }

    /// The bytes that are free.
    pub fn remaining(&self) -> (total: u64)
        requires
            self.wf(),
        ensures
            total == total_size(self@),
    {
        let mut total: u64 = 0;
        let mut i: usize = 0;
        while i < self.regions.len()
            invariant
                self.wf(),
                i <= self@.len(),
                total == total_size(self@.subrange(0, i as int)),
                i > 0 ==> total <= self@[i - 1].end(),
            decreases self@.len() - i,
        {
            assert(self@.subrange(0, i + 1).drop_last() =~= self@.subrange(0, i as int));
            assert(self@[i as int].wf());
            assert(i > 0 ==> self@[i - 1].end() <= self@[i as int].addr);
            total = total + self.regions[i].size;
            i += 1;
        }
        assert(self@.subrange(0, self@.len() as int) =~= self@);
        total
    }

    /// Takes a block of `size` bytes aligned to `align` out of the first
    /// region that can hold it, and returns the block's address. What is left
    /// of the region before and after the block goes back on the list where
    /// it is large enough for a header. Nothing is returned, and nothing
    /// changes, where no region can hold the block.
    pub fn allocate(&mut self, size: u64, align: u64) -> (res: Option<u64>)
        requires
            old(self).wf(),
        ensures
            final(self).wf(),
            match first_fit(old(self)@, 0, effective_size(size), effective_align(align)) {
                None => res is None && final(self)@ == old(self)@,
                Some((index, start)) => res == Some(start) && final(self)@ == spec_carve(
                    old(self)@,
                    index,
                    start,
                    effective_size(size),
                ),
            },
            res matches Some(addr) ==> addr % effective_align(align) == 0 && addr + effective_size(
                size,
            ) <= u64::MAX,
    {
        let need = if size >= NODE_SIZE { size } else { NODE_SIZE };
        let boundary = if align >= NODE_ALIGN { align } else { NODE_ALIGN };
        proof {
            lemma_page_size_is_power_of_two();
        }
        let mut i: usize = 0;
        while i < self.regions.len()
            invariant
                self.wf(),
                self@ == old(self)@,
                i <= self@.len(),
                need == effective_size(size),
                boundary == effective_align(align),
                first_fit(self@, i as int, need, boundary) == first_fit(old(self)@, 0, need, boundary),
            decreases self@.len() - i,
        {
            let region = self.regions[i];
            assert(self@[i as int].wf());
            proof {
                lemma_round_up_bounds(region.addr as int, boundary as int);
            }
            let misalignment = region.addr % boundary;
            proof {
                vstd::arithmetic::div_mod::lemma_mod_decreases(region.addr as nat, boundary as nat);
            }
            let alloc_start = if misalignment == 0 {
                region.addr
            } else {
                match (region.addr - misalignment).checked_add(boundary) {
                    Some(start) => start,
                    None => { return None; },
                }
            };
            let alloc_end = match alloc_start.checked_add(need) {
                Some(end) => end,
                None => { return None; },
            };
            let region_end = region.addr + region.size;
            if alloc_end > region_end {
                i += 1;
                continue;
            }
            let ghost before_list = self@;
            self.regions.remove(i);
            let excess_before = alloc_start - region.addr;
            let excess_after = region_end - alloc_end;
            proof {
                lemma_remove_keeps_wf(before_list, i as int);
                lemma_round_up_bounds(alloc_end as int, NODE_ALIGN as int);
                lemma_round_up_bounds(region.addr as int, NODE_ALIGN as int);
                let without = before_list.remove(i as int);
                if excess_before >= NODE_SIZE {
                    let node = usable_part(region.addr, excess_before)->0;
                    lemma_remove_separated(before_list, i as int, node.addr as int, node.end());
                    lemma_isolated_insert(without, region.addr, excess_before);
                    lemma_insert_position(without, node.addr);
                    if usable_part(alloc_end, excess_after) is Some {
                        let tail = usable_part(alloc_end, excess_after)->0;
                        lemma_remove_separated(
                            before_list,
                            i as int,
                            tail.addr as int,
                            tail.end(),
                        );
                        lemma_insert_separated(
                            without,
                            insert_position(without, node.addr),
                            node,
                            tail.addr as int,
                            tail.end(),
                        );
                    }
                    lemma_isolated_insert(
                        spec_insert_region(without, region.addr, excess_before),
                        alloc_end,
                        excess_after,
                    );
                } else {
                    if usable_part(alloc_end, excess_after) is Some {
                        let tail = usable_part(alloc_end, excess_after)->0;
                        lemma_remove_separated(
                            before_list,
                            i as int,
                            tail.addr as int,
                            tail.end(),
                        );
                    }
                    lemma_isolated_insert(without, alloc_end, excess_after);
                }
            }
            if excess_before >= NODE_SIZE {
                self.insert_region(region.addr, excess_before);
            }
            if excess_after >= NODE_SIZE {
                self.insert_region(alloc_end, excess_after);
            }
            return Some(alloc_start);
        }
        None
    }

    /// Gives the block of `size` bytes at `addr` back to the list. The block
    /// is merged with each free neighbour that it meets, so that afterwards
    /// no two free regions are adjacent.
    pub fn deallocate(&mut self, addr: u64, size: u64)
        requires
            old(self).wf(),
            can_insert(old(self)@, addr, effective_size(size)),
        ensures
            final(self).wf(),
            final(self)@ == spec_insert_region(old(self)@, addr, effective_size(size)),
    {
        let size = if size >= NODE_SIZE { size } else { NODE_SIZE };
        self.insert_region(addr, size);
    }

    /// Puts the usable part of `[addr, addr + size)` on the list, in address
    /// order, and merges it with each neighbour that it meets.
    pub fn insert_region(&mut self, addr: u64, size: u64)
        requires
            old(self).wf(),
            can_insert(old(self)@, addr, size),
        ensures
            final(self).wf(),
            final(self)@ == spec_insert_region(old(self)@, addr, size),
    {
        proof {
            lemma_page_size_is_power_of_two();
            lemma_round_up_bounds(addr as int, NODE_ALIGN as int);
        }
        if addr > u64::MAX - (NODE_ALIGN - 1) {
            return ;
        }
        let start = align_up_u64(addr, NODE_ALIGN);
        let end = match addr.checked_add(size) {
            Some(end) => end,
            None => { return ; },
        };
        if start >= end {
            return ;
        }
        let size = end - start;
        if size < NODE_SIZE {
            return ;
        }
        let mut index: usize = 0;
        assert(self@.subrange(0, self@.len() as int) =~= self@);
        while index < self.regions.len() && self.regions[index].addr < start
            invariant
                self@ == old(self)@,
                index <= self@.len(),
                insert_position(self@, start) == index + insert_position(
                    self@.subrange(index as int, self@.len() as int),
                    start,
                ),
            decreases self@.len() - index,
        {
            assert(self@.subrange(index as int, self@.len() as int).drop_first() =~= self@.subrange(
                index + 1,
                self@.len() as int,
            ));
            index += 1;
        }
        let node = ListNode::new(start, size);
        let ghost before_list = self@;
        self.regions.insert(index, node);
        proof {
            lemma_insert_keeps_order(before_list, index as int, node);
        }
        self.merge_with_next(index);
        self.merge_with_previous(index);
    }

    /// Tells whether `[addr, addr + size)` may be given to the list: whether
    /// its usable part overlaps no free region.
    pub fn can_take_back(&self, addr: u64, size: u64) -> (ok: bool)
        requires
            self.wf(),
        ensures
            ok == can_insert(self@, addr, size),
    {
        proof {
            lemma_page_size_is_power_of_two();
            lemma_round_up_bounds(addr as int, NODE_ALIGN as int);
        }
        if addr > u64::MAX - (NODE_ALIGN - 1) {
            return true;
        }
        let start = align_up_u64(addr, NODE_ALIGN);
        let end = match addr.checked_add(size) {
            Some(end) => end,
            None => { return true; },
        };
        if start >= end || end - start < NODE_SIZE {
            return true;
        }
        let mut index: usize = 0;
        assert(self@.subrange(0, self@.len() as int) =~= self@);
        while index < self.regions.len() && self.regions[index].addr < start
            invariant
                index <= self@.len(),
                insert_position(self@, start) == index + insert_position(
                    self@.subrange(index as int, self@.len() as int),
                    start,
                ),
            decreases self@.len() - index,
        {
            assert(self@.subrange(index as int, self@.len() as int).drop_first() =~= self@.subrange(
                index + 1,
                self@.len() as int,
            ));
            index += 1;
        }
        if index > 0 {
            let previous = self.regions[index - 1];
            assert(self@[index - 1].wf());
            if previous.addr + previous.size > start {
                return false;
            }
        }
        if index < self.regions.len() {
            if end > self.regions[index].addr {
                return false;
            }
        }
        true
    }

    /// Lets the region at `index` swallow its successor where the two meet.
    pub fn merge_with_next(&mut self, index: usize)
        requires
            sorted_disjoint(old(self)@),
            index < old(self)@.len(),
            coalesced_but(old(self)@, index as int),
        ensures
            final(self)@ == spec_merge_with_next(old(self)@, index as int),
            sorted_disjoint(final(self)@),
            coalesced_but(final(self)@, index as int),
            !touching(final(self)@, index as int),
            index < final(self)@.len(),
    {
        let len = self.regions.len();
        if index + 1 >= len {
            return ;
        }
        let node = self.regions[index];
        let next = self.regions[index + 1];
        assert(self@[index as int].wf() && self@[index + 1].wf());
        if node.addr + node.size != next.addr {
            return ;
        }
        let ghost before_list = self@;
        self.regions.remove(index + 1);
        self.regions[index] = ListNode { addr: node.addr, size: node.size + next.size };
        proof {
            lemma_merge_keeps_order(before_list, index as int);
            assert forall|i: int| #[trigger] touching(self@, i) implies i + 1 == index by {
                if i < index {
                    assert(touching(before_list, i));
                } else {
                    assert(touching(before_list, i + 1));
                }
            }
        }
    }

    /// Lets the predecessor of the region at `index` swallow it where the two meet.
    pub fn merge_with_previous(&mut self, index: usize)
        requires
            sorted_disjoint(old(self)@),
            index < old(self)@.len(),
            coalesced_but(old(self)@, index as int),
            !touching(old(self)@, index as int),
        ensures
            final(self)@ == spec_merge_with_previous(old(self)@, index as int),
            final(self).wf(),
    {
        if index == 0 {
            assert forall|i: int| !#[trigger] touching(self@, i) by {
                if touching(self@, i) {
                    assert(i == index || i + 1 == index);
                }
            }
            return ;
        }
        let node = self.regions[index];
        let previous = self.regions[index - 1];
        assert(self@[index as int].wf() && self@[index - 1].wf());
        if previous.addr + previous.size != node.addr {
            assert forall|i: int| !#[trigger] touching(self@, i) by {
                if touching(self@, i) {
                    assert(i == index || i + 1 == index);
                }
            }
            return ;
        }
        let ghost before_list = self@;
        self.regions.remove(index);
        self.regions[index - 1] = ListNode { addr: previous.addr, size: previous.size + node.size };
        proof {
            lemma_merge_keeps_order(before_list, index - 1);
            assert forall|i: int| !#[trigger] touching(self@, i) by {
                if touching(self@, i) {
                    if i < index - 1 {
                        assert(touching(before_list, i));
                    } else {
                        assert(touching(before_list, i + 1));
                    }
                }
            }
        }
    }
}

/// Taking a region out of a well-formed list leaves a well-formed list.
pub proof fn lemma_remove_keeps_wf(regions: Seq<ListNode>, index: int)
    requires
        free_list_wf(regions),
        0 <= index < regions.len(),
    ensures
        free_list_wf(regions.remove(index)),
{
    let after = regions.remove(index);
    assert forall|i: int| 0 <= i < after.len() implies (#[trigger] after[i]).wf() by {
        if i < index {
            assert(after[i] == regions[i]);
        } else {
            assert(after[i] == regions[i + 1]);
        }
    }
    assert forall|i: int, j: int| 0 <= i < j < after.len() implies (#[trigger] after[i]).end() <= (
    #[trigger] after[j]).addr by {
        let a = if i < index { i } else { i + 1 };
        let b = if j < index { j } else { j + 1 };
        assert(after[i] == regions[a] && after[j] == regions[b]);
        assert(regions[a].end() <= regions[b].addr);
    }
    assert forall|i: int| !#[trigger] touching(after, i) by {
        if touching(after, i) {
            if i + 1 < index {
                assert(touching(regions, i));
            } else if i >= index {
                assert(touching(regions, i + 1));
            } else {
                assert(after[i] == regions[i] && after[i + 1] == regions[i + 2]);
                assert(regions[i].end() <= regions[i + 1].addr);
                assert(regions[i + 1].wf());
                assert(regions[i + 1].end() <= regions[i + 2].addr);
            }
        }
    }
}

/// In a sorted list the insert position of an address splits the list into
/// the regions that start below the address and those that do not.
pub proof fn lemma_insert_position(regions: Seq<ListNode>, addr: u64)
    requires
        sorted_disjoint(regions),
    ensures
        0 <= insert_position(regions, addr) <= regions.len(),
        forall|i: int| 0 <= i < insert_position(regions, addr) ==> (#[trigger] regions[i]).addr < addr,
        forall|i: int|
            insert_position(regions, addr) <= i < regions.len() ==> (#[trigger] regions[i]).addr
                >= addr,
    decreases regions.len(),
{
    if regions.len() == 0 {
    } else if regions[0].addr >= addr {
        assert forall|i: int| 0 <= i < regions.len() implies (#[trigger] regions[i]).addr
            >= addr by {
            if i > 0 {
                assert(regions[0].wf());
                assert(regions[0].end() <= regions[i].addr);
            }
        }
    } else {
        let rest = regions.drop_first();
        assert forall|i: int| 0 <= i < rest.len() implies (#[trigger] rest[i]).wf() by {
            assert(rest[i] == regions[i + 1]);
        }
        assert forall|i: int, j: int| 0 <= i < j < rest.len() implies (#[trigger] rest[i]).end()
            <= (#[trigger] rest[j]).addr by {
            assert(rest[i] == regions[i + 1] && rest[j] == regions[j + 1]);
            assert(regions[i + 1].end() <= regions[j + 1].addr);
        }
        lemma_insert_position(rest, addr);
        let p = insert_position(rest, addr);
        assert forall|i: int| 0 <= i < p + 1 implies (#[trigger] regions[i]).addr < addr by {
            if i > 0 {
                assert(regions[i] == rest[i - 1]);
            }
        }
        assert forall|i: int| p + 1 <= i < regions.len() implies (#[trigger] regions[i]).addr
            >= addr by {
            assert(regions[i] == rest[i - 1]);
        }
    }
}

/// Putting a region into the gap at its insert position keeps the list in
/// order; neighbours may then meet only at the new region.
pub proof fn lemma_insert_keeps_order(regions: Seq<ListNode>, index: int, node: ListNode)
    requires
        free_list_wf(regions),
        node.wf(),
        fits_at(regions, index, node.addr as int, node.end()),
    ensures
        sorted_disjoint(regions.insert(index, node)),
        coalesced_but(regions.insert(index, node), index),
{
    let after = regions.insert(index, node);
    assert forall|i: int| 0 <= i < after.len() implies (#[trigger] after[i]).wf() by {
        if i < index {
            assert(after[i] == regions[i]);
        } else if i > index {
            assert(after[i] == regions[i - 1]);
        }
    }
    assert forall|i: int, j: int| 0 <= i < j < after.len() implies (#[trigger] after[i]).end() <= (
    #[trigger] after[j]).addr by {
        if j < index {
            assert(after[i] == regions[i] && after[j] == regions[j]);
        } else if i > index {
            assert(after[i] == regions[i - 1] && after[j] == regions[j - 1]);
            assert(regions[i - 1].end() <= regions[j - 1].addr);
        } else if i == index {
            assert(after[j] == regions[j - 1]);
            if j - 1 > index {
                assert(regions[index].end() <= regions[j - 1].addr);
                assert(regions[index].wf());
            }
        } else if j == index {
            assert(after[i] == regions[i]);
            if i < index - 1 {
                assert(regions[i].end() <= regions[index - 1].addr);
                assert(regions[index - 1].wf());
            }
        } else {
            assert(after[i] == regions[i] && after[j] == regions[j - 1]);
            assert(regions[i].end() <= regions[j - 1].addr);
        }
    }
    assert forall|i: int| #[trigger] touching(after, i) implies i == index || i + 1 == index by {
        if i + 1 < index {
            assert(touching(regions, i));
        } else if i > index {
            assert(after[i] == regions[i - 1] && after[i + 1] == regions[i]);
            assert(touching(regions, i - 1));
        }
    }
}

/// Merging two regions that meet keeps the list in order, and neighbours
/// meet afterwards only where they met before.
pub proof fn lemma_merge_keeps_order(regions: Seq<ListNode>, index: int)
    requires
        sorted_disjoint(regions),
        touching(regions, index),
    ensures
        sorted_disjoint(spec_merge_with_next(regions, index)),
        forall|i: int| #[trigger]
            touching(spec_merge_with_next(regions, index), i) ==> (i < index && touching(
                regions,
                i,
            )) || (i >= index && touching(regions, i + 1)),
{
    let merged = ListNode {
        addr: regions[index].addr,
        size: (regions[index].size + regions[index + 1].size) as u64,
    };
    let after = spec_merge_with_next(regions, index);
    assert(regions[index].wf() && regions[index + 1].wf());
    assert(merged.end() == regions[index + 1].end());
    assert forall|i: int| 0 <= i < after.len() implies (#[trigger] after[i]).wf() by {
        if i < index {
            assert(after[i] == regions[i]);
        } else if i > index {
            assert(after[i] == regions[i + 1]);
        }
    }
    assert forall|i: int, j: int| 0 <= i < j < after.len() implies (#[trigger] after[i]).end() <= (
    #[trigger] after[j]).addr by {
        let a = if i <= index { i } else { i + 1 };
        let b = if j <= index { j } else { j + 1 };
        if i == index {
            assert(after[j] == regions[j + 1]);
            if j + 1 > index + 1 {
                assert(regions[index + 1].end() <= regions[j + 1].addr);
            }
        } else if j == index {
            assert(after[i] == regions[i]);
            assert(regions[i].end() <= regions[index].addr);
        } else {
            assert(after[i] == regions[a] && after[j] == regions[b]);
            assert(regions[a].end() <= regions[b].addr);
        }
    }
    assert forall|i: int| #[trigger] touching(after, i) implies (i < index && touching(regions, i))
        || (i >= index && touching(regions, i + 1)) by {
        if i + 1 < index {
            assert(after[i] == regions[i] && after[i + 1] == regions[i + 1]);
        } else if i + 1 == index {
            assert(after[i] == regions[i]);
        } else if i == index {
            assert(after[i + 1] == regions[i + 2]);
        } else {
            assert(after[i] == regions[i + 1] && after[i + 1] == regions[i + 2]);
        }
    }
}

/// Every region of the list ends before `lo` or starts after `hi`, with a gap.
pub open spec fn separated_from(regions: Seq<ListNode>, lo: int, hi: int) -> bool {
    forall|i: int|
        0 <= i < regions.len() ==> (#[trigger] regions[i]).end() < lo || hi < regions[i].addr
}

/// Once a region has left a well-formed list, the rest of the list keeps a
/// gap to every part of it.
pub proof fn lemma_remove_separated(regions: Seq<ListNode>, index: int, lo: int, hi: int)
    requires
        free_list_wf(regions),
        0 <= index < regions.len(),
        regions[index].addr <= lo,
        hi <= regions[index].end(),
    ensures
        separated_from(regions.remove(index), lo, hi),
{
    let without = regions.remove(index);
    assert(regions[index].wf());
    assert forall|i: int| 0 <= i < without.len() implies (#[trigger] without[i]).end() < lo || hi
        < without[i].addr by {
        if i < index {
            assert(without[i] == regions[i]);
            assert(regions[i].wf());
            if i + 1 < index {
                assert(regions[i].end() <= regions[index - 1].addr);
                assert(regions[index - 1].wf());
                assert(regions[index - 1].end() <= regions[index].addr);
            } else {
                assert(regions[i].end() <= regions[index].addr);
                assert(!touching(regions, i));
            }
        } else {
            assert(without[i] == regions[i + 1]);
            if i + 1 > index + 1 {
                assert(regions[index].end() <= regions[index + 1].addr);
                assert(regions[index + 1].wf());
                assert(regions[index + 1].end() <= regions[i + 1].addr);
            } else {
                assert(regions[index].end() <= regions[i + 1].addr);
                assert(!touching(regions, index));
            }
        }
    }
}

/// A range whose usable part keeps a gap to every region of a well-formed
/// list may be given to it; it is then put on the list unmerged, and the list
/// stays well formed.
pub proof fn lemma_isolated_insert(regions: Seq<ListNode>, addr: u64, size: u64)
    requires
        free_list_wf(regions),
        usable_part(addr, size) matches Some(node) ==> separated_from(
            regions,
            node.addr as int,
            node.end(),
        ),
    ensures
        can_insert(regions, addr, size),
        free_list_wf(spec_insert_region(regions, addr, size)),
        usable_part(addr, size) matches Some(node) ==> spec_insert_region(regions, addr, size)
            == regions.insert(insert_position(regions, node.addr), node),
{
    lemma_round_up_bounds(addr as int, NODE_ALIGN as int);
    if usable_part(addr, size) is Some {
        let node = usable_part(addr, size)->0;
        lemma_insert_position(regions, node.addr);
        let p = insert_position(regions, node.addr);
        if p > 0 {
            assert(regions[p - 1].addr < node.addr);
            assert(regions[p - 1].wf());
        }
        if p < regions.len() {
            assert(regions[p].addr >= node.addr);
            assert(regions[p].wf());
        }
        lemma_insert_keeps_order(regions, p, node);
        let after = regions.insert(p, node);
        assert(!touching(after, p)) by {
            if p + 1 < after.len() {
                assert(after[p + 1] == regions[p]);
            }
        }
        assert(!touching(after, p - 1)) by {
            if p > 0 {
                assert(after[p - 1] == regions[p - 1]);
            }
        }
        assert forall|i: int| !#[trigger] touching(after, i) by {
            if touching(after, i) {
                assert(i == p || i + 1 == p);
            }
        }
    }
}

/// A list stays separated from a range when a region outside the range is
/// put on it.
pub proof fn lemma_insert_separated(
    regions: Seq<ListNode>,
    index: int,
    node: ListNode,
    lo: int,
    hi: int,
)
    requires
        0 <= index <= regions.len(),
        separated_from(regions, lo, hi),
        node.end() < lo || hi < node.addr,
    ensures
        separated_from(regions.insert(index, node), lo, hi),
{
    let after = regions.insert(index, node);
    assert forall|i: int| 0 <= i < after.len() implies (#[trigger] after[i]).end() < lo || hi
        < after[i].addr by {
        if i < index {
            assert(after[i] == regions[i]);
        } else if i > index {
            assert(after[i] == regions[i - 1]);
        }
    }
}

/// The list after the block of `size` bytes at `addr` was given back. A
/// block that overlaps free memory is refused: the list stays as it is.
pub open spec fn spec_free(regions: Seq<ListNode>, addr: u64, size: u64) -> Seq<ListNode> {
    if can_insert(regions, addr, effective_size(size)) {
        spec_insert_region(regions, addr, effective_size(size))
    } else {
        regions
    }
}

/// The kernel heap: the free list and the bounds of the memory that it manages.
pub struct KernelAllocator {
    pub list: LinkedListAllocator,
    pub start: u64,
    pub size: u64,
}

impl KernelAllocator {
    pub open spec fn wf(&self) -> bool {
        self.list.wf()
    }

    /// The first address of the heap and the address just past it.
    pub fn bounds(&self) -> (range: (u64, u64))
        requires
            self.start + self.size <= u64::MAX,
        ensures
            range.0 == self.start,
            range.1 == self.start + self.size,
    {
        (self.start, self.start + self.size)
    }
}

/// What is reported when the heap cannot serve a request. The kernel stops on it.
#[derive(Copy, Clone, Debug, PartialEq, Eq, Structural)]
pub struct AllocationFailure {
    pub size: u64,
    pub align: u64,
    pub remaining: u64,
}

/// Rounds `addr` up to a multiple of the power of two `align`.
pub fn align_up(addr: u64, align: u64) -> (res: u64)
    requires
        is_power_of_two(align),
        addr + align - 1 <= u64::MAX,
    ensures
        res as int == round_up(addr as int, align as int),
{
    align_up_u64(addr, align)
}

/// The report of a request that could not be served.
pub fn allocation_failed(layout: Layout, remaining: u64) -> (report: AllocationFailure)
    ensures
        report == (AllocationFailure { size: layout.size, align: layout.align, remaining }),
{
    AllocationFailure { size: layout.size, align: layout.align, remaining }
}

/// Sets the heap up over `[heap_start, heap_start + heap_size)`.
pub fn init(heap_start: u64, heap_size: u64) -> (heap: KernelAllocator)
    ensures
        heap.wf(),
        heap.start == heap_start,
        heap.size == heap_size,
        heap.list@ == spec_insert_region(Seq::empty(), heap_start, heap_size),
{
    let mut list = LinkedListAllocator::new();
    list.init(heap_start, heap_size);
    KernelAllocator { list, start: heap_start, size: heap_size }
}

/// The bytes of the heap that are free.
pub fn remaining_bytes(heap: &KernelAllocator) -> (total: u64)
    requires
        heap.wf(),
    ensures
        total == total_size(heap.list@),
{
    heap.list.remaining()
}

/// Takes a block of the given layout from the heap and returns its address.
pub fn allocate(heap: &mut KernelAllocator, layout: Layout) -> (res: Option<u64>)
    requires
        old(heap).wf(),
    ensures
        final(heap).wf(),
        final(heap).start == old(heap).start,
        final(heap).size == old(heap).size,
        match first_fit(
            old(heap).list@,
            0,
            effective_size(layout.size),
            effective_align(layout.align),
        ) {
            None => res is None && final(heap).list@ == old(heap).list@,
            Some((index, start)) => res == Some(start) && final(heap).list@ == spec_carve(
                old(heap).list@,
                index,
                start,
                effective_size(layout.size),
            ),
        },
        res matches Some(addr) ==> addr % effective_align(layout.align) == 0 && addr
            + effective_size(layout.size) <= u64::MAX,
{
    heap.list.allocate(layout.size, layout.align)
}

/// Gives the block of the given layout at `addr` back to the heap. A block
/// that overlaps free memory is refused: the heap is left as it is and
/// `false` is returned.
pub fn deallocate(heap: &mut KernelAllocator, addr: u64, layout: Layout) -> (done: bool)
    requires
        old(heap).wf(),
    ensures
        final(heap).wf(),
        final(heap).start == old(heap).start,
        final(heap).size == old(heap).size,
        done == can_insert(old(heap).list@, addr, effective_size(layout.size)),
        done ==> final(heap).list@ == spec_insert_region(
            old(heap).list@,
            addr,
            effective_size(layout.size),
        ),
        !done ==> final(heap).list@ == old(heap).list@,
        final(heap).list@ == spec_free(old(heap).list@, addr, layout.size),
{
    let size = if layout.size >= NODE_SIZE { layout.size } else { NODE_SIZE };
    if heap.list.can_take_back(addr, size) {
        heap.list.deallocate(addr, layout.size);
        true
    } else {
        false
    }
}

/// The list after a block of `size` bytes aligned to `align` was taken from
/// it, and the address of the block: the first region that fits gives it.
pub open spec fn spec_take(list: Seq<ListNode>, size: u64, align: u64) -> (Seq<ListNode>, Option<u64>) {
    match first_fit(list, 0, effective_size(size), effective_align(align)) {
        None => (list, None),
        Some((index, start)) => (spec_carve(list, index, start, effective_size(size)), Some(start)),
    }
}

/// What a request to change the size of a block comes to.
#[derive(Copy, Clone, Debug, PartialEq, Eq, Structural)]
pub struct Reallocation {
    /// Where the block lies afterwards; nothing where the request failed or
    /// the block was given up.
    pub addr: Option<u64>,
    /// How many bytes of the old block are to be copied to the new one.
    pub copy: u64,
}

/// The list after the block of `old_size` bytes at `ptr` was asked to become
/// one of `new_size` bytes, and what the request comes to.
///
/// An alignment that is no power of two fails. Without an old block the
/// request is an allocation. A new size of zero gives the block up.
/// Otherwise a new block is taken, the bytes that both blocks have room for
/// are to be copied, and the old block is given back; where no new block
/// can be had, the old one stays.
pub open spec fn spec_reallocate(
    list: Seq<ListNode>,
    ptr: u64,
    old_size: u64,
    align: u64,
    new_size: u64,
) -> (Seq<ListNode>, Reallocation) {
    let failed = Reallocation { addr: None, copy: 0 };
    if !is_power_of_two(align) {
        (list, failed)
    } else if ptr == 0 {
        let (after, addr) = spec_take(list, new_size, align);
        (after, Reallocation { addr, copy: 0 })
    } else if new_size == 0 {
        (spec_free(list, ptr, old_size), failed)
    } else {
        let (taken, addr) = spec_take(list, new_size, align);
        match addr {
            None => (list, failed),
            Some(to) => (
                spec_free(taken, ptr, old_size),
                Reallocation { addr: Some(to), copy: if old_size <= new_size { old_size } else { new_size } },
            ),
        }
    }
}

/// Changes the size of the block of `old_size` bytes at `ptr` to `new_size`
/// bytes. The caller copies the bytes that the result names.
pub fn reallocate(heap: &mut KernelAllocator, ptr: u64, old_size: u64, align: u64, new_size: u64) -> (res:
    Reallocation)
    requires
        old(heap).wf(),
    ensures
        final(heap).wf(),
        final(heap).start == old(heap).start,
        final(heap).size == old(heap).size,
        (final(heap).list@, res) == spec_reallocate(old(heap).list@, ptr, old_size, align, new_size),
{
    let failed = Reallocation { addr: None, copy: 0 };
    let new_layout = match Layout::from_size_align(new_size, align) {
        Some(layout) => layout,
        None => { return failed; },
    };
    if ptr == 0 {
        let addr = allocate(heap, new_layout);
        return Reallocation { addr, copy: 0 };
    }
    let old_layout = Layout { size: old_size, align };
    if new_size == 0 {
        let _ = deallocate(heap, ptr, old_layout);
        return failed;
    }
    match allocate(heap, new_layout) {
        None => failed,
        Some(to) => {
            let _ = deallocate(heap, ptr, old_layout);
            Reallocation { addr: Some(to), copy: if old_size <= new_size { old_size } else { new_size } }
        },
    }
}

/// The report for a request that the heap could not serve.
pub fn handle_alloc_error(heap: &KernelAllocator, layout: Layout) -> (report: AllocationFailure)
    requires
        heap.wf(),
    ensures
        report == (AllocationFailure {
            size: layout.size,
            align: layout.align,
            remaining: total_size(heap.list@) as u64,
        }),
{
    let remaining = heap.list.remaining();
    allocation_failed(layout, remaining)
}

/// A value that owns a block of the kernel heap.
pub struct HeapBox<T> {
    pub addr: u64,
    pub layout: Layout,
    pub value: T,
}

impl<T> HeapBox<T> {
    /// Takes a block of `layout` from the heap for `value`. Fails, and hands
    /// nothing out, where the heap cannot serve the layout.
    pub fn new(heap: &mut KernelAllocator, layout: Layout, value: T) -> (res: Result<HeapBox<T>, ()>)
        requires
            old(heap).wf(),
        ensures
            final(heap).wf(),
            final(heap).start == old(heap).start,
            final(heap).size == old(heap).size,
            match first_fit(
                old(heap).list@,
                0,
                effective_size(layout.size),
                effective_align(layout.align),
            ) {
                None => res is Err && final(heap).list@ == old(heap).list@,
                Some((index, start)) => res is Ok && res->Ok_0.addr == start && res->Ok_0.layout
                    == layout && res->Ok_0.value == value && final(heap).list@ == spec_carve(
                    old(heap).list@,
                    index,
                    start,
                    effective_size(layout.size),
                ),
            },
    {
        match allocate(heap, layout) {
            Some(addr) => Ok(HeapBox { addr, layout, value }),
            None => Err(()),
        }
    }

    /// The value in the box.
    pub fn get(&self) -> (value: &T)
        ensures
            *value == self.value,
    {
        &self.value
    }

    /// Gives the block back to the heap and hands the value out.
    pub fn release(self, heap: &mut KernelAllocator) -> (value: T)
        requires
            old(heap).wf(),
        ensures
            final(heap).wf(),
            final(heap).start == old(heap).start,
            final(heap).size == old(heap).size,
            value == self.value,
            can_insert(old(heap).list@, self.addr, effective_size(self.layout.size))
                ==> final(heap).list@ == spec_insert_region(
                old(heap).list@,
                self.addr,
                effective_size(self.layout.size),
            ),
            !can_insert(old(heap).list@, self.addr, effective_size(self.layout.size))
                ==> final(heap).list@ == old(heap).list@,
    {
        let _ = deallocate(heap, self.addr, self.layout);
        self.value
    }
}

} // verus!
