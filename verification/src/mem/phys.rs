//! Physical frames: the map of usable memory and the allocator that walks it.

use vstd::prelude::*;
use crate::arch::mmu::KERNEL_VMA_BASE;
use crate::bytes::{read_u32_le, read_u64_le, spec_u32_le, spec_u64_le};
use crate::mem::paging::{round_up, round_down, lemma_mask_rounds_down, lemma_round_up_by_sum, lemma_power_of_two_bits};

verus! {

/// The most regions that the memory map keeps.
pub const MAX_REGIONS: usize = 128;

/// Size in bytes of one page.
pub const PAGE_SIZE: u64 = 4096;

/// The first megabyte stays reserved whatever the boot loader reports.
pub const RESERVED_END: u64 = 0x0010_0000;

/// Size in bytes of one frame.
pub const FRAME_SIZE: u64 = PAGE_SIZE;

/// A 4 KiB physical page, named by its base address.
#[derive(Copy, Clone, Debug, PartialEq, Eq, Structural)]
pub struct Frame {
    pub start: u64,
}

impl Frame {
    /// A frame lies on a page boundary.
    pub open spec fn wf(&self) -> bool {
        self.start % PAGE_SIZE == 0
    }

    /// The frame that holds `addr`.
    pub fn containing(addr: u64) -> (frame: Frame)
        ensures
            frame.wf(),
            frame.start <= addr < frame.start + FRAME_SIZE,
    {
        proof {
            lemma_page_size_is_power_of_two();
        }
        Frame { start: align_down_u64(addr, PAGE_SIZE) }
    }

    /// The frame's first address.
    pub fn start(&self) -> (addr: u64)
        ensures
            addr == self.start,
    {
        self.start
    }

    /// The address just past the frame.
    pub fn end(&self) -> (addr: u64)
        requires
            self.start + FRAME_SIZE <= u64::MAX,
        ensures
            addr == self.start + FRAME_SIZE,
    {
        self.start + FRAME_SIZE
    }

    /// The frame's index among all frames.
    pub fn number(&self) -> (n: u64)
        ensures
            n == self.start / FRAME_SIZE,
    {
        self.start / FRAME_SIZE
    }

    /// The physical address at which the frame's bytes begin.
    pub fn as_ptr(&self) -> (addr: u64)
        ensures
            addr == self.start,
    {
        self.start
    }
}

/// A run of adjacent frames.
#[derive(Copy, Clone, Debug)]
pub struct FrameRange {
    pub start: Frame,
    pub count: usize,
}

impl FrameRange {
    /// The run fits below the end of the address space.
    pub open spec fn wf(&self) -> bool {
        self.start.start + self.count * FRAME_SIZE <= u64::MAX
    }

    /// The frames of the run, in order.
    pub open spec fn frames(&self) -> Seq<Frame> {
        Seq::new(self.count as nat, |i: int| Frame { start: (self.start.start + i * FRAME_SIZE) as u64 })
    }

    pub fn start(&self) -> (frame: Frame)
        ensures
            frame == self.start,
    {
        self.start
    }

    pub fn count(&self) -> (n: usize)
        ensures
            n == self.count,
    {
        self.count
    }

    /// A cursor on the first frame of the run.
    pub fn iter(&self) -> (it: FrameIter)
        ensures
            it.next == self.start,
            it.remaining == self.count,
    {
        FrameIter { next: self.start, remaining: self.count }
    }
}

/// A cursor over a run of frames.
pub struct FrameIter {
    pub next: Frame,
    pub remaining: usize,
}

impl FrameIter {
    /// The frames left fit below the end of the address space.
    pub open spec fn wf(&self) -> bool {
        self.next.start + self.remaining * FRAME_SIZE <= u64::MAX
    }

    /// Hands out the frame under the cursor and moves on, until none is left.
    pub fn next(&mut self) -> (res: Option<Frame>)
        requires
            old(self).wf(),
        ensures
            final(self).wf(),
            old(self).remaining == 0 ==> res is None && *final(self) == *old(self),
            old(self).remaining > 0 ==> res == Some(old(self).next) && final(self).remaining
                == old(self).remaining - 1 && final(self).next.start == old(self).next.start
                + FRAME_SIZE,
    {
        if self.remaining == 0 {
            return None;
        }
        let current = self.next;
        assert(self.remaining * FRAME_SIZE >= FRAME_SIZE) by (nonlinear_arith)
            requires
                self.remaining >= 1,
        ;
        assert((self.remaining - 1) * FRAME_SIZE == self.remaining * FRAME_SIZE - FRAME_SIZE)
            by (nonlinear_arith);
        self.next = Frame { start: current.start + FRAME_SIZE };
        self.remaining -= 1;
        Some(current)
    }
}

/// A stretch of usable memory, as the boot loader reports it.
#[derive(Copy, Clone, Debug, PartialEq, Eq, Structural)]
pub struct MemoryRegion {
    pub base: u64,
    pub length: u64,
}

impl MemoryRegion {
    pub fn empty() -> (region: MemoryRegion)
        ensures
            region.base == 0,
            region.length == 0,
    {
        MemoryRegion { base: 0, length: 0 }
    }

    /// The address just past the region.
    pub fn end(&self) -> (addr: u64)
        requires
            self.base + self.length <= u64::MAX,
        ensures
            addr == self.base + self.length,
    {
        self.base + self.length
    }

    /// The number of pages that the region's length covers, a partial page counted.
    pub fn page_count(&self) -> (pages: u64)
        requires
            self.length + PAGE_SIZE - 1 <= u64::MAX,
        ensures
            pages == (self.length + PAGE_SIZE - 1) / (PAGE_SIZE as int),
    {
        (self.length + (PAGE_SIZE - 1)) / PAGE_SIZE
    }
}

/// The usable regions, in the order in which they were reported.
pub struct MemoryMap {
    pub regions: Vec<MemoryRegion>,
}

impl View for MemoryMap {
    type V = Seq<MemoryRegion>;

    open spec fn view(&self) -> Seq<MemoryRegion> {
        self.regions@
    }
}

impl MemoryMap {
    /// The map never holds more than `MAX_REGIONS` regions.
    pub open spec fn wf(&self) -> bool {
        self.regions@.len() <= MAX_REGIONS
    }

    pub fn new() -> (map: MemoryMap)
        ensures
            map.wf(),
            map@.len() == 0,
    {
        MemoryMap { regions: Vec::new() }
    }

    pub fn clear(&mut self)
        ensures
            final(self).wf(),
            final(self)@.len() == 0,
    {
        self.regions.clear();
    }

    /// Appends a region while there is room; a region past the limit is dropped.
    /// Returns whether the region was kept.
    pub fn add_region(&mut self, region: MemoryRegion) -> (kept: bool)
        requires
            old(self).wf(),
        ensures
            final(self).wf(),
            kept <==> old(self)@.len() < MAX_REGIONS,
            kept ==> final(self)@ == old(self)@.push(region),
            !kept ==> final(self)@ == old(self)@,
    {
        if self.regions.len() < MAX_REGIONS {
            self.regions.push(region);
            true
        } else {
            false
        }
    }

    /// The regions of the map, in order.
    pub fn iter(&self) -> (regions: &Vec<MemoryRegion>)
        ensures
            regions@ == self@,
    {
        &self.regions
    }
}

/// Where allocation from `region` may begin and must end, when anything of it
/// lies above `limit`: the first page boundary at or above both the region's
/// base and the limit, and the region's end. A region whose end does not fit
/// in 64 bits is not usable.
pub open spec fn usable_range(region: MemoryRegion, limit: u64) -> Option<(u64, u64)> {
    let end = region.base + region.length;
    let floor = if region.base >= limit { region.base } else { limit };
    let start = round_up(floor as int, PAGE_SIZE as int);
    if region.length > 0 && end <= u64::MAX && start < end {
        Some((start as u64, end as u64))
    } else {
        None
    }
}

/// The index of the first usable region at or after `from`, or the number of
/// regions when there is none.
pub open spec fn next_usable(map: Seq<MemoryRegion>, from: int, limit: u64) -> int
    decreases map.len() - from,
{
    if from < 0 || from >= map.len() {
        map.len() as int
    } else if usable_range(map[from], limit) is Some {
        from
    } else {
        next_usable(map, from + 1, limit)
    }
}

/// A bump allocator: a cursor inside the current region, and the index of the
/// region to look at next.
#[derive(Copy, Clone, Debug, PartialEq, Eq, Structural)]
pub struct FrameAllocator {
    pub current: u64,
    pub end: u64,
    pub region_index: usize,
}

impl FrameAllocator {
    /// While the cursor is inside a region it stands on a page boundary at or
    /// above the reserved floor, in the usable part of the region before
    /// `region_index`, and that part ends where the cursor's range ends.
    pub open spec fn wf(&self, map: Seq<MemoryRegion>, limit: u64) -> bool {
        &&& self.region_index <= map.len()
        &&& self.current < self.end ==> {
            &&& self.current % PAGE_SIZE == 0
            &&& self.current >= limit
            &&& self.region_index >= 1
            &&& usable_range(map[self.region_index - 1], limit) matches Some(range)
            &&& range.0 <= self.current
            &&& range.1 == self.end
        }
    }

    /// The allocator after it has moved to the next usable region, or run out.
    pub open spec fn spec_advance(self, map: Seq<MemoryRegion>, limit: u64) -> FrameAllocator {
        let k = next_usable(map, self.region_index as int, limit);
        if k < map.len() {
            let range = usable_range(map[k], limit)->0;
            FrameAllocator { current: range.0, end: range.1, region_index: (k + 1) as usize }
        } else {
            FrameAllocator { current: self.end, end: self.end, region_index: map.len() as usize }
        }
    }

    /// The allocator after one allocation, and the frame that it handed out.
    /// Address 0 is never handed out: it is skipped.
    pub open spec fn spec_allocate(self, map: Seq<MemoryRegion>, limit: u64) -> (
        FrameAllocator,
        Option<Frame>,
    )
        decreases map.len() - self.region_index, if self.current >= self.end {
            1int
        } else if self.current == 0 {
            2int
        } else {
            0int
        },
        when self.region_index <= map.len() <= usize::MAX
    {
        if self.current >= self.end {
            let moved = self.spec_advance(map, limit);
            if moved.current >= moved.end {
                (moved, None)
            } else {
                proof {
                    lemma_advance_progress(self, map, limit);
                }
                moved.spec_allocate(map, limit)
            }
        } else {
            let bumped = FrameAllocator {
                current: if self.current + PAGE_SIZE > u64::MAX {
                    u64::MAX
                } else {
                    (self.current + PAGE_SIZE) as u64
                },
                ..self
            };
            if self.current == 0 {
                bumped.spec_allocate(map, limit)
            } else {
                (bumped, Some(Frame { start: self.current }))
            }
        }
    }

    pub fn new() -> (alloc: FrameAllocator)
        ensures
            alloc.current == 0,
            alloc.end == 0,
            alloc.region_index == 0,
    {
        FrameAllocator { current: 0, end: 0, region_index: 0 }
    }

    /// Starts over on `map`: the cursor stands at the first usable region.
    pub fn init_from_map(&mut self, map: &MemoryMap, limit: u64)
        requires
            map.wf(),
        ensures
            *final(self) == FrameAllocator::new_spec().spec_advance(map@, limit),
            final(self).wf(map@, limit),
    {
        self.region_index = 0;
        self.current = 0;
        self.end = 0;
        self.advance_to_next_region(map, limit);
    }

    pub open spec fn new_spec() -> FrameAllocator {
        FrameAllocator { current: 0, end: 0, region_index: 0 }
    }

    /// Hands out the next frame of the map above `limit`, or nothing when the
    /// map is used up. What it hands out lies on a page boundary, at or above
    /// `limit`, and is never address 0.
    pub fn allocate(&mut self, map: &MemoryMap, limit: u64) -> (res: Option<Frame>)
        requires
            map.wf(),
            old(self).wf(map@, limit),
        ensures
            final(self).wf(map@, limit),
            (*final(self), res) == old(self).spec_allocate(map@, limit),
            res matches Some(frame) ==> frame.wf() && frame.start >= limit && frame.start != 0,
            final(self).region_index >= old(self).region_index,
    {
        loop
            invariant
                map.wf(),
                self.wf(map@, limit),
                self.spec_allocate(map@, limit) == old(self).spec_allocate(map@, limit),
                self.region_index >= old(self).region_index,
            decreases map@.len() - self.region_index, if self.current >= self.end {
                1int
            } else if self.current == 0 {
                2int
            } else {
                0int
            },
        {
            let ghost before = *self;
            if self.current >= self.end {
                self.advance_to_next_region(map, limit);
                if self.current >= self.end {
                    return None;
                }
                assert(before.spec_allocate(map@, limit) == self.spec_allocate(map@, limit));
            }
            let ghost inside = *self;
            let frame = self.current;
            self.current = self.current.saturating_add(PAGE_SIZE);
            if frame == 0 {
                assert(inside.spec_allocate(map@, limit) == self.spec_allocate(map@, limit));
                continue;
            }
            assert(inside.spec_allocate(map@, limit) == (*self, Some(Frame { start: frame })));
            return Some(Frame { start: frame });
        }
    }

    /// Takes a frame back. This allocator only moves forward: nothing changes.
    pub fn free(&mut self, frame: Frame)
        ensures
            *final(self) == *old(self),
    {
        let _ = frame;
    }

    /// Moves the cursor to the first usable region at or after `region_index`.
    /// When none is left the cursor is parked at the end of the last region.
    pub fn advance_to_next_region(&mut self, map: &MemoryMap, limit: u64)
        requires
            map.wf(),
            old(self).region_index <= map@.len(),
        ensures
            *final(self) == old(self).spec_advance(map@, limit),
            final(self).wf(map@, limit),
            final(self).current < final(self).end ==> final(self).region_index > old(self).region_index,
            final(self).region_index >= old(self).region_index,
    {
        while self.region_index < map.regions.len()
            invariant
                self.region_index <= map@.len(),
                self.end == old(self).end,
                self.region_index >= old(self).region_index,
                next_usable(map@, self.region_index as int, limit) == next_usable(
                    map@,
                    old(self).region_index as int,
                    limit,
                ),
            decreases map@.len() - self.region_index,
        {
            let region = map.regions[self.region_index];
            let ghost k = self.region_index as int;
            self.region_index += 1;
            if region.length == 0 {
                continue;
            }
            let end = match region.base.checked_add(region.length) {
                Some(end) => end,
                None => { continue; },
            };
            if end <= limit {
                proof {
                    lemma_round_up_bounds(limit as int, PAGE_SIZE as int);
                }
                continue;
            }
            let start_base = if region.base >= limit { region.base } else { limit };
            proof {
                lemma_round_up_bounds(start_base as int, PAGE_SIZE as int);
            }
            if start_base > u64::MAX - (PAGE_SIZE - 1) {
                continue;
            }
            proof {
                lemma_page_size_is_power_of_two();
            }
            let start = align_up_u64(start_base, PAGE_SIZE);
            if start < end {
                self.current = start;
                self.end = end;
                assert(next_usable(map@, k, limit) == k);
                return;
            }
        }
        self.current = self.end;
    }
}

/// Whether `addr` lies in the part of `region` that frames are taken from.
pub open spec fn in_usable(region: MemoryRegion, limit: u64, addr: u64) -> bool {
    usable_range(region, limit) matches Some(range) && range.0 <= addr < range.1
}

/// No address lies in the usable part of two regions of the map.
pub open spec fn usable_disjoint(map: Seq<MemoryRegion>, limit: u64) -> bool {
    forall|i: int, j: int, addr: u64|
        0 <= i < j < map.len() && #[trigger] in_usable(map[i], limit, addr) ==> !#[trigger] in_usable(
            map[j],
            limit,
            addr,
        )
}

/// Whether the allocator is past `addr` in region `j`: the region lies
/// before the one that the cursor is in, or it is that one and `addr` lies
/// below the cursor.
pub open spec fn passed_in(
    alloc: FrameAllocator,
    map: Seq<MemoryRegion>,
    limit: u64,
    addr: u64,
    j: int,
) -> bool {
    &&& 0 <= j < alloc.region_index
    &&& j < map.len()
    &&& in_usable(map[j], limit, addr)
    &&& j + 1 == alloc.region_index ==> addr < alloc.current || alloc.current >= alloc.end
}

/// Whether the allocator is past `addr`: what it is past, it has handed out
/// or skipped.
pub open spec fn passed(alloc: FrameAllocator, map: Seq<MemoryRegion>, limit: u64, addr: u64) -> bool {
    exists|j: int| passed_in(alloc, map, limit, addr, j)
}

/// The allocator after `n` allocations.
pub open spec fn spec_allocator_after(
    alloc: FrameAllocator,
    map: Seq<MemoryRegion>,
    limit: u64,
    n: nat,
) -> FrameAllocator
    decreases n,
{
    if n == 0 || !(alloc.region_index <= map.len() <= usize::MAX) {
        alloc
    } else {
        spec_allocator_after(alloc.spec_allocate(map, limit).0, map, limit, (n - 1) as nat)
    }
}

/// What allocation number `n` hands out, counted from 0.
pub open spec fn spec_nth_frame(
    alloc: FrameAllocator,
    map: Seq<MemoryRegion>,
    limit: u64,
    n: nat,
) -> Option<Frame> {
    spec_allocator_after(alloc, map, limit, n).spec_allocate(map, limit).1
}

/// One allocation moves the allocator forward only, and past the frame that
/// it hands out: where the usable parts of the regions do not overlap, the
/// allocator was not past that frame before and is past it afterwards, and
/// it stays past whatever it was past.
pub proof fn lemma_allocate_moves_forward(alloc: FrameAllocator, map: Seq<MemoryRegion>, limit: u64)
    requires
        alloc.wf(map, limit),
        map.len() <= usize::MAX,
        usable_disjoint(map, limit),
    ensures
        alloc.spec_allocate(map, limit).0.wf(map, limit),
        forall|addr: u64| #[trigger]
            passed(alloc, map, limit, addr) ==> passed(
                alloc.spec_allocate(map, limit).0,
                map,
                limit,
                addr,
            ),
        alloc.spec_allocate(map, limit).1 matches Some(frame) ==> !passed(
            alloc,
            map,
            limit,
            frame.start,
        ) && passed(alloc.spec_allocate(map, limit).0, map, limit, frame.start),
    decreases map.len() - alloc.region_index, if alloc.current >= alloc.end {
        1int
    } else if alloc.current == 0 {
        2int
    } else {
        0int
    },
{
    let (after, res) = alloc.spec_allocate(map, limit);
    if alloc.current >= alloc.end {
        let moved = alloc.spec_advance(map, limit);
        lemma_next_usable_bounds(map, alloc.region_index as int, limit);
        assert forall|addr: u64| #[trigger] passed(alloc, map, limit, addr) implies passed(
            moved,
            map,
            limit,
            addr,
        ) by {
            let j = choose|j: int| passed_in(alloc, map, limit, addr, j);
            assert(passed_in(moved, map, limit, addr, j));
        }
        if moved.current < moved.end {
            lemma_allocate_moves_forward(moved, map, limit);
            assert forall|addr: u64| #[trigger] passed(alloc, map, limit, addr) implies passed(
                after,
                map,
                limit,
                addr,
            ) by {
                assert(passed(moved, map, limit, addr));
            }
        }
    } else {
        let bumped = FrameAllocator {
            current: if alloc.current + PAGE_SIZE > u64::MAX {
                u64::MAX
            } else {
                (alloc.current + PAGE_SIZE) as u64
            },
            ..alloc
        };
        assert forall|addr: u64| #[trigger] passed(alloc, map, limit, addr) implies passed(
            bumped,
            map,
            limit,
            addr,
        ) by {
            let j = choose|j: int| passed_in(alloc, map, limit, addr, j);
            assert(passed_in(bumped, map, limit, addr, j));
        }
        if alloc.current == 0 {
            lemma_allocate_moves_forward(bumped, map, limit);
            assert forall|addr: u64| #[trigger] passed(alloc, map, limit, addr) implies passed(
                after,
                map,
                limit,
                addr,
            ) by {
                assert(passed(bumped, map, limit, addr));
            }
        } else {
            let here = alloc.region_index - 1;
            assert(in_usable(map[here], limit, alloc.current));
            assert(passed_in(bumped, map, limit, alloc.current, here));
            assert forall|j: int| !passed_in(alloc, map, limit, alloc.current, j) by {
                if 0 <= j < here && in_usable(map[j], limit, alloc.current) {
                    assert(!in_usable(map[here], limit, alloc.current));
                }
            }
        }
    }
}

/// After any number of allocations the allocator is still well formed, and
/// still past whatever it was past before.
pub proof fn lemma_allocations_move_forward(
    alloc: FrameAllocator,
    map: Seq<MemoryRegion>,
    limit: u64,
    n: nat,
)
    requires
        alloc.wf(map, limit),
        map.len() <= usize::MAX,
        usable_disjoint(map, limit),
    ensures
        spec_allocator_after(alloc, map, limit, n).wf(map, limit),
        forall|addr: u64| #[trigger]
            passed(alloc, map, limit, addr) ==> passed(
                spec_allocator_after(alloc, map, limit, n),
                map,
                limit,
                addr,
            ),
    decreases n,
{
    if n > 0 {
        let next = alloc.spec_allocate(map, limit).0;
        lemma_allocate_moves_forward(alloc, map, limit);
        lemma_allocations_move_forward(next, map, limit, (n - 1) as nat);
        assert forall|addr: u64| #[trigger] passed(alloc, map, limit, addr) implies passed(
            spec_allocator_after(alloc, map, limit, n),
            map,
            limit,
            addr,
        ) by {
            assert(passed(next, map, limit, addr));
        }
    }
}

/// The allocator after `m + n` allocations is the allocator after `m`
/// allocations and then `n` more.
pub proof fn lemma_allocations_add(
    alloc: FrameAllocator,
    map: Seq<MemoryRegion>,
    limit: u64,
    m: nat,
    n: nat,
)
    requires
        alloc.wf(map, limit),
        map.len() <= usize::MAX,
        usable_disjoint(map, limit),
    ensures
        spec_allocator_after(alloc, map, limit, m + n) == spec_allocator_after(
            spec_allocator_after(alloc, map, limit, m),
            map,
            limit,
            n,
        ),
    decreases m,
{
    if m > 0 {
        lemma_allocate_moves_forward(alloc, map, limit);
        lemma_allocations_add(
            alloc.spec_allocate(map, limit).0,
            map,
            limit,
            (m - 1) as nat,
            n,
        );
    }
}

/// No frame is handed out twice: where the usable parts of the regions do
/// not overlap, two allocations, however many lie between them, never give
/// the same frame.
pub proof fn lemma_frames_never_repeat(
    alloc: FrameAllocator,
    map: Seq<MemoryRegion>,
    limit: u64,
    i: nat,
    j: nat,
)
    requires
        alloc.wf(map, limit),
        map.len() <= usize::MAX,
        usable_disjoint(map, limit),
        i < j,
        spec_nth_frame(alloc, map, limit, i) is Some,
        spec_nth_frame(alloc, map, limit, j) is Some,
    ensures
        spec_nth_frame(alloc, map, limit, i) != spec_nth_frame(alloc, map, limit, j),
{
    let first = spec_allocator_after(alloc, map, limit, i);
    lemma_allocations_move_forward(alloc, map, limit, i);
    lemma_allocate_moves_forward(first, map, limit);
    let next = first.spec_allocate(map, limit).0;
    let frame = first.spec_allocate(map, limit).1->0;
    lemma_allocations_add(alloc, map, limit, i, 1);
    assert(spec_allocator_after(first, map, limit, 1) == next) by {
        assert(spec_allocator_after(next, map, limit, 0) == next);
    }
    lemma_allocations_add(alloc, map, limit, i + 1, (j - i - 1) as nat);
    let second = spec_allocator_after(alloc, map, limit, j);
    assert(second == spec_allocator_after(next, map, limit, (j - i - 1) as nat));
    lemma_allocations_move_forward(next, map, limit, (j - i - 1) as nat);
    assert(passed(second, map, limit, frame.start));
    lemma_allocate_moves_forward(second, map, limit);
}

/// The first usable region at or after an index is not before that index.
pub proof fn lemma_next_usable_bounds(map: Seq<MemoryRegion>, from: int, limit: u64)
    requires
        0 <= from <= map.len(),
    ensures
        from <= next_usable(map, from, limit) <= map.len(),
        next_usable(map, from, limit) < map.len() ==> usable_range(
            map[next_usable(map, from, limit)],
            limit,
        ) is Some,
    decreases map.len() - from,
{
    if from < map.len() && !(usable_range(map[from], limit) is Some) {
        lemma_next_usable_bounds(map, from + 1, limit);
    }
}

/// An advance that finds a region moves the region index forward.
pub proof fn lemma_advance_progress(alloc: FrameAllocator, map: Seq<MemoryRegion>, limit: u64)
    requires
        alloc.region_index <= map.len() <= usize::MAX,
    ensures
        alloc.spec_advance(map, limit).region_index <= map.len(),
        alloc.spec_advance(map, limit).current < alloc.spec_advance(map, limit).end
            ==> alloc.spec_advance(map, limit).region_index > alloc.region_index,
{
    lemma_next_usable_bounds(map, alloc.region_index as int, limit);
}

/// A rounded-up value is a multiple of the alignment, not below the value and
/// less than one alignment above it.
pub proof fn lemma_round_up_bounds(value: int, align: int)
    requires
        value >= 0,
        align > 0,
    ensures
        round_up(value, align) % align == 0,
        value <= round_up(value, align) < value + align,
{
    let r = value % align;
    let q = value / align;
    vstd::arithmetic::div_mod::lemma_fundamental_div_mod(value, align);
    if r != 0 {
        assert(value - r + align == (q + 1) * align) by (nonlinear_arith)
            requires
                value == align * q + r,
        ;
        vstd::arithmetic::div_mod::lemma_mod_multiples_basic(q + 1, align);
    }
}

/// Rounds `value` up to a multiple of the page-sized power of two `align`.
pub fn align_up_u64(value: u64, align: u64) -> (res: u64)
    requires
        crate::mem::paging::is_power_of_two(align),
        value + align - 1 <= u64::MAX,
    ensures
        res as int == round_up(value as int, align as int),
{
    proof {
        lemma_power_of_two_bits(align);
        lemma_mask_rounds_down((value + align - 1) as u64, align);
        lemma_round_up_by_sum(value as int, align as int);
    }
    let mask = align - 1;
    (value + mask) & !mask
}

/// Rounds `value` down to a multiple of the power of two `align`.
pub fn align_down_u64(value: u64, align: u64) -> (res: u64)
    requires
        crate::mem::paging::is_power_of_two(align),
    ensures
        res as int == round_down(value as int, align as int),
        res <= value < res + align,
        res % align == 0,
{
    proof {
        lemma_power_of_two_bits(align);
        lemma_mask_rounds_down(value, align);
        vstd::arithmetic::div_mod::lemma_fundamental_div_mod(value as int, align as int);
        vstd::arithmetic::div_mod::lemma_mod_multiples_basic((value / align) as int, align as int);
        assert(align * (value / align) == (value / align) * align) by (nonlinear_arith);
    }
    value & !(align - 1)
}

/// A page is a power of two.
pub proof fn lemma_page_size_is_power_of_two()
    ensures
        crate::mem::paging::is_power_of_two(PAGE_SIZE),
        crate::mem::paging::is_power_of_two(8),
        crate::mem::paging::is_power_of_two(16),
{
    lemma_power_of_two_bits(PAGE_SIZE);
    lemma_power_of_two_bits(8);
    lemma_power_of_two_bits(16);
    assert(4096u64 & ((4096u64 - 1) as u64) == 0) by (bit_vector);
    assert(8u64 & ((8u64 - 1) as u64) == 0) by (bit_vector);
    assert(16u64 & ((16u64 - 1) as u64) == 0) by (bit_vector);
}

/// What is known of the usable memory: how many regions, how many bytes.
#[derive(Copy, Clone, Debug, PartialEq, Eq, Structural)]
pub struct MemorySummary {
    pub region_count: usize,
    pub total_bytes: u64,
}

/// Where the linker put the kernel image and the heap, as kernel virtual addresses.
#[derive(Copy, Clone, Debug, PartialEq, Eq, Structural)]
pub struct KernelImage {
    pub load_start: u64,
    pub bss_end: u64,
    pub heap_start: u64,
    pub heap_end: u64,
}

/// The physical address behind a link-time address: addresses in the kernel's
/// half lie `KERNEL_VMA_BASE` above their physical address, others are physical.
pub open spec fn link_to_phys(addr: u64) -> int {
    if addr >= KERNEL_VMA_BASE {
        addr - KERNEL_VMA_BASE
    } else {
        addr as int
    }
}

/// The reserved floor: the first page boundary at or above the first
/// megabyte, the end of the kernel image and the end of the heap.
pub open spec fn spec_reserved_limit(image: KernelImage) -> int {
    let kernel_end = link_to_phys(image.bss_end);
    let heap_end = link_to_phys(image.heap_end);
    let highest = if kernel_end >= heap_end { kernel_end } else { heap_end };
    round_up(if highest >= RESERVED_END { highest } else { RESERVED_END as int }, PAGE_SIZE as int)
}

/// Computes the reserved floor below which no frame is handed out.
pub fn reserved_limit(image: &KernelImage) -> (limit: u64)
    requires
        link_to_phys(image.bss_end) + PAGE_SIZE <= u64::MAX,
        link_to_phys(image.heap_end) + PAGE_SIZE <= u64::MAX,
    ensures
        limit == spec_reserved_limit(*image),
        limit >= RESERVED_END,
        limit % PAGE_SIZE == 0,
{
    let kernel_end = if image.bss_end >= KERNEL_VMA_BASE {
        image.bss_end - KERNEL_VMA_BASE
    } else {
        image.bss_end
    };
    let heap_end_phys = if image.heap_end >= KERNEL_VMA_BASE {
        image.heap_end - KERNEL_VMA_BASE
    } else {
        image.heap_end
    };
    let mut limit = RESERVED_END;
    if kernel_end > limit {
        limit = kernel_end;
    }
    if heap_end_phys > limit {
        limit = heap_end_phys;
    }
    proof {
        lemma_page_size_is_power_of_two();
        lemma_round_up_bounds(limit as int, PAGE_SIZE as int);
    }
    align_up_u64(limit, PAGE_SIZE)
}

/// Tag type that ends the boot information.
pub const TAG_TYPE_END: u32 = 0;

/// Tag type of the memory map.
pub const TAG_TYPE_MMAP: u32 = 6;

/// Entry type of memory that may be used.
pub const MEMORY_TYPE_AVAILABLE: u32 = 1;

/// Bytes of one memory-map entry: base, length, type, reserved.
pub const MMAP_ENTRY_BYTES: usize = 24;

/// The map after `region` was offered to it: kept while there is room.
pub open spec fn spec_add_region(map: Seq<MemoryRegion>, region: MemoryRegion) -> Seq<MemoryRegion> {
    if map.len() < MAX_REGIONS {
        map.push(region)
    } else {
        map
    }
}

/// The map after the entries of one memory-map tag from `pos` on were read.
/// Entries lie `entry_size` bytes apart and end at `entries_end`; an entry is
/// kept when its type says available and its length is not zero. An entry size
/// of zero, or an entry that reaches past the information block, ends the tag.
pub open spec fn spec_parse_entries(
    info: Seq<u8>,
    pos: int,
    entries_end: int,
    entry_size: int,
    map: Seq<MemoryRegion>,
) -> Seq<MemoryRegion>
    decreases entries_end - pos,
{
    if entry_size <= 0 || pos < 0 || pos + entry_size > entries_end || pos + MMAP_ENTRY_BYTES
        > info.len() {
        map
    } else {
        let region = MemoryRegion {
            base: spec_u64_le(info, pos) as u64,
            length: spec_u64_le(info, pos + 8) as u64,
        };
        let keep = spec_u32_le(info, pos + 16) == MEMORY_TYPE_AVAILABLE && region.length > 0;
        spec_parse_entries(
            info,
            pos + entry_size,
            entries_end,
            entry_size,
            if keep { spec_add_region(map, region) } else { map },
        )
    }
}

/// The map after the memory-map tag at `pos` was read. A tag too short to
/// hold its own header leaves the map as it is.
pub open spec fn spec_parse_memory_map_tag(info: Seq<u8>, pos: int, map: Seq<MemoryRegion>) -> Seq<
    MemoryRegion,
> {
    if pos < 0 || pos + 16 > info.len() {
        map
    } else {
        spec_parse_entries(
            info,
            pos + 16,
            pos + spec_u32_le(info, pos + 4),
            spec_u32_le(info, pos + 8),
            map,
        )
    }
}

/// The map after the tags from `pos` up to `end` were walked. The walk ends
/// at the end tag, at `end`, where the bytes run out, or at a tag shorter
/// than its header.
pub open spec fn spec_parse_tags(info: Seq<u8>, pos: int, end: int, map: Seq<MemoryRegion>) -> Seq<
    MemoryRegion,
>
    decreases (if pos < end { end - pos } else { 0 }),
{
    if pos < 0 || pos >= end || pos + 8 > info.len() {
        map
    } else {
        let tag_type = spec_u32_le(info, pos);
        let size = spec_u32_le(info, pos + 4);
        if tag_type == TAG_TYPE_END || size < 8 {
            map
        } else {
            proof {
                lemma_round_up_bounds(pos + size, 8);
            }
            spec_parse_tags(
                info,
                round_up(pos + size, 8),
                end,
                if tag_type == TAG_TYPE_MMAP {
                    spec_parse_memory_map_tag(info, pos, map)
                } else {
                    map
                },
            )
        }
    }
}

/// The memory map that a block of boot information describes: its first word
/// is its total size, its tags begin at byte 8.
pub open spec fn spec_parse(info: Seq<u8>) -> Seq<MemoryRegion> {
    if info.len() < 8 {
        Seq::empty()
    } else {
        spec_parse_tags(info, 8, spec_u32_le(info, 0), Seq::empty())
    }
}

/// Offering regions to a map never makes it longer than the limit.
pub proof fn lemma_parse_entries_bounded(
    info: Seq<u8>,
    pos: int,
    entries_end: int,
    entry_size: int,
    map: Seq<MemoryRegion>,
)
    requires
        map.len() <= MAX_REGIONS,
    ensures
        spec_parse_entries(info, pos, entries_end, entry_size, map).len() <= MAX_REGIONS,
    decreases entries_end - pos,
{
    if entry_size <= 0 || pos < 0 || pos + entry_size > entries_end || pos + MMAP_ENTRY_BYTES
        > info.len() {
    } else {
        let region = MemoryRegion {
            base: spec_u64_le(info, pos) as u64,
            length: spec_u64_le(info, pos + 8) as u64,
        };
        let keep = spec_u32_le(info, pos + 16) == MEMORY_TYPE_AVAILABLE && region.length > 0;
        lemma_parse_entries_bounded(
            info,
            pos + entry_size,
            entries_end,
            entry_size,
            if keep { spec_add_region(map, region) } else { map },
        );
    }
}

/// Reads the entries of the memory-map tag at `pos` into `map`.
pub fn parse_memory_map_tag(info: &[u8], pos: usize, map: &mut MemoryMap)
    requires
        old(map).wf(),
    ensures
        final(map).wf(),
        final(map)@ == spec_parse_memory_map_tag(info@, pos as int, old(map)@),
{
    if pos > info.len() || info.len() - pos < 16 {
        return ;
    }
    let size = read_u32_le(info, pos + 4).unwrap();
    let entry_size = read_u32_le(info, pos + 8).unwrap();
    let entries_end: u128 = pos as u128 + size as u128;
    let mut current: usize = pos + 16;
    while entry_size > 0 && current as u128 + entry_size as u128 <= entries_end && current
        <= info.len() && info.len() - current >= MMAP_ENTRY_BYTES
        invariant
            map.wf(),
            spec_parse_entries(info@, current as int, entries_end as int, entry_size as int, map@)
                == spec_parse_memory_map_tag(info@, pos as int, old(map)@),
        decreases entries_end - current,
    {
        let base = read_u64_le(info, current).unwrap();
        let length = read_u64_le(info, current + 8).unwrap();
        let entry_type = read_u32_le(info, current + 16).unwrap();
        if entry_type == MEMORY_TYPE_AVAILABLE && length > 0 {
            map.add_region(MemoryRegion { base, length });
        }
        let ghost here = current as int;
        current = match current.checked_add(entry_size as usize) {
            Some(next) => next,
            None => {
                assert(spec_parse_entries(
                    info@,
                    here + entry_size,
                    entries_end as int,
                    entry_size as int,
                    map@,
                ) == map@);
                return ;
            },
        };
    }
}

/// Walks the tags of a block of boot information and collects the memory map.
pub fn parse(info: &[u8]) -> (map: MemoryMap)
    ensures
        map.wf(),
        map@ == spec_parse(info@),
{
    let mut map = MemoryMap::new();
    assert(map@ =~= Seq::<MemoryRegion>::empty());
    if info.len() < 8 {
        return map;
    }
    let total_size = read_u32_le(info, 0).unwrap() as u64;
    let mut current: u64 = 8;
    while current < total_size && current <= info.len() as u64 && info.len() as u64 - current >= 8
        invariant
            map.wf(),
            total_size <= u32::MAX,
            8 <= current,
            spec_parse_tags(info@, current as int, total_size as int, map@) == spec_parse(info@),
        decreases (if current < total_size { total_size - current } else { 0 }),
    {
        let pos = current as usize;
        let tag_type = read_u32_le(info, pos).unwrap();
        let size = read_u32_le(info, pos + 4).unwrap();
        if tag_type == TAG_TYPE_END || size < 8 {
            return map;
        }
        if tag_type == TAG_TYPE_MMAP {
            parse_memory_map_tag(info, pos, &mut map);
        }
        proof {
            lemma_page_size_is_power_of_two();
            lemma_round_up_bounds(current + size, 8);
        }
        current = align_up_u64(current + size as u64, 8);
    }
    map
}

/// The physical memory manager: the map of usable memory, the allocator that
/// walks it, and the floor below which nothing is handed out.
pub struct PhysicalMemory {
    pub map: MemoryMap,
    pub allocator: FrameAllocator,
    pub reserved_limit: u64,
}

impl PhysicalMemory {
    pub open spec fn wf(&self) -> bool {
        &&& self.map.wf()
        &&& self.allocator.wf(self.map@, self.reserved_limit)
    }
}

/// Sets the manager up from a block of boot information: the memory map is
/// what the block's tags describe, and the allocator stands at its first
/// usable region above `reserved_limit`.
pub fn init(info: &[u8], reserved_limit: u64) -> (pm: PhysicalMemory)
    ensures
        pm.wf(),
        pm.map@ == spec_parse(info@),
        pm.reserved_limit == reserved_limit,
        pm.allocator == FrameAllocator::new_spec().spec_advance(pm.map@, reserved_limit),
{
    let map = parse(info);
    let mut allocator = FrameAllocator::new();
    allocator.init_from_map(&map, reserved_limit);
    PhysicalMemory { map, allocator, reserved_limit }
}

/// The usable regions, in the order of the memory map.
pub fn for_each_region(pm: &PhysicalMemory) -> (regions: Vec<MemoryRegion>)
    ensures
        regions@ == pm.map@,
{
    let mut out: Vec<MemoryRegion> = Vec::new();
    let mut i: usize = 0;
    while i < pm.map.regions.len()
        invariant
            i <= pm.map@.len(),
            out@ == pm.map@.subrange(0, i as int),
        decreases pm.map@.len() - i,
    {
        out.push(pm.map.regions[i]);
        assert(pm.map@.subrange(0, i as int).push(pm.map@[i as int]) =~= pm.map@.subrange(
            0,
            i + 1,
        ));
        i += 1;
    }
    assert(pm.map@.subrange(0, pm.map@.len() as int) =~= pm.map@);
    out
}

/// The sum of the regions' lengths, held at the largest 64-bit number.
pub open spec fn total_length(regions: Seq<MemoryRegion>) -> int
    decreases regions.len(),
{
    if regions.len() == 0 {
        0
    } else {
        let before = total_length(regions.drop_last());
        if before + regions.last().length > u64::MAX {
            u64::MAX as int
        } else {
            before + regions.last().length
        }
    }
}

/// Counts the usable regions and adds up their bytes.
pub fn summary(pm: &PhysicalMemory) -> (s: MemorySummary)
    ensures
        s.region_count == pm.map@.len(),
        s.total_bytes == total_length(pm.map@),
{
    let mut total: u64 = 0;
    let mut i: usize = 0;
    while i < pm.map.regions.len()
        invariant
            i <= pm.map@.len(),
            total == total_length(pm.map@.subrange(0, i as int)),
        decreases pm.map@.len() - i,
    {
        assert(pm.map@.subrange(0, i + 1).drop_last() =~= pm.map@.subrange(0, i as int));
        total = total.saturating_add(pm.map.regions[i].length);
        i += 1;
    }
    assert(pm.map@.subrange(0, pm.map@.len() as int) =~= pm.map@);
    MemorySummary { region_count: pm.map.regions.len(), total_bytes: total }
}

/// Hands out one frame, or nothing when usable memory is exhausted.
pub fn allocate_frame(pm: &mut PhysicalMemory) -> (res: Option<Frame>)
    requires
        old(pm).wf(),
    ensures
        final(pm).wf(),
        final(pm).map == old(pm).map,
        final(pm).reserved_limit == old(pm).reserved_limit,
        (final(pm).allocator, res) == old(pm).allocator.spec_allocate(
            old(pm).map@,
            old(pm).reserved_limit,
        ),
        res matches Some(frame) ==> frame.wf() && frame.start >= old(pm).reserved_limit
            && frame.start != 0,
{
    pm.allocator.allocate(&pm.map, pm.reserved_limit)
}

/// The allocator after up to `want` more frames were taken, each one adjacent
/// to the one before, and how many were taken. The first frame that is not
/// adjacent ends the run; it is lost, since the allocator cannot step back.
pub open spec fn spec_run(
    alloc: FrameAllocator,
    map: Seq<MemoryRegion>,
    limit: u64,
    last: u64,
    want: nat,
) -> (FrameAllocator, nat)
    decreases want,
{
    if want == 0 {
        (alloc, 0)
    } else {
        let (after, got) = alloc.spec_allocate(map, limit);
        if got is Some && got->0.start == last + FRAME_SIZE {
            let (rest, n) = spec_run(after, map, limit, got->0.start, (want - 1) as nat);
            (rest, n + 1)
        } else {
            (after, 0)
        }
    }
}

/// A run is never longer than what was asked for.
pub proof fn lemma_run_bounded(
    alloc: FrameAllocator,
    map: Seq<MemoryRegion>,
    limit: u64,
    last: u64,
    want: nat,
)
    ensures
        spec_run(alloc, map, limit, last, want).1 <= want,
    decreases want,
{
    if want > 0 {
        let (after, got) = alloc.spec_allocate(map, limit);
        if got is Some && got->0.start == last + FRAME_SIZE {
            lemma_run_bounded(after, map, limit, got->0.start, (want - 1) as nat);
        }
    }
}

/// Frame number `k` of a run that goes on behind the frame at `last` was
/// not handed out before: an allocator `origin` that the run's allocator has
/// moved on from was not past it. After the run the allocator is past it.
pub proof fn lemma_run_goes_forward(
    origin: FrameAllocator,
    alloc: FrameAllocator,
    map: Seq<MemoryRegion>,
    limit: u64,
    last: u64,
    want: nat,
    k: nat,
)
    requires
        alloc.wf(map, limit),
        map.len() <= usize::MAX,
        usable_disjoint(map, limit),
        forall|addr: u64| #[trigger] passed(origin, map, limit, addr) ==> passed(alloc, map, limit, addr),
        k < spec_run(alloc, map, limit, last, want).1,
    ensures
        last + 4096 * (k + 1) <= u64::MAX,
        !passed(origin, map, limit, (last + 4096 * (k + 1)) as u64),
        passed(spec_run(alloc, map, limit, last, want).0, map, limit, (last + 4096 * (k + 1)) as u64),
        spec_run(alloc, map, limit, last, want).0.wf(map, limit),
    decreases want,
{
    let (after, got) = alloc.spec_allocate(map, limit);
    lemma_allocate_moves_forward(alloc, map, limit);
    let frame = got->0;
    assert(forall|addr: u64| #[trigger] passed(origin, map, limit, addr) ==> passed(after, map, limit, addr));
    lemma_run_stays_past(after, map, limit, frame.start, (want - 1) as nat, frame.start);
    if k > 0 {
        lemma_run_goes_forward(origin, after, map, limit, frame.start, (want - 1) as nat, (k - 1) as nat);
    }
}

/// A run leaves the allocator well formed and past whatever it was past.
pub proof fn lemma_run_stays_past(
    alloc: FrameAllocator,
    map: Seq<MemoryRegion>,
    limit: u64,
    last: u64,
    want: nat,
    addr: u64,
)
    requires
        alloc.wf(map, limit),
        map.len() <= usize::MAX,
        usable_disjoint(map, limit),
    ensures
        spec_run(alloc, map, limit, last, want).0.wf(map, limit),
        passed(alloc, map, limit, addr) ==> passed(
            spec_run(alloc, map, limit, last, want).0,
            map,
            limit,
            addr,
        ),
    decreases want,
{
    if want > 0 {
        let (after, got) = alloc.spec_allocate(map, limit);
        lemma_allocate_moves_forward(alloc, map, limit);
        if got is Some && got->0.start == last + FRAME_SIZE {
            lemma_run_stays_past(after, map, limit, got->0.start, (want - 1) as nat, addr);
        }
    }
}

/// No frame of the run that `allocate_frames` hands out was handed out
/// before, where the usable parts of the regions do not overlap: the
/// allocator was past none of them before the call, and is past each of
/// them afterwards.
pub proof fn lemma_run_is_fresh(
    alloc: FrameAllocator,
    map: Seq<MemoryRegion>,
    limit: u64,
    count: nat,
    k: nat,
)
    requires
        alloc.wf(map, limit),
        map.len() <= usize::MAX,
        usable_disjoint(map, limit),
        count > 0,
        alloc.spec_allocate(map, limit).1 is Some,
        k <= spec_run(
            alloc.spec_allocate(map, limit).0,
            map,
            limit,
            alloc.spec_allocate(map, limit).1->0.start,
            (count - 1) as nat,
        ).1,
    ensures
        ({
            let (after, first) = alloc.spec_allocate(map, limit);
            let rest = spec_run(after, map, limit, first->0.start, (count - 1) as nat).0;
            &&& first->0.start + 4096 * k <= u64::MAX
            &&& !passed(alloc, map, limit, (first->0.start + 4096 * k) as u64)
            &&& passed(rest, map, limit, (first->0.start + 4096 * k) as u64)
        }),
{
    let (after, first) = alloc.spec_allocate(map, limit);
    lemma_allocate_moves_forward(alloc, map, limit);
    if k == 0 {
        lemma_run_stays_past(after, map, limit, first->0.start, (count - 1) as nat, first->0.start);
    } else {
        lemma_run_goes_forward(
            alloc,
            after,
            map,
            limit,
            first->0.start,
            (count - 1) as nat,
            (k - 1) as nat,
        );
    }
}

/// Tries to hand out `count` adjacent frames. It returns the run obtained up
/// to the first frame that is not adjacent to the one before: the caller
/// must look at the run's count. Nothing is returned for a count of zero, or
/// when not a single frame is left. The run can be walked frame by frame
/// unless it ends with the last page of the address space.
pub fn allocate_frames(pm: &mut PhysicalMemory, count: usize) -> (res: Option<FrameRange>)
    requires
        old(pm).wf(),
    ensures
        final(pm).wf(),
        final(pm).map == old(pm).map,
        final(pm).reserved_limit == old(pm).reserved_limit,
        count == 0 ==> res is None && final(pm).allocator == old(pm).allocator,
        count > 0 ==> ({
            let (after, first) = old(pm).allocator.spec_allocate(
                old(pm).map@,
                old(pm).reserved_limit,
            );
            match first {
                None => res is None && final(pm).allocator == after,
                Some(frame) => {
                    let (rest, n) = spec_run(
                        after,
                        old(pm).map@,
                        old(pm).reserved_limit,
                        frame.start,
                        (count - 1) as nat,
                    );
                    res == Some(FrameRange { start: frame, count: (n + 1) as usize })
                        && final(pm).allocator == rest
                },
            }
        }),
        res matches Some(range) ==> 1 <= range.count <= count && range.start.wf()
            && range.start.start >= old(pm).reserved_limit,
        res matches Some(range) ==> range.start.start + 4096 * range.count <= u64::MAX + 1,
        res matches Some(range) ==> (range.start.start + 4096 * (range.count - 1)
            != 0xFFFF_FFFF_FFFF_F000 ==> range.wf()),
{
    if count == 0 {
        return None;
    }
    let first = match pm.allocator.allocate(&pm.map, pm.reserved_limit) {
        Some(frame) => frame,
        None => { return None; },
    };
    let ghost after_first = pm.allocator;
    let ghost map = pm.map@;
    let ghost limit = pm.reserved_limit;
    let mut last = first;
    let mut taken: usize = 1;
    proof {
        lemma_run_bounded(after_first, map, limit, first.start, (count - 1) as nat);
    }
    while taken < count
        invariant
            pm.wf(),
            pm.map@ == map,
            pm.map == old(pm).map,
            pm.reserved_limit == limit,
            limit == old(pm).reserved_limit,
            (after_first, Some(first)) == old(pm).allocator.spec_allocate(map, limit),
            first.wf() && first.start >= limit,
            spec_run(after_first, map, limit, first.start, (count - 1) as nat).1 <= count - 1,
            1 <= taken <= count,
            last.wf(),
            last.start == first.start + 4096 * (taken - 1),
            spec_run(after_first, map, limit, first.start, (count - 1) as nat) == ({
                let (rest, n) = spec_run(pm.allocator, map, limit, last.start, (count - taken) as nat);
                (rest, (n + taken - 1) as nat)
            }),
        decreases count - taken,
    {
        let ghost before = pm.allocator;
        match pm.allocator.allocate(&pm.map, pm.reserved_limit) {
            Some(next) => {
                let adjacent = match last.start.checked_add(FRAME_SIZE) {
                    Some(expected) => next.start == expected,
                    None => false,
                };
                if adjacent {
                    last = next;
                    taken += 1;
                } else {
                    return Some(FrameRange { start: first, count: taken });
                }
            },
            None => {
                return Some(FrameRange { start: first, count: taken });
            },
        }
    }
    Some(FrameRange { start: first, count: taken })
}

/// Takes a frame back. Frames are not reused yet: nothing changes.
pub fn free_frame(pm: &mut PhysicalMemory, frame: Frame)
    ensures
        *final(pm) == *old(pm),
{
    pm.allocator.free(frame);
}

/// Size in bytes of one frame.
pub fn frame_size() -> (size: u64)
    ensures
        size == FRAME_SIZE,
{
    FRAME_SIZE
}

} // verus!
