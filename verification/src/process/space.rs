//! The address space of a user process: its page tables, its stack, and the
//! segments of its program.

use vstd::prelude::*;
use crate::arch::paging::{
    clone_kernel_pml4, map_page, paging_state, spec_allocate_table, spec_copy_upper_half,
    spec_map_page, zeroed, DirectMap, MapError, PagingState, FLAG_NO_EXECUTE, FLAG_USER,
    FLAG_WRITABLE,
};
use crate::mem::paging::{is_power_of_two, lemma_mask_rounds_down, lemma_power_of_two_bits, round_down};
use crate::mem::phys::{allocate_frame, lemma_page_size_is_power_of_two, MemoryRegion, PhysicalMemory};
use crate::process::types::{AddressSpace, AddressSpaceKind, ProcessError, UserStack};
use crate::process::usercopy::{spec_store_bytes, PAGE_BYTES};
use crate::user::elf::{
    segment_flags_executable, segment_flags_writable, spec_segment_flags_executable,
    spec_segment_flags_writable, ElfImage, ElfSegment,
};
use crate::user::{DEFAULT_STACK_PAGES, USER_ADDR_LIMIT};

verus! {

/// Rounds `value` down to a multiple of the power of two `align`.
pub fn align_down(value: u64, align: u64) -> (res: u64)
    requires
        is_power_of_two(align),
    ensures
        res as int == round_down(value as int, align as int),
{
    proof {
        lemma_power_of_two_bits(align);
        lemma_mask_rounds_down(value, align);
    }
    value & !(align - 1)
}

/// `value` rounded up to a multiple of `align`, held at the largest number.
pub open spec fn spec_align_up(value: u64, align: u64) -> u64 {
    if value % align == 0 {
        value
    } else if round_down(value as int, align as int) + align > u64::MAX {
        u64::MAX
    } else {
        (round_down(value as int, align as int) + align) as u64
    }
}

/// Rounds `value` up to a multiple of the power of two `align`; a result
/// that does not fit is held at the largest number.
pub fn align_up(value: u64, align: u64) -> (res: u64)
    requires
        is_power_of_two(align),
    ensures
        res == spec_align_up(value, align),
{
    proof {
        lemma_power_of_two_bits(align);
        lemma_mask_rounds_down(value, align);
    }
    let mask = align - 1;
    if value & mask == 0 {
        value
    } else {
        assert(value | mask == ((value & !mask) + mask) as u64 && (value & !mask) + mask
            <= 0xFFFF_FFFF_FFFF_FFFF) by (bit_vector);
        (value | mask).saturating_add(1)
    }
}

/// The state after `pages` pages of stack were mapped below `top`, the
/// highest first, each to a fresh frame, for the user to read and write.
pub open spec fn spec_map_stack(
    state: PagingState,
    map: Seq<MemoryRegion>,
    limit: u64,
    cr3: u64,
    top: u64,
    pages: nat,
) -> (PagingState, Result<(), ProcessError>)
    decreases pages,
{
    if pages == 0 {
        (state, Ok(()))
    } else {
        let (alloc, frame) = state.alloc.spec_allocate(map, limit);
        match frame {
            None => (
                PagingState { mem: state.mem, alloc },
                Err(ProcessError::AddressSpaceAllocationFailed),
            ),
            Some(f) => {
                let page = if top >= PAGE_BYTES { (top - PAGE_BYTES) as u64 } else { 0 };
                let (mapped, res) = spec_map_page(
                    PagingState { mem: state.mem, alloc },
                    map,
                    limit,
                    cr3,
                    page,
                    f.start,
                    FLAG_WRITABLE | FLAG_USER,
                );
                match res {
                    Err(_) => (mapped, Err(ProcessError::AddressSpaceAllocationFailed)),
                    Ok(()) => spec_map_stack(mapped, map, limit, cr3, page, (pages - 1) as nat),
                }
            },
        }
    }
}

/// The state after the address space of a user process was made, and the
/// address space with its stack: a fresh root table that shares the
/// kernel's half with the root at `kernel_cr3`, and `stack_pages` pages of
/// stack just below the end of user memory. No stack is no address space.
pub open spec fn spec_create_user_space(
    state: PagingState,
    map: Seq<MemoryRegion>,
    limit: u64,
    kernel_cr3: u64,
    stack_pages: usize,
) -> (PagingState, Result<(AddressSpace, UserStack), ProcessError>) {
    if stack_pages == 0 {
        (state, Err(ProcessError::AddressSpaceAllocationFailed))
    } else {
        let (fresh, table) = spec_allocate_table(state, map, limit);
        match table {
            Err(_) => (fresh, Err(ProcessError::AddressSpaceAllocationFailed)),
            Ok(base) => {
                let cloned = PagingState {
                    mem: spec_copy_upper_half(fresh.mem, kernel_cr3, base),
                    alloc: fresh.alloc,
                };
                if stack_pages * PAGE_BYTES > usize::MAX {
                    (cloned, Err(ProcessError::AddressSpaceAllocationFailed))
                } else {
                    let (mapped, res) = spec_map_stack(
                        cloned,
                        map,
                        limit,
                        base,
                        USER_ADDR_LIMIT,
                        stack_pages as nat,
                    );
                    match res {
                        Err(e) => (mapped, Err(e)),
                        Ok(()) => (
                            mapped,
                            Ok(
                                (
                                    AddressSpace { cr3: base, kind: AddressSpaceKind::User },
                                    UserStack {
                                        top: USER_ADDR_LIMIT,
                                        size: (stack_pages * PAGE_BYTES) as usize,
                                    },
                                ),
                            ),
                        ),
                    }
                }
            },
        }
    }
}

/// Makes the address space of a user process, with a stack of `stack_pages` pages.
#[verifier::loop_isolation(false)]
pub fn create_user_address_space_with_stack(
    mem: &mut DirectMap,
    pm: &mut PhysicalMemory,
    kernel_cr3: u64,
    stack_pages: usize,
) -> (res: Result<(AddressSpace, UserStack), ProcessError>)
    requires
        old(pm).wf(),
    ensures
        final(pm).wf(),
        final(pm).map == old(pm).map,
        final(pm).reserved_limit == old(pm).reserved_limit,
        (paging_state(final(mem), final(pm)), res) == spec_create_user_space(
            paging_state(old(mem), old(pm)),
            old(pm).map@,
            old(pm).reserved_limit,
            kernel_cr3,
            stack_pages,
        ),
{
    if stack_pages == 0 {
        return Err(ProcessError::AddressSpaceAllocationFailed);
    }
    let pml4_phys = match clone_kernel_pml4(mem, pm, kernel_cr3) {
        Ok(phys) => phys,
        Err(_) => { return Err(ProcessError::AddressSpaceAllocationFailed); },
    };
    let address_space = AddressSpace::with_cr3(pml4_phys, AddressSpaceKind::User);
    let mut current_top = USER_ADDR_LIMIT;
    let stack_size = match stack_pages.checked_mul(PAGE_BYTES as usize) {
        Some(size) => size,
        None => { return Err(ProcessError::AddressSpaceAllocationFailed); },
    };
    let ghost cloned = paging_state(mem, pm);
    let mut done: usize = 0;
    while done < stack_pages
        invariant
            done <= stack_pages,
            pm.wf(),
            pm.map == old(pm).map,
            pm.reserved_limit == old(pm).reserved_limit,
            spec_map_stack(
                paging_state(mem, pm),
                pm.map@,
                pm.reserved_limit,
                pml4_phys,
                current_top,
                (stack_pages - done) as nat,
            ) == spec_map_stack(
                cloned,
                pm.map@,
                pm.reserved_limit,
                pml4_phys,
                USER_ADDR_LIMIT,
                stack_pages as nat,
            ),
        decreases stack_pages - done,
    {
        let frame = match allocate_frame(pm) {
            Some(frame) => frame,
            None => { return Err(ProcessError::AddressSpaceAllocationFailed); },
        };
        current_top = current_top.saturating_sub(PAGE_BYTES);
        match map_page(mem, pm, pml4_phys, current_top, frame.start(), FLAG_WRITABLE | FLAG_USER) {
            Ok(()) => {},
            Err(_) => { return Err(ProcessError::AddressSpaceAllocationFailed); },
        }
        done += 1;
    }
    let user_stack = UserStack::new(USER_ADDR_LIMIT, stack_size);
    Ok((address_space, user_stack))
}

/// Makes the address space of a user process, with a stack of the usual size.
pub fn create_default_user_address_space(
    mem: &mut DirectMap,
    pm: &mut PhysicalMemory,
    kernel_cr3: u64,
) -> (res: Result<(AddressSpace, UserStack), ProcessError>)
    requires
        old(pm).wf(),
    ensures
        final(pm).wf(),
        final(pm).map == old(pm).map,
        final(pm).reserved_limit == old(pm).reserved_limit,
        (paging_state(final(mem), final(pm)), res) == spec_create_user_space(
            paging_state(old(mem), old(pm)),
            old(pm).map@,
            old(pm).reserved_limit,
            kernel_cr3,
            DEFAULT_STACK_PAGES,
        ),
{
    create_user_address_space_with_stack(mem, pm, kernel_cr3, DEFAULT_STACK_PAGES)
}

/// The flags with which the pages of a segment are mapped: for the user,
/// writable where the segment is, and not executable unless the segment is.
pub open spec fn spec_segment_page_flags(flags: u32) -> u64 {
    (FLAG_USER | (if spec_segment_flags_writable(flags) { FLAG_WRITABLE } else { 0 })) | (
    if spec_segment_flags_executable(flags) {
        0
    } else {
        FLAG_NO_EXECUTE
    })
}

/// The state after the page at `page` of a segment was loaded: a fresh,
/// zeroed frame is mapped there, and the part of the segment's file bytes
/// that falls into the page is copied into the frame. File bytes that `data`
/// does not hold make the image invalid.
pub open spec fn spec_load_page(
    state: PagingState,
    map: Seq<MemoryRegion>,
    limit: u64,
    cr3: u64,
    segment: ElfSegment,
    page: u64,
    data: Seq<u8>,
) -> (PagingState, Result<(), ProcessError>) {
    let (alloc, frame) = state.alloc.spec_allocate(map, limit);
    match frame {
        None => (
            PagingState { mem: state.mem, alloc },
            Err(ProcessError::AddressSpaceAllocationFailed),
        ),
        Some(f) => {
            let (mapped, res) = spec_map_page(
                PagingState { mem: zeroed(state.mem, f.start), alloc },
                map,
                limit,
                cr3,
                page,
                f.start,
                spec_segment_page_flags(segment.flags),
            );
            let copy_start = if segment.vaddr >= page { segment.vaddr as int } else { page as int };
            let file_end = segment.vaddr + segment.filesz;
            let copy_end = if file_end <= page + PAGE_BYTES { file_end } else { page + PAGE_BYTES };
            let source = segment.offset + (copy_start - segment.vaddr);
            match res {
                Err(_) => (mapped, Err(ProcessError::AddressSpaceAllocationFailed)),
                Ok(()) => if copy_end > copy_start {
                    if source + (copy_end - copy_start) > data.len() {
                        (mapped, Err(ProcessError::InvalidElf))
                    } else {
                        (
                            PagingState {
                                mem: spec_store_bytes(
                                    mapped.mem,
                                    (f.start + (copy_start - page)) as u64,
                                    data.subrange(source, source + (copy_end - copy_start)),
                                ),
                                alloc: mapped.alloc,
                            },
                            Ok(()),
                        )
                    }
                } else {
                    (mapped, Ok(()))
                },
            }
        },
    }
}

/// The state after the pages of a segment from `page` up to `end` were loaded.
pub open spec fn spec_load_pages(
    state: PagingState,
    map: Seq<MemoryRegion>,
    limit: u64,
    cr3: u64,
    segment: ElfSegment,
    page: u64,
    end: u64,
    data: Seq<u8>,
) -> (PagingState, Result<(), ProcessError>)
    decreases (if page < end { end - page } else { 0 }),
{
    if page >= end {
        (state, Ok(()))
    } else {
        let (loaded, res) = spec_load_page(state, map, limit, cr3, segment, page, data);
        match res {
            Err(e) => (loaded, Err(e)),
            Ok(()) => spec_load_pages(
                loaded,
                map,
                limit,
                cr3,
                segment,
                if page + PAGE_BYTES > u64::MAX { u64::MAX } else { (page + PAGE_BYTES) as u64 },
                end,
                data,
            ),
        }
    }
}

/// The state after the segments from `index` on were loaded: each one page
/// by page, from the page that holds its first byte to the page that holds
/// its last. A segment whose end, in memory or in the file, cannot be
/// counted makes the image invalid.
pub open spec fn spec_load_segments(
    state: PagingState,
    map: Seq<MemoryRegion>,
    limit: u64,
    cr3: u64,
    segments: Seq<ElfSegment>,
    index: int,
    data: Seq<u8>,
) -> (PagingState, Result<(), ProcessError>)
    decreases segments.len() - index,
{
    if index < 0 || index >= segments.len() {
        (state, Ok(()))
    } else {
        let segment = segments[index];
        if segment.vaddr + segment.memsz > u64::MAX || segment.vaddr + segment.filesz > u64::MAX
            || segment.offset + segment.filesz > u64::MAX {
            (state, Err(ProcessError::InvalidElf))
        } else {
            let (loaded, res) = spec_load_pages(
                state,
                map,
                limit,
                cr3,
                segment,
                round_down(segment.vaddr as int, PAGE_BYTES as int) as u64,
                spec_align_up((segment.vaddr + segment.memsz) as u64, PAGE_BYTES),
                data,
            );
            match res {
                Err(e) => (loaded, Err(e)),
                Ok(()) => spec_load_segments(loaded, map, limit, cr3, segments, index + 1, data),
            }
        }
    }
}

/// Stores `len` bytes of `src`, from `start` on, at physical address `phys`.
fn store_slice(mem: &mut DirectMap, phys: u64, src: &[u8], start: usize, len: usize)
    requires
        start + len <= src@.len(),
        phys + len <= u64::MAX + 1,
    ensures
        final(mem)@ == spec_store_bytes(old(mem)@, phys, src@.subrange(start as int, start + len)),
{
    let mut i: usize = 0;
    assert(src@.subrange(start as int, start + 0) =~= Seq::<u8>::empty());
    while i < len
        invariant
            i <= len,
            start + len <= src@.len(),
            phys + len <= u64::MAX + 1,
            mem@ == spec_store_bytes(old(mem)@, phys, src@.subrange(start as int, start + i)),
        decreases len - i,
    {
        assert(src@.subrange(start as int, start + i + 1).drop_last() =~= src@.subrange(
            start as int,
            start + i,
        ));
        let _ = src.len();
        mem.write_byte(phys + i as u64, src[start + i]);
        i += 1;
    }
}

/// Loads the page at `page` of a segment.
fn load_page(
    mem: &mut DirectMap,
    pm: &mut PhysicalMemory,
    cr3: u64,
    segment: &ElfSegment,
    page: u64,
    data: &[u8],
) -> (res: Result<(), ProcessError>)
    requires
        old(pm).wf(),
        segment.vaddr + segment.filesz <= u64::MAX,
        segment.offset + segment.filesz <= u64::MAX,
        page % PAGE_BYTES == 0,
        page + PAGE_BYTES <= u64::MAX + 1,
    ensures
        final(pm).wf(),
        final(pm).map == old(pm).map,
        final(pm).reserved_limit == old(pm).reserved_limit,
        (paging_state(final(mem), final(pm)), res) == spec_load_page(
            paging_state(old(mem), old(pm)),
            old(pm).map@,
            old(pm).reserved_limit,
            cr3,
            *segment,
            page,
            data@,
        ),
{
    let frame = match allocate_frame(pm) {
        Some(frame) => frame,
        None => { return Err(ProcessError::AddressSpaceAllocationFailed); },
    };
    mem.zero_frame(frame.start());
    let mut flags = FLAG_USER;
    if segment_flags_writable(segment.flags) {
        flags |= FLAG_WRITABLE;
    }
    if !segment_flags_executable(segment.flags) {
        flags |= FLAG_NO_EXECUTE;
    }
    assert(flags == spec_segment_page_flags(segment.flags)) by {
        assert((FLAG_USER | 0) | 0 == FLAG_USER && (FLAG_USER | FLAG_WRITABLE) | 0 == FLAG_USER
            | FLAG_WRITABLE && (FLAG_USER | 0) | FLAG_NO_EXECUTE == FLAG_USER | FLAG_NO_EXECUTE)
            by (bit_vector);
    }
    match map_page(mem, pm, cr3, page, frame.start(), flags) {
        Ok(()) => {},
        Err(_) => { return Err(ProcessError::AddressSpaceAllocationFailed); },
    }
    let seg_file_end = segment.vaddr + segment.filesz;
    let copy_start = if segment.vaddr >= page { segment.vaddr } else { page };
    let page_end: u128 = page as u128 + PAGE_BYTES as u128;
    let copy_end: u128 = if seg_file_end as u128 <= page_end { seg_file_end as u128 } else { page_end };
    if copy_end > copy_start as u128 {
        let dst_offset = copy_start - page;
        let src_offset = copy_start - segment.vaddr;
        let len = (copy_end - copy_start as u128) as u64;
        let src_index = segment.offset + src_offset;
        if src_index as u128 + len as u128 > data.len() as u128 {
            return Err(ProcessError::InvalidElf);
        }
        store_slice(mem, frame.start() + dst_offset, data, src_index as usize, len as usize);
    }
    Ok(())
}

/// Maps and fills the pages of every segment of a program.
#[verifier::loop_isolation(false)]
pub fn map_user_segments(
    mem: &mut DirectMap,
    pm: &mut PhysicalMemory,
    address_space: &AddressSpace,
    image: &ElfImage,
    data: &[u8],
) -> (res: Result<(), ProcessError>)
    requires
        old(pm).wf(),
    ensures
        final(pm).wf(),
        final(pm).map == old(pm).map,
        final(pm).reserved_limit == old(pm).reserved_limit,
        (paging_state(final(mem), final(pm)), res) == spec_load_segments(
            paging_state(old(mem), old(pm)),
            old(pm).map@,
            old(pm).reserved_limit,
            address_space.cr3,
            image.segments@,
            0,
            data@,
        ),
{
    let mut index: usize = 0;
    proof {
        lemma_page_size_is_power_of_two();
    }
    while index < image.segments.len()
        invariant
            index <= image.segments@.len(),
            pm.wf(),
            pm.map == old(pm).map,
            pm.reserved_limit == old(pm).reserved_limit,
            spec_load_segments(
                paging_state(mem, pm),
                pm.map@,
                pm.reserved_limit,
                address_space.cr3,
                image.segments@,
                index as int,
                data@,
            ) == spec_load_segments(
                paging_state(old(mem), old(pm)),
                old(pm).map@,
                old(pm).reserved_limit,
                address_space.cr3,
                image.segments@,
                0,
                data@,
            ),
        decreases image.segments@.len() - index,
    {
        let segment = image.segments[index];
        let memory_end = match segment.vaddr.checked_add(segment.memsz) {
            Some(end) => end,
            None => { return Err(ProcessError::InvalidElf); },
        };
        if segment.vaddr.checked_add(segment.filesz).is_none() || segment.offset.checked_add(
            segment.filesz,
        ).is_none() {
            return Err(ProcessError::InvalidElf);
        }
        let start = align_down(segment.vaddr, PAGE_BYTES);
        let end = align_up(memory_end, PAGE_BYTES);
        let ghost before = paging_state(mem, pm);
        let mut page = start;
        while page < end
            invariant
                pm.wf(),
                pm.map == old(pm).map,
                pm.reserved_limit == old(pm).reserved_limit,
                page % PAGE_BYTES == 0 || page >= end,
                spec_load_pages(
                    paging_state(mem, pm),
                    pm.map@,
                    pm.reserved_limit,
                    address_space.cr3,
                    segment,
                    page,
                    end,
                    data@,
                ) == spec_load_pages(
                    before,
                    pm.map@,
                    pm.reserved_limit,
                    address_space.cr3,
                    segment,
                    start,
                    end,
                    data@,
                ),
            decreases (if page < end { end - page } else { 0 }),
        {
            match load_page(mem, pm, address_space.cr3(), &segment, page, data) {
                Ok(()) => {},
                Err(e) => { return Err(e); },
            }
            page = page.saturating_add(PAGE_BYTES);
        }
        index += 1;
    }
    Ok(())
}

} // verus!
