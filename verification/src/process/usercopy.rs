//! Copying between the kernel and the memory of a process, and making the
//! address space of a user process.

use vstd::prelude::*;
use crate::arch::mmu::KERNEL_VMA_BASE;
use crate::arch::paging::{
    byte_of, with_byte,
    clone_kernel_pml4, lemma_entry_bits, map_page, paging_state, spec_allocate_table, spec_byte,
    spec_copy_upper_half, spec_map_page, spec_slot, spec_store_byte, spec_table_base,
    spec_table_index, spec_translate, translate, DirectMap, MapError, PagingState, FLAG_HUGE,
    FLAG_PRESENT, FLAG_USER, FLAG_WRITABLE,
};
use crate::mem::phys::{allocate_frame, FrameAllocator, MemoryRegion, PhysicalMemory};
use crate::process::types::{AddressSpace, AddressSpaceKind, ProcessError, UserStack};
use crate::user::{DEFAULT_STACK_PAGES, USER_ADDR_LIMIT};

verus! {

pub const PAGE_BYTES: u64 = 4096;

/// Whether `len` bytes at `ptr` lie in the user's half of the address space.
/// An empty range lies anywhere.
pub open spec fn spec_user_range_ok(ptr: u64, len: nat) -> bool {
    len == 0 || ptr + len <= KERNEL_VMA_BASE
}

/// Checks that a range lies below the kernel's half of the address space.
pub fn ensure_user_range(ptr: u64, len: usize) -> (res: Result<(), ProcessError>)
    ensures
        spec_user_range_ok(ptr, len as nat) ==> res is Ok,
        !spec_user_range_ok(ptr, len as nat) ==> res == Err::<(), ProcessError>(
            ProcessError::InvalidUserPointer,
        ),
{
    if len == 0 {
        return Ok(());
    }
    let limit = KERNEL_VMA_BASE;
    if ptr >= limit {
        return Err(ProcessError::InvalidUserPointer);
    }
    let end = match ptr.checked_add(len as u64) {
        Some(end) => end,
        None => { return Err(ProcessError::InvalidUserPointer); },
    };
    if end > limit {
        return Err(ProcessError::InvalidUserPointer);
    }
    Ok(())
}

/// The bytes that `len` bytes at the virtual address `ptr` hold, where each
/// of them can be reached through the page tables at `cr3`.
pub open spec fn spec_user_bytes(mem: Map<u64, u64>, cr3: u64, ptr: u64, len: nat) -> Option<Seq<u8>> {
    if ptr + len <= u64::MAX + 1 && (forall|i: int|
        0 <= i < len ==> #[trigger] spec_translate(mem, cr3, (ptr + i) as u64) is Some) {
        Some(
            Seq::new(len, |i: int| spec_byte(mem, spec_translate(mem, cr3, (ptr + i) as u64)->0)),
        )
    } else {
        None
    }
}

/// Memory with `bytes` stored from physical address `phys` on.
pub open spec fn spec_store_bytes(mem: Map<u64, u64>, phys: u64, bytes: Seq<u8>) -> Map<u64, u64>
    decreases bytes.len(),
{
    if bytes.len() == 0 {
        mem
    } else {
        spec_store_byte(
            spec_store_bytes(mem, phys, bytes.drop_last()),
            (phys + bytes.len() - 1) as u64,
            bytes.last(),
        )
    }
}

/// How many of `len` bytes at physical address `phys` lie in its page.
pub open spec fn spec_chunk(phys: u64, len: int) -> int {
    let room = PAGE_BYTES - phys % PAGE_BYTES;
    if room < len {
        room
    } else {
        len
    }
}

/// Memory after `data` was copied to the virtual address `ptr`, page by
/// page, and whether all of it was. Each page is looked up in the page
/// tables at `cr3` as they stand when the copy reaches it; the copy ends at
/// the first page that is not mapped.
pub open spec fn spec_copy_out(mem: Map<u64, u64>, cr3: u64, ptr: u64, data: Seq<u8>) -> (
    Map<u64, u64>,
    Result<(), ProcessError>,
)
    decreases data.len(),
{
    if data.len() == 0 {
        (mem, Ok(()))
    } else {
        match spec_translate(mem, cr3, ptr) {
            None => (mem, Err(ProcessError::UserMemoryNotPresent)),
            Some(phys) => {
                let n = spec_chunk(phys, data.len() as int);
                spec_copy_out(
                    spec_store_bytes(mem, phys, data.subrange(0, n)),
                    cr3,
                    (ptr + n) as u64,
                    data.subrange(n, data.len() as int),
                )
            },
        }
    }
}

/// Facts about addresses inside one page: adding an offset that stays in the
/// page changes no table index, and adds to the offset in the page.
pub proof fn lemma_same_page(virt: u64, k: u64)
    requires
        virt % PAGE_BYTES + k < PAGE_BYTES,
    ensures
        virt + k <= u64::MAX,
        spec_table_index((virt + k) as u64, 39) == spec_table_index(virt, 39),
        spec_table_index((virt + k) as u64, 30) == spec_table_index(virt, 30),
        spec_table_index((virt + k) as u64, 21) == spec_table_index(virt, 21),
        spec_table_index((virt + k) as u64, 12) == spec_table_index(virt, 12),
        ((virt + k) as u64) & 0xFFF == (virt & 0xFFF) + k,
        ((virt + k) as u64) & 0x1F_FFFF == (virt & 0x1F_FFFF) + k,
        ((virt + k) as u64) & 0x3FFF_FFFF == (virt & 0x3FFF_FFFF) + k,
        virt & 0xFFF == virt % PAGE_BYTES,
{
    assert(virt % 4096 + k < 4096 ==> virt + k <= 0xFFFF_FFFF_FFFF_FFFF && (((virt + k) as u64)
        >> 39) & 0x1FF == (virt >> 39) & 0x1FF && (((virt + k) as u64) >> 30) & 0x1FF == (virt
        >> 30) & 0x1FF && (((virt + k) as u64) >> 21) & 0x1FF == (virt >> 21) & 0x1FF && (((virt
        + k) as u64) >> 12) & 0x1FF == (virt >> 12) & 0x1FF && ((virt + k) as u64) & 0xFFF == (virt
        & 0xFFF) + k && ((virt + k) as u64) & 0x1F_FFFF == (virt & 0x1F_FFFF) + k && ((virt
        + k) as u64) & 0x3FFF_FFFF == (virt & 0x3FFF_FFFF) + k && virt & 0xFFF == virt % 4096)
        by (bit_vector);
}

/// The frame of a page and the offset in it add up without carry: the
/// physical address has the offset of the virtual one.
pub proof fn lemma_frame_offset(base: u64, virt: u64)
    requires
        base % PAGE_BYTES == 0,
        base <= 0x000F_FFFF_FFFF_F000,
    ensures
        ((base + (virt & 0xFFF)) as u64) % PAGE_BYTES == virt % PAGE_BYTES,
        ((base + (virt & 0x1F_FFFF)) as u64) % PAGE_BYTES == virt % PAGE_BYTES,
        ((base + (virt & 0x3FFF_FFFF)) as u64) % PAGE_BYTES == virt % PAGE_BYTES,
        (virt & 0xFFF) <= 0xFFF,
        (virt & 0x1F_FFFF) <= 0x1F_FFFF,
        (virt & 0x3FFF_FFFF) <= 0x3FFF_FFFF,
{
    assert(base % 4096 == 0 && base <= 0x000F_FFFF_FFFF_F000 ==> ((base + (virt & 0xFFF)) as u64)
        % 4096 == virt % 4096 && ((base + (virt & 0x1F_FFFF)) as u64) % 4096 == virt % 4096 && ((
    base + (virt & 0x3FFF_FFFF)) as u64) % 4096 == virt % 4096 && (virt & 0xFFF) <= 0xFFF && (virt
        & 0x1F_FFFF) <= 0x1F_FFFF && (virt & 0x3FFF_FFFF) <= 0x3FFF_FFFF) by (bit_vector);
}

/// Inside one page, virtual addresses that follow each other stand for
/// physical addresses that follow each other; and a page is mapped as a
/// whole or not at all.
pub proof fn lemma_translate_within_page(mem: Map<u64, u64>, cr3: u64, virt: u64, k: u64)
    requires
        virt % PAGE_BYTES + k < PAGE_BYTES,
    ensures
        virt + k <= u64::MAX,
        spec_translate(mem, cr3, virt) is None ==> spec_translate(mem, cr3, (virt + k) as u64)
            is None,
        spec_translate(mem, cr3, virt) matches Some(phys) ==> phys + k <= u64::MAX
            && spec_translate(mem, cr3, (virt + k) as u64) == Some((phys + k) as u64) && phys
            % PAGE_BYTES == virt % PAGE_BYTES,
{
    lemma_same_page(virt, k);
    let pml4e = mem[spec_slot(cr3, spec_table_index(virt, 39))];
    let pdpte = mem[spec_slot(pml4e, spec_table_index(virt, 30))];
    let pde = mem[spec_slot(pdpte, spec_table_index(virt, 21))];
    let pte = mem[spec_slot(pde, spec_table_index(virt, 12))];
    lemma_entry_bits(pdpte, 0, 0);
    lemma_entry_bits(pde, 0, 0);
    lemma_entry_bits(pte, 0, 0);
    lemma_frame_offset(spec_table_base(pdpte), virt);
    lemma_frame_offset(spec_table_base(pde), virt);
    lemma_frame_offset(spec_table_base(pte), virt);
}

/// Reads `dst.len()` bytes at the virtual address `user_ptr` of an address
/// space, page by page.
fn copy_in_pages(mem: &DirectMap, cr3: u64, dst: &mut [u8], user_ptr: u64) -> (res: Result<
    (),
    ProcessError,
>)
    requires
        old(dst)@.len() > 0,
        user_ptr + old(dst)@.len() <= u64::MAX + 1,
    ensures
        final(dst)@.len() == old(dst)@.len(),
        match spec_user_bytes(mem@, cr3, user_ptr, old(dst)@.len()) {
            Some(bytes) => res is Ok && final(dst)@ == bytes,
            None => res == Err::<(), ProcessError>(ProcessError::UserMemoryNotPresent),
        },
{
    let len = dst.len();
    let mut copied: usize = 0;
    while copied < len
        invariant
            copied <= len,
            len == dst@.len(),
            len == old(dst)@.len(),
            user_ptr + len <= u64::MAX + 1,
            forall|j: int|
                0 <= j < copied ==> #[trigger] spec_translate(mem@, cr3, (user_ptr + j) as u64)
                    is Some,
            forall|j: int|
                0 <= j < copied ==> dst@[j] == spec_byte(
                    mem@,
                    (#[trigger] spec_translate(mem@, cr3, (user_ptr + j) as u64))->0,
                ),
        decreases len - copied,
    {
        let virt_addr = user_ptr + copied as u64;
        let phys = match translate(mem, cr3, virt_addr) {
            Some(phys) => phys,
            None => {
                assert(spec_translate(mem@, cr3, (user_ptr + copied) as u64) is None);
                return Err(ProcessError::UserMemoryNotPresent);
            },
        };
        proof {
            lemma_translate_within_page(mem@, cr3, virt_addr, 0);
            lemma_same_page(phys, 0);
        }
        let page_offset = (phys & 0xFFF) as usize;
        let avail = PAGE_BYTES as usize - page_offset;
        let to_copy = if avail < len - copied { avail } else { len - copied };
        let mut i: usize = 0;
        while i < to_copy
            invariant
                i <= to_copy,
                copied + to_copy <= len,
                len == dst@.len(),
                len == old(dst)@.len(),
                user_ptr + len <= u64::MAX + 1,
                virt_addr == user_ptr + copied,
                spec_translate(mem@, cr3, virt_addr) == Some(phys),
                virt_addr % PAGE_BYTES + to_copy <= PAGE_BYTES,
                forall|j: int|
                    0 <= j < copied + i ==> #[trigger] spec_translate(
                        mem@,
                        cr3,
                        (user_ptr + j) as u64,
                    ) is Some,
                forall|j: int|
                    0 <= j < copied + i ==> dst@[j] == spec_byte(
                        mem@,
                        (#[trigger] spec_translate(mem@, cr3, (user_ptr + j) as u64))->0,
                    ),
            decreases to_copy - i,
        {
            proof {
                lemma_translate_within_page(mem@, cr3, virt_addr, i as u64);
            }
            let byte = mem.read_byte(phys + i as u64);
            dst[copied + i] = byte;
            i += 1;
        }
        copied += to_copy;
    }
    proof {
        let bytes = spec_user_bytes(mem@, cr3, user_ptr, len as nat)->0;
        assert(dst@ =~= bytes);
    }
    Ok(())
}

/// Stores `len` bytes of `src`, from `start` on, at physical address `phys`.
fn store_bytes(mem: &mut DirectMap, phys: u64, src: &[u8], start: usize, len: usize)
    requires
        start + len <= src@.len(),
        phys + len <= u64::MAX + 1,
    ensures
        final(mem)@ == spec_store_bytes(old(mem)@, phys, src@.subrange(start as int, start + len)),
{
    let mut i: usize = 0;
    assert(src@.subrange(start as int, start + 0) =~= Seq::<u8>::empty());
    while i < len
        invariant
            i <= len,
            start + len <= src@.len(),
            phys + len <= u64::MAX + 1,
            mem@ == spec_store_bytes(old(mem)@, phys, src@.subrange(start as int, start + i)),
        decreases len - i,
    {
        assert(src@.subrange(start as int, start + i + 1).drop_last() =~= src@.subrange(
            start as int,
            start + i,
        ));
        let _ = src.len();
        mem.write_byte(phys + i as u64, src[start + i]);
        i += 1;
    }
}

/// Writes `src` at the virtual address `user_ptr` of an address space, page
/// by page.
fn copy_out_pages(mem: &mut DirectMap, cr3: u64, user_ptr: u64, src: &[u8]) -> (res: Result<
    (),
    ProcessError,
>)
    requires
        user_ptr + src@.len() <= u64::MAX + 1,
    ensures
        (final(mem)@, res) == spec_copy_out(old(mem)@, cr3, user_ptr, src@),
{
    let len = src.len();
    let mut written: usize = 0;
    assert(src@.subrange(0, len as int) =~= src@);
    while written < len
        invariant
            written <= len,
            len == src@.len(),
            user_ptr + len <= u64::MAX + 1,
            spec_copy_out(
                mem@,
                cr3,
                (user_ptr + written) as u64,
                src@.subrange(written as int, len as int),
            ) == spec_copy_out(old(mem)@, cr3, user_ptr, src@),
        decreases len - written,
    {
        let virt_addr = user_ptr + written as u64;
        let phys = match translate(mem, cr3, virt_addr) {
            Some(phys) => phys,
            None => { return Err(ProcessError::UserMemoryNotPresent); },
        };
        proof {
            lemma_translate_within_page(mem@, cr3, virt_addr, 0);
            lemma_same_page(phys, 0);
        }
        let page_offset = (phys & 0xFFF) as usize;
        let avail = PAGE_BYTES as usize - page_offset;
        let to_copy = if avail < len - written { avail } else { len - written };
        proof {
            let rest = src@.subrange(written as int, len as int);
            assert(rest.subrange(0, to_copy as int) =~= src@.subrange(
                written as int,
                written + to_copy,
            ));
            assert(rest.subrange(to_copy as int, rest.len() as int) =~= src@.subrange(
                written + to_copy,
                len as int,
            ));
            lemma_translate_within_page(mem@, cr3, virt_addr, (to_copy - 1) as u64);
        }
        store_bytes(mem, phys, src, written, to_copy);
        written += to_copy;
    }
    Ok(())
}

/// Copies `dst.len()` bytes from the virtual address `user_ptr` of an
/// address space into `dst`.
///
/// In a user's address space the bytes must lie below the kernel's half. The
/// pages are looked up in the page tables of the address space, whichever
/// tables the processor has loaded. On an error `dst` may hold part of the bytes.
pub fn copy_from_user(mem: &DirectMap, address_space: &AddressSpace, dst: &mut [u8], user_ptr: u64) -> (res:
    Result<(), ProcessError>)
    ensures
        final(dst)@.len() == old(dst)@.len(),
        old(dst)@.len() == 0 ==> res is Ok && final(dst)@ == old(dst)@,
        old(dst)@.len() > 0 ==> (if (address_space.kind == AddressSpaceKind::User
            && !spec_user_range_ok(user_ptr, old(dst)@.len())) || user_ptr + old(dst)@.len()
            > u64::MAX + 1 {
            res == Err::<(), ProcessError>(ProcessError::InvalidUserPointer) && final(dst)@ == old(dst)@
        } else {
            match spec_user_bytes(mem@, address_space.cr3, user_ptr, old(dst)@.len()) {
                Some(bytes) => res is Ok && final(dst)@ == bytes,
                None => res == Err::<(), ProcessError>(ProcessError::UserMemoryNotPresent),
            }
        }),
{
    if dst.len() == 0 {
        return Ok(());
    }
    match address_space.kind() {
        AddressSpaceKind::Kernel => {
            if user_ptr.checked_add((dst.len() - 1) as u64).is_none() {
                return Err(ProcessError::InvalidUserPointer);
            }
            copy_in_pages(mem, address_space.cr3(), dst, user_ptr)
        },
        AddressSpaceKind::User => copy_from_user_internal(mem, address_space, dst, user_ptr),
    }
}

/// Copies from a user's address space, after the range was checked.
pub fn copy_from_user_internal(
    mem: &DirectMap,
    address_space: &AddressSpace,
    dst: &mut [u8],
    user_ptr: u64,
) -> (res: Result<(), ProcessError>)
    ensures
        final(dst)@.len() == old(dst)@.len(),
        old(dst)@.len() == 0 ==> res is Ok && final(dst)@ == old(dst)@,
        old(dst)@.len() > 0 ==> (if !spec_user_range_ok(user_ptr, old(dst)@.len()) {
            res == Err::<(), ProcessError>(ProcessError::InvalidUserPointer) && final(dst)@ == old(dst)@
        } else {
            match spec_user_bytes(mem@, address_space.cr3, user_ptr, old(dst)@.len()) {
                Some(bytes) => res is Ok && final(dst)@ == bytes,
                None => res == Err::<(), ProcessError>(ProcessError::UserMemoryNotPresent),
            }
        }),
{
    if dst.len() == 0 {
        return Ok(());
    }
    match ensure_user_range(user_ptr, dst.len()) {
        Ok(()) => {},
        Err(e) => { return Err(e); },
    }
    copy_in_pages(mem, address_space.cr3(), dst, user_ptr)
}

/// Copies `src` to the virtual address `user_ptr` of an address space.
///
/// In a user's address space the bytes must lie below the kernel's half:
/// otherwise nothing is written and the error is `InvalidUserPointer`. A
/// page that is not mapped ends the copy with `UserMemoryNotPresent`; the
/// pages before it are written.
pub fn copy_to_user(mem: &mut DirectMap, address_space: &AddressSpace, user_ptr: u64, src: &[u8]) -> (res:
    Result<(), ProcessError>)
    ensures
        src@.len() == 0 ==> res is Ok && final(mem)@ == old(mem)@,
        src@.len() > 0 ==> (if (address_space.kind == AddressSpaceKind::User
            && !spec_user_range_ok(user_ptr, src@.len())) || user_ptr + src@.len() > u64::MAX
            + 1 {
            res == Err::<(), ProcessError>(ProcessError::InvalidUserPointer) && final(mem)@ == old(mem)@
        } else {
            (final(mem)@, res) == spec_copy_out(old(mem)@, address_space.cr3, user_ptr, src@)
        }),
        res matches Err(e) ==> e == ProcessError::InvalidUserPointer || e
            == ProcessError::UserMemoryNotPresent,
        res is Ok && address_space.kind == AddressSpaceKind::User ==> user_ptr + src@.len()
            <= KERNEL_VMA_BASE || src@.len() == 0,
        src@.len() > 0 && spec_translate(old(mem)@, address_space.cr3, user_ptr) is None ==> res
            is Err,
{
    if src.len() == 0 {
        return Ok(());
    }
    match address_space.kind() {
        AddressSpaceKind::Kernel => {
            if user_ptr.checked_add((src.len() - 1) as u64).is_none() {
                return Err(ProcessError::InvalidUserPointer);
            }
            let res = copy_out_pages(mem, address_space.cr3(), user_ptr, src);
            proof {
                lemma_copy_out_errors(old(mem)@, address_space.cr3, user_ptr, src@);
            }
            res
        },
        AddressSpaceKind::User => copy_to_user_internal(mem, address_space, user_ptr, src),
    }
}

/// Copies to a user's address space, after the range was checked.
pub fn copy_to_user_internal(
    mem: &mut DirectMap,
    address_space: &AddressSpace,
    user_ptr: u64,
    src: &[u8],
) -> (res: Result<(), ProcessError>)
    ensures
        src@.len() == 0 ==> res is Ok && final(mem)@ == old(mem)@,
        src@.len() > 0 ==> (if !spec_user_range_ok(user_ptr, src@.len()) {
            res == Err::<(), ProcessError>(ProcessError::InvalidUserPointer) && final(mem)@ == old(mem)@
        } else {
            (final(mem)@, res) == spec_copy_out(old(mem)@, address_space.cr3, user_ptr, src@)
        }),
        res matches Err(e) ==> e == ProcessError::InvalidUserPointer || e
            == ProcessError::UserMemoryNotPresent,
        res is Ok ==> user_ptr + src@.len() <= KERNEL_VMA_BASE || src@.len() == 0,
        src@.len() > 0 && spec_translate(old(mem)@, address_space.cr3, user_ptr) is None ==> res
            is Err,
{
    if src.len() == 0 {
        return Ok(());
    }
    match ensure_user_range(user_ptr, src.len()) {
        Ok(()) => {},
        Err(e) => { return Err(e); },
    }
    let res = copy_out_pages(mem, address_space.cr3(), user_ptr, src);
    proof {
        lemma_copy_out_errors(old(mem)@, address_space.cr3, user_ptr, src@);
    }
    res
}

/// A copy that fails fails because a page is not mapped; and a copy whose
/// first page is not mapped fails.
pub proof fn lemma_copy_out_errors(mem: Map<u64, u64>, cr3: u64, ptr: u64, data: Seq<u8>)
    ensures
        spec_copy_out(mem, cr3, ptr, data).1 matches Err(e) ==> e
            == ProcessError::UserMemoryNotPresent,
        data.len() > 0 && spec_translate(mem, cr3, ptr) is None ==> spec_copy_out(
            mem,
            cr3,
            ptr,
            data,
        ).1 is Err,
    decreases data.len(),
{
    if data.len() > 0 {
        match spec_translate(mem, cr3, ptr) {
            None => {},
            Some(phys) => {
                let n = spec_chunk(phys, data.len() as int);
                lemma_copy_out_errors(
                    spec_store_bytes(mem, phys, data.subrange(0, n)),
                    cr3,
                    (ptr + n) as u64,
                    data.subrange(n, data.len() as int),
                );
            },
        }
    }
}

/// Reads `len` bytes at `user_ptr` of an address space into a fresh buffer.
pub fn read_user_buffer(mem: &DirectMap, address_space: &AddressSpace, user_ptr: u64, len: usize) -> (res:
    Result<Vec<u8>, ProcessError>)
    ensures
        len == 0 ==> res is Ok && res->Ok_0@.len() == 0,
        len > 0 ==> (if (address_space.kind == AddressSpaceKind::User && !spec_user_range_ok(
            user_ptr,
            len as nat,
        )) || user_ptr + len > u64::MAX + 1 {
            res is Err && res->Err_0 == ProcessError::InvalidUserPointer
        } else {
            match spec_user_bytes(mem@, address_space.cr3, user_ptr, len as nat) {
                Some(bytes) => res is Ok && res->Ok_0@ == bytes,
                None => res is Err && res->Err_0 == ProcessError::UserMemoryNotPresent,
            }
        }),
{
    let mut buffer: Vec<u8> = vec![0u8; len];
    match copy_from_user(mem, address_space, buffer.as_mut_slice(), user_ptr) {
        Ok(()) => Ok(buffer),
        Err(e) => Err(e),
    }
}

/// Writes `data` at `user_ptr` of an address space. Where the bytes can be
/// written without harm, each of them lands where its address is mapped,
/// and reading the range afterwards gives the data.
pub fn write_user_buffer(mem: &mut DirectMap, address_space: &AddressSpace, user_ptr: u64, data: &[u8]) -> (res:
    Result<(), ProcessError>)
    ensures
        data@.len() == 0 ==> res is Ok && final(mem)@ == old(mem)@,
        data@.len() > 0 ==> (if (address_space.kind == AddressSpaceKind::User
            && !spec_user_range_ok(user_ptr, data@.len())) || user_ptr + data@.len() > u64::MAX
            + 1 {
            res == Err::<(), ProcessError>(ProcessError::InvalidUserPointer) && final(mem)@ == old(mem)@
        } else {
            (final(mem)@, res) == spec_copy_out(old(mem)@, address_space.cr3, user_ptr, data@)
        }),
        copy_apart(old(mem)@, address_space.cr3, user_ptr, data@.len()) && (address_space.kind
            == AddressSpaceKind::User ==> spec_user_range_ok(user_ptr, data@.len())) ==> res is Ok
            && spec_user_bytes(final(mem)@, address_space.cr3, user_ptr, data@.len()) == Some(data@)
            && forall|i: int|
            0 <= i < data@.len() ==> spec_byte(
                final(mem)@,
                (#[trigger] spec_translate(old(mem)@, address_space.cr3, (user_ptr + i) as u64))->0,
            ) == data@[i],
{
    let res = copy_to_user(mem, address_space, user_ptr, data);
    proof {
        if copy_apart(old(mem)@, address_space.cr3, user_ptr, data@.len()) {
            lemma_write_then_read(old(mem)@, address_space.cr3, user_ptr, data@);
        }
    }
    res
}

/// Whether the walk of `virt` through the page tables at `cr3` reads the
/// word `word` of memory.
#[verifier::opaque]
pub open spec fn walk_reads(mem: Map<u64, u64>, cr3: u64, virt: u64, word: u64) -> bool {
    let slot4 = spec_slot(cr3, spec_table_index(virt, 39));
    let slot3 = spec_slot(mem[slot4], spec_table_index(virt, 30));
    let slot2 = spec_slot(mem[slot3], spec_table_index(virt, 21));
    let slot1 = spec_slot(mem[slot2], spec_table_index(virt, 12));
    ||| word == slot4
    ||| mem[slot4] & FLAG_PRESENT != 0 && word == slot3
    ||| mem[slot4] & FLAG_PRESENT != 0 && mem[slot3] & FLAG_PRESENT != 0 && mem[slot3] & FLAG_HUGE
        == 0 && word == slot2
    ||| mem[slot4] & FLAG_PRESENT != 0 && mem[slot3] & FLAG_PRESENT != 0 && mem[slot3] & FLAG_HUGE
        == 0 && mem[slot2] & FLAG_PRESENT != 0 && mem[slot2] & FLAG_HUGE == 0 && word == slot1
}

/// A word that a walk does not read can change without changing the walk.
pub proof fn lemma_walk_apart(mem: Map<u64, u64>, cr3: u64, virt: u64, word: u64, value: u64, other: u64)
    requires
        !walk_reads(mem, cr3, virt, word),
    ensures
        spec_translate(mem.insert(word, value), cr3, virt) == spec_translate(mem, cr3, virt),
        walk_reads(mem.insert(word, value), cr3, virt, other) == walk_reads(mem, cr3, virt, other),
{
    reveal(walk_reads);
}

/// A byte that was put into a lane of a word is read back from it, and the
/// other lanes keep their bytes.
pub proof fn lemma_byte_lanes(word: u64, lane: u64, byte: u8, other: u64)
    requires
        lane < 8,
        other < 8,
    ensures
        byte_of(with_byte(word, lane, byte), lane) == byte,
        other != lane ==> byte_of(with_byte(word, lane, byte), other) == byte_of(word, other),
{
    let shift: u64 = (8 * lane) as u64;
    let shift2: u64 = (8 * other) as u64;
    let b: u64 = byte as u64;
    assert((shift == 0 || shift == 8 || shift == 16 || shift == 24 || shift == 32 || shift == 40
        || shift == 48 || shift == 56) && b <= 0xFF ==> (((word & !(0xFFu64 << shift)) | (b
        << shift)) >> shift) & 0xFF == b) by (bit_vector);
    assert((shift == 0 || shift == 8 || shift == 16 || shift == 24 || shift == 32 || shift == 40
        || shift == 48 || shift == 56) && (shift2 == 0 || shift2 == 8 || shift2 == 16 || shift2
        == 24 || shift2 == 32 || shift2 == 40 || shift2 == 48 || shift2 == 56) && shift != shift2
        && b <= 0xFF ==> (((word & !(0xFFu64 << shift)) | (b << shift)) >> shift2) & 0xFF == (word
        >> shift2) & 0xFF) by (bit_vector);
}

/// A byte that was stored is read back; every other byte stays.
pub proof fn lemma_store_byte(mem: Map<u64, u64>, phys: u64, byte: u8, at: u64)
    ensures
        spec_byte(spec_store_byte(mem, phys, byte), at) == (if at == phys {
            byte
        } else {
            spec_byte(mem, at)
        }),
{
    if at / 8 == phys / 8 {
        lemma_byte_lanes(mem[phys / 8], phys % 8, byte, at % 8);
    }
}

/// Bytes that were stored are read back; every other byte stays.
pub proof fn lemma_store_bytes(mem: Map<u64, u64>, phys: u64, bytes: Seq<u8>, at: u64)
    requires
        phys + bytes.len() <= u64::MAX + 1,
    ensures
        spec_byte(spec_store_bytes(mem, phys, bytes), at) == (if phys <= at < phys + bytes.len() {
            bytes[at - phys]
        } else {
            spec_byte(mem, at)
        }),
    decreases bytes.len(),
{
    if bytes.len() > 0 {
        lemma_store_bytes(mem, phys, bytes.drop_last(), at);
        lemma_store_byte(
            spec_store_bytes(mem, phys, bytes.drop_last()),
            (phys + bytes.len() - 1) as u64,
            bytes.last(),
            at,
        );
    }
}

/// Bytes stored in words that a walk does not read leave the walk as it is.
pub proof fn lemma_store_bytes_apart(
    mem: Map<u64, u64>,
    phys: u64,
    bytes: Seq<u8>,
    cr3: u64,
    virt: u64,
    other: u64,
)
    requires
        phys + bytes.len() <= u64::MAX + 1,
        forall|k: int| 0 <= k < bytes.len() ==> !walk_reads(mem, cr3, virt, #[trigger] ((phys + k) as u64) / 8),
    ensures
        spec_translate(spec_store_bytes(mem, phys, bytes), cr3, virt) == spec_translate(mem, cr3, virt),
        walk_reads(spec_store_bytes(mem, phys, bytes), cr3, virt, other) == walk_reads(
            mem,
            cr3,
            virt,
            other,
        ),
    decreases bytes.len(),
{
    if bytes.len() > 0 {
        let rest = bytes.drop_last();
        let last = (phys + bytes.len() - 1) as u64;
        let mid = spec_store_bytes(mem, phys, rest);
        assert forall|k: int| 0 <= k < rest.len() implies !walk_reads(mem, cr3, virt, #[trigger] (
        (phys + k) as u64) / 8) by {}
        lemma_store_bytes_apart(mem, phys, rest, cr3, virt, other);
        lemma_store_bytes_apart(mem, phys, rest, cr3, virt, last / 8);
        assert(!walk_reads(mem, cr3, virt, ((phys + (bytes.len() - 1)) as u64) / 8));
        lemma_walk_apart(mid, cr3, virt, last / 8, with_byte(mid[last / 8], last % 8, bytes.last()), other);
    }
}

/// The physical address behind byte `i` of the range at `ptr`.
#[verifier::opaque]
pub open spec fn spec_phys(mem: Map<u64, u64>, cr3: u64, ptr: u64, i: int) -> Option<u64> {
    spec_translate(mem, cr3, (ptr + i) as u64)
}

/// The walk of byte `j` of the range at `ptr` does not read the word that
/// holds byte `i` of the range.
pub open spec fn reads_none(mem: Map<u64, u64>, cr3: u64, ptr: u64, i: int, j: int) -> bool {
    !walk_reads(mem, cr3, (ptr + j) as u64, spec_phys(mem, cr3, ptr, i)->0 / 8)
}

/// The `len` bytes at `ptr` can be written without harm: each of them is
/// mapped; none of them lies in a word that the walk of any of them reads,
/// so that the copy does not change the tables that it goes by; and no two
/// of them share a physical address.
pub open spec fn copy_apart(mem: Map<u64, u64>, cr3: u64, ptr: u64, len: nat) -> bool {
    &&& ptr + len <= u64::MAX + 1
    &&& forall|i: int| 0 <= i < len ==> (#[trigger] spec_phys(mem, cr3, ptr, i)) is Some
    &&& forall|i: int, j: int| 0 <= i < len && 0 <= j < len ==> #[trigger] reads_none(mem, cr3, ptr, i, j)
    &&& forall|i: int, j: int|
        #![trigger spec_phys(mem, cr3, ptr, i), spec_phys(mem, cr3, ptr, j)]
        0 <= i < j < len ==> spec_phys(mem, cr3, ptr, i)->0 != spec_phys(mem, cr3, ptr, j)->0
}

/// The bytes of one page lie one after the other in physical memory.
pub proof fn lemma_phys_in_page(mem: Map<u64, u64>, cr3: u64, ptr: u64, k: int)
    requires
        spec_phys(mem, cr3, ptr, 0) is Some,
        0 <= k < PAGE_BYTES - spec_phys(mem, cr3, ptr, 0)->0 % PAGE_BYTES,
    ensures
        ptr + k <= u64::MAX,
        spec_phys(mem, cr3, ptr, 0)->0 + k <= u64::MAX,
        spec_phys(mem, cr3, ptr, k) == Some((spec_phys(mem, cr3, ptr, 0)->0 + k) as u64),
{
    reveal(spec_phys);
    lemma_translate_within_page(mem, cr3, ptr, 0);
    lemma_translate_within_page(mem, cr3, ptr, k as u64);
}

/// Bytes stored in words that the walk of byte `i` does not read leave its
/// physical address, and what its walk reads, as they are.
pub proof fn lemma_phys_kept(
    mem: Map<u64, u64>,
    phys: u64,
    bytes: Seq<u8>,
    cr3: u64,
    ptr: u64,
    i: int,
    other: u64,
)
    requires
        phys + bytes.len() <= u64::MAX + 1,
        forall|b: int|
            0 <= b < bytes.len() ==> !walk_reads(mem, cr3, (ptr + i) as u64, #[trigger] ((phys + b) as u64) / 8),
    ensures
        spec_phys(spec_store_bytes(mem, phys, bytes), cr3, ptr, i) == spec_phys(mem, cr3, ptr, i),
        walk_reads(spec_store_bytes(mem, phys, bytes), cr3, (ptr + i) as u64, other) == walk_reads(
            mem,
            cr3,
            (ptr + i) as u64,
            other,
        ),
{
    reveal(spec_phys);
    lemma_store_bytes_apart(mem, phys, bytes, cr3, (ptr + i) as u64, other);
}

/// The first step of a copy: the bytes of the first page are stored where
/// the first byte is mapped, one after the other; and what is left to copy
/// can be written without harm as before, to the same physical addresses.
pub proof fn lemma_copy_step(mem: Map<u64, u64>, cr3: u64, ptr: u64, data: Seq<u8>)
    requires
        copy_apart(mem, cr3, ptr, data.len()),
        data.len() > 0,
    ensures
        ({
            let phys = spec_phys(mem, cr3, ptr, 0)->0;
            let n = spec_chunk(phys, data.len() as int);
            let next = spec_store_bytes(mem, phys, data.subrange(0, n));
            &&& 1 <= n <= data.len()
            &&& phys + n <= u64::MAX + 1
            &&& ptr + n <= u64::MAX + 1
            &&& forall|k: int| 0 <= k < n ==> #[trigger] spec_phys(mem, cr3, ptr, k) == Some((phys + k) as u64)
            &&& forall|k: int|
                0 <= k < data.len() - n ==> #[trigger] spec_phys(next, cr3, (ptr + n) as u64, k)
                    == spec_phys(mem, cr3, ptr, n + k)
            &&& copy_apart(next, cr3, (ptr + n) as u64, (data.len() - n) as nat)
        }),
{
    let len = data.len() as int;
    assert(spec_phys(mem, cr3, ptr, 0) is Some);
    let phys = spec_phys(mem, cr3, ptr, 0)->0;
    let n = spec_chunk(phys, len);
    let first = data.subrange(0, n);
    let next = spec_store_bytes(mem, phys, first);
    let ptr1 = (ptr + n) as u64;
    assert forall|k: int| 0 <= k < n implies #[trigger] spec_phys(mem, cr3, ptr, k) == Some(
        (phys + k) as u64,
    ) && phys + k <= u64::MAX by {
        lemma_phys_in_page(mem, cr3, ptr, k);
    }
    lemma_phys_in_page(mem, cr3, ptr, n - 1);
    if n < len {
        assert forall|k: int| 0 <= k < len - n implies #[trigger] spec_phys(next, cr3, ptr1, k)
            == spec_phys(mem, cr3, ptr, n + k) && spec_phys(mem, cr3, ptr, n + k) is Some by {
            lemma_copy_step_kept(mem, cr3, ptr, data, n + k, 0);
            assert((ptr1 + k) as u64 == (ptr + (n + k)) as u64);
            lemma_phys_shift(next, cr3, ptr, n, k);
            lemma_phys_shift(mem, cr3, ptr, n, k);
        }
        assert forall|i: int, j: int| 0 <= i < len - n && 0 <= j < len - n implies #[trigger] reads_none(
            next,
            cr3,
            ptr1,
            i,
            j,
        ) by {
            assert(spec_phys(next, cr3, ptr1, i) == spec_phys(mem, cr3, ptr, n + i));
            assert(spec_phys(next, cr3, ptr1, j) == spec_phys(mem, cr3, ptr, n + j));
            let word = spec_phys(mem, cr3, ptr, n + i)->0 / 8;
            lemma_copy_step_kept(mem, cr3, ptr, data, n + j, word);
            assert(reads_none(mem, cr3, ptr, n + i, n + j));
            assert((ptr1 + j) as u64 == (ptr + (n + j)) as u64);
            assert(!walk_reads(next, cr3, (ptr1 + j) as u64, word));
        }
        assert forall|i: int, j: int|
            #![trigger spec_phys(next, cr3, ptr1, i), spec_phys(next, cr3, ptr1, j)]
            0 <= i < j < len - n implies spec_phys(next, cr3, ptr1, i)->0 != spec_phys(
            next,
            cr3,
            ptr1,
            j,
        )->0 by {
            assert(spec_phys(next, cr3, ptr1, i) == spec_phys(mem, cr3, ptr, n + i));
            assert(spec_phys(next, cr3, ptr1, j) == spec_phys(mem, cr3, ptr, n + j));
        }
    }
}

/// The physical address behind byte `k` of the range at `ptr + n` is that
/// behind byte `n + k` of the range at `ptr`.
pub proof fn lemma_phys_shift(mem: Map<u64, u64>, cr3: u64, ptr: u64, n: int, k: int)
    requires
        0 <= n,
        0 <= k,
        ptr + n <= u64::MAX,
    ensures
        spec_phys(mem, cr3, (ptr + n) as u64, k) == spec_phys(mem, cr3, ptr, n + k),
{
    reveal(spec_phys);
    assert((((ptr + n) as u64) + k) as u64 == (ptr + (n + k)) as u64);
}

/// The first step of a copy leaves the physical address behind a later byte
/// `j`, and what its walk reads, as they are.
pub proof fn lemma_copy_step_kept(
    mem: Map<u64, u64>,
    cr3: u64,
    ptr: u64,
    data: Seq<u8>,
    j: int,
    other: u64,
)
    requires
        copy_apart(mem, cr3, ptr, data.len()),
        data.len() > 0,
        0 <= j < data.len(),
    ensures
        ({
            let phys = spec_phys(mem, cr3, ptr, 0)->0;
            let n = spec_chunk(phys, data.len() as int);
            let next = spec_store_bytes(mem, phys, data.subrange(0, n));
            &&& spec_phys(next, cr3, ptr, j) == spec_phys(mem, cr3, ptr, j)
            &&& spec_phys(mem, cr3, ptr, j) is Some
            &&& walk_reads(next, cr3, (ptr + j) as u64, other) == walk_reads(
                mem,
                cr3,
                (ptr + j) as u64,
                other,
            )
        }),
{
    assert(spec_phys(mem, cr3, ptr, 0) is Some);
    assert(spec_phys(mem, cr3, ptr, j) is Some);
    let phys = spec_phys(mem, cr3, ptr, 0)->0;
    let n = spec_chunk(phys, data.len() as int);
    let first = data.subrange(0, n);
    lemma_phys_in_page(mem, cr3, ptr, n - 1);
    assert forall|b: int| 0 <= b < first.len() implies !walk_reads(
        mem,
        cr3,
        (ptr + j) as u64,
        #[trigger] ((phys + b) as u64) / 8,
    ) by {
        lemma_phys_in_page(mem, cr3, ptr, b);
        assert(spec_phys(mem, cr3, ptr, b) == Some((phys + b) as u64));
        assert(reads_none(mem, cr3, ptr, b, j));
    }
    lemma_phys_kept(mem, phys, first, cr3, ptr, j, other);
}

/// A copy goes on behind its first page.
pub proof fn lemma_copy_unfold(mem: Map<u64, u64>, cr3: u64, ptr: u64, data: Seq<u8>)
    requires
        data.len() > 0,
        spec_phys(mem, cr3, ptr, 0) is Some,
    ensures
        ({
            let phys = spec_phys(mem, cr3, ptr, 0)->0;
            let n = spec_chunk(phys, data.len() as int);
            spec_copy_out(mem, cr3, ptr, data) == spec_copy_out(
                spec_store_bytes(mem, phys, data.subrange(0, n)),
                cr3,
                (ptr + n) as u64,
                data.subrange(n, data.len() as int),
            )
        }),
{
    reveal(spec_phys);
}

/// A copy that can be made without harm is made in full, and leaves every
/// walk that reads none of the words written as it is.
pub proof fn lemma_copy_keeps_walk(
    mem: Map<u64, u64>,
    cr3: u64,
    ptr: u64,
    data: Seq<u8>,
    virt: u64,
    other: u64,
)
    requires
        copy_apart(mem, cr3, ptr, data.len()),
        forall|i: int|
            0 <= i < data.len() ==> !walk_reads(
                mem,
                cr3,
                virt,
                (#[trigger] spec_phys(mem, cr3, ptr, i))->0 / 8,
            ),
    ensures
        spec_copy_out(mem, cr3, ptr, data).1 is Ok,
        spec_translate(spec_copy_out(mem, cr3, ptr, data).0, cr3, virt) == spec_translate(
            mem,
            cr3,
            virt,
        ),
        walk_reads(spec_copy_out(mem, cr3, ptr, data).0, cr3, virt, other) == walk_reads(
            mem,
            cr3,
            virt,
            other,
        ),
    decreases data.len(),
{
    if data.len() > 0 {
        let len = data.len() as int;
        assert(spec_phys(mem, cr3, ptr, 0) is Some);
        let phys = spec_phys(mem, cr3, ptr, 0)->0;
        let n = spec_chunk(phys, len);
        let first = data.subrange(0, n);
        let rest = data.subrange(n, len);
        let next = spec_store_bytes(mem, phys, first);
        let ptr1 = (ptr + n) as u64;
        lemma_copy_step(mem, cr3, ptr, data);
        lemma_copy_unfold(mem, cr3, ptr, data);
        assert forall|b: int| 0 <= b < first.len() implies !walk_reads(mem, cr3, virt, #[trigger] (
        (phys + b) as u64) / 8) by {
            assert(spec_phys(mem, cr3, ptr, b) == Some((phys + b) as u64));
        }
        lemma_store_bytes_apart(mem, phys, first, cr3, virt, other);
        assert forall|k: int| 0 <= k < rest.len() implies !walk_reads(
            next,
            cr3,
            virt,
            (#[trigger] spec_phys(next, cr3, ptr1, k))->0 / 8,
        ) by {
            assert(spec_phys(next, cr3, ptr1, k) == spec_phys(mem, cr3, ptr, n + k));
            lemma_store_bytes_apart(mem, phys, first, cr3, virt, spec_phys(mem, cr3, ptr, n + k)->0 / 8);
        }
        lemma_copy_keeps_walk(next, cr3, ptr1, rest, virt, other);
    }
}

/// A copy that can be made without harm leaves every byte as it is that
/// lies at none of the physical addresses written.
pub proof fn lemma_copy_keeps_byte(mem: Map<u64, u64>, cr3: u64, ptr: u64, data: Seq<u8>, at: u64)
    requires
        copy_apart(mem, cr3, ptr, data.len()),
        forall|i: int| 0 <= i < data.len() ==> (#[trigger] spec_phys(mem, cr3, ptr, i))->0 != at,
    ensures
        spec_byte(spec_copy_out(mem, cr3, ptr, data).0, at) == spec_byte(mem, at),
    decreases data.len(),
{
    if data.len() > 0 {
        let len = data.len() as int;
        assert(spec_phys(mem, cr3, ptr, 0) is Some);
        let phys = spec_phys(mem, cr3, ptr, 0)->0;
        let n = spec_chunk(phys, len);
        let first = data.subrange(0, n);
        let rest = data.subrange(n, len);
        let next = spec_store_bytes(mem, phys, first);
        let ptr1 = (ptr + n) as u64;
        lemma_copy_step(mem, cr3, ptr, data);
        lemma_copy_unfold(mem, cr3, ptr, data);
        lemma_store_bytes(mem, phys, first, at);
        if phys <= at < phys + n {
            assert(spec_phys(mem, cr3, ptr, at - phys) == Some((phys + (at - phys)) as u64));
        }
        assert forall|k: int| 0 <= k < rest.len() implies (#[trigger] spec_phys(next, cr3, ptr1, k))->0
            != at by {
            assert(spec_phys(next, cr3, ptr1, k) == spec_phys(mem, cr3, ptr, n + k));
        }
        lemma_copy_keeps_byte(next, cr3, ptr1, rest, at);
    }
}

/// A copy that can be made without harm puts byte `i` of the data where
/// byte `i` of the range is mapped, and leaves it mapped there.
pub proof fn lemma_copy_lands(mem: Map<u64, u64>, cr3: u64, ptr: u64, data: Seq<u8>, i: int)
    requires
        copy_apart(mem, cr3, ptr, data.len()),
        0 <= i < data.len(),
    ensures
        spec_copy_out(mem, cr3, ptr, data).1 is Ok,
        spec_phys(mem, cr3, ptr, i) is Some,
        spec_phys(spec_copy_out(mem, cr3, ptr, data).0, cr3, ptr, i) == spec_phys(mem, cr3, ptr, i),
        spec_byte(spec_copy_out(mem, cr3, ptr, data).0, spec_phys(mem, cr3, ptr, i)->0) == data[i],
    decreases data.len(),
{
    let len = data.len() as int;
    assert(spec_phys(mem, cr3, ptr, 0) is Some);
    assert(spec_phys(mem, cr3, ptr, i) is Some);
    let phys = spec_phys(mem, cr3, ptr, 0)->0;
    let n = spec_chunk(phys, len);
    let first = data.subrange(0, n);
    let rest = data.subrange(n, len);
    let next = spec_store_bytes(mem, phys, first);
    let ptr1 = (ptr + n) as u64;
    let after = spec_copy_out(mem, cr3, ptr, data).0;
    lemma_copy_step(mem, cr3, ptr, data);
    lemma_copy_unfold(mem, cr3, ptr, data);
    if i < n {
        let at = (phys + i) as u64;
        assert(spec_phys(mem, cr3, ptr, i) == Some(at));
        lemma_store_bytes(mem, phys, first, at);
        assert forall|k: int| 0 <= k < rest.len() implies (#[trigger] spec_phys(next, cr3, ptr1, k))->0
            != at by {
            assert(spec_phys(next, cr3, ptr1, k) == spec_phys(mem, cr3, ptr, n + k));
        }
        lemma_copy_keeps_byte(next, cr3, ptr1, rest, at);
        lemma_copy_step_kept(mem, cr3, ptr, data, i, 0);
        assert forall|k: int| 0 <= k < rest.len() implies !walk_reads(
            next,
            cr3,
            (ptr + i) as u64,
            (#[trigger] spec_phys(next, cr3, ptr1, k))->0 / 8,
        ) by {
            assert(spec_phys(next, cr3, ptr1, k) == spec_phys(mem, cr3, ptr, n + k));
            lemma_copy_step_kept(mem, cr3, ptr, data, i, spec_phys(mem, cr3, ptr, n + k)->0 / 8);
            assert(reads_none(mem, cr3, ptr, n + k, i));
        }
        lemma_copy_keeps_walk(next, cr3, ptr1, rest, (ptr + i) as u64, 0);
        assert(spec_phys(after, cr3, ptr, i) == spec_phys(next, cr3, ptr, i)) by {
            reveal(spec_phys);
        }
    } else {
        lemma_copy_lands(next, cr3, ptr1, rest, i - n);
        assert(spec_phys(next, cr3, ptr1, i - n) == spec_phys(mem, cr3, ptr, n + (i - n)));
        lemma_phys_shift(after, cr3, ptr, n, i - n);
    }
}

/// What was written to user memory is read back from it, where the bytes
/// can be written without harm: the copy is made in full, and reading the
/// range afterwards gives the data.
pub proof fn lemma_write_then_read(mem: Map<u64, u64>, cr3: u64, ptr: u64, data: Seq<u8>)
    requires
        copy_apart(mem, cr3, ptr, data.len()),
    ensures
        spec_copy_out(mem, cr3, ptr, data).1 is Ok,
        spec_user_bytes(spec_copy_out(mem, cr3, ptr, data).0, cr3, ptr, data.len()) == Some(data),
        forall|i: int|
            0 <= i < data.len() ==> spec_byte(
                spec_copy_out(mem, cr3, ptr, data).0,
                (#[trigger] spec_translate(mem, cr3, (ptr + i) as u64))->0,
            ) == data[i],
{
    let after = spec_copy_out(mem, cr3, ptr, data).0;
    reveal(spec_phys);
    assert forall|i: int| 0 <= i < data.len() implies spec_translate(after, cr3, (ptr + i) as u64)
        == spec_translate(mem, cr3, (ptr + i) as u64) && (#[trigger] spec_translate(
        mem,
        cr3,
        (ptr + i) as u64,
    )) is Some && spec_byte(after, spec_translate(mem, cr3, (ptr + i) as u64)->0) == data[i] by {
        lemma_copy_lands(mem, cr3, ptr, data, i);
    }
    assert forall|i: int| 0 <= i < data.len() implies (#[trigger] spec_translate(
        after,
        cr3,
        (ptr + i) as u64,
    )) is Some by {
        lemma_copy_lands(mem, cr3, ptr, data, i);
    }
    if data.len() > 0 {
        lemma_copy_lands(mem, cr3, ptr, data, 0);
    }
    assert(spec_user_bytes(after, cr3, ptr, data.len())->0 =~= data) by {
        assert forall|i: int| 0 <= i < data.len() implies spec_byte(
            after,
            spec_translate(after, cr3, (ptr + i) as u64)->0,
        ) == data[i] by {
            lemma_copy_lands(mem, cr3, ptr, data, i);
        }
    }
}

} // verus!
