//! Four-level page tables, kept in a model of physical memory.
//!
//! Physical memory is a sparse store of 64-bit words that the kernel reaches
//! through the direct map. A word that was never written reads as zero.
//! Page-table entries are words; bytes are lanes of words, the lowest first.

use vstd::prelude::*;
use std::collections::HashMap;
use crate::mem::phys::{allocate_frame, Frame, FrameAllocator, PhysicalMemory, MemoryRegion};

verus! {

broadcast use vstd::std_specs::hash::group_hash_axioms;

pub const PAGE_SIZE: usize = 4096;

/// Entries in a page table.
pub const PAGE_TABLE_ENTRIES: usize = 512;

/// The bits of an entry that hold a physical address.
pub const ENTRY_ADDR_MASK: u64 = 0x000F_FFFF_FFFF_F000;

pub const FLAG_PRESENT: u64 = 1 << 0;

pub const FLAG_WRITABLE: u64 = 1 << 1;

pub const FLAG_USER: u64 = 1 << 2;

pub const FLAG_WRITE_THROUGH: u64 = 1 << 3;

pub const FLAG_CACHE_DISABLE: u64 = 1 << 4;

pub const FLAG_HUGE: u64 = 1 << 7;

pub const FLAG_NO_EXECUTE: u64 = 1 << 63;

/// Why a mapping was refused.
#[derive(Debug, Copy, Clone, PartialEq, Eq, Structural)]
pub enum MapError {
    OutOfMemory,
    AlreadyMapped,
}

/// The byte in lane `lane` of `word`, lane 0 being the lowest.
pub open spec fn byte_of(word: u64, lane: u64) -> u8 {
    ((word >> (8 * lane) as u64) & 0xFF) as u8
}

/// `word` with the byte in lane `lane` replaced by `byte`.
pub open spec fn with_byte(word: u64, lane: u64, byte: u8) -> u64 {
    (word & !(0xFFu64 << (8 * lane) as u64)) | ((byte as u64) << (8 * lane) as u64)
}

/// Physical memory as the kernel sees it through the direct map.
pub struct DirectMap {
    pub words: HashMap<u64, u64>,
}

impl View for DirectMap {
    type V = Map<u64, u64>;

    /// The word at each word index (a physical address divided by 8).
    open spec fn view(&self) -> Map<u64, u64> {
        Map::total(
            |index: u64| if self.words@.contains_key(index) { self.words@[index] } else { 0u64 },
        )
    }
}

/// Memory with the 512 words of the frame at `base` set to zero.
pub open spec fn zeroed(mem: Map<u64, u64>, base: u64) -> Map<u64, u64> {
    Map::total(
        |index: u64| if base / 8 <= index < base / 8 + PAGE_TABLE_ENTRIES { 0u64 } else { mem[index] },
    )
}

/// The byte at physical address `phys`.
pub open spec fn spec_byte(mem: Map<u64, u64>, phys: u64) -> u8 {
    byte_of(mem[phys / 8], phys % 8)
}

/// Memory with the byte at physical address `phys` replaced.
pub open spec fn spec_store_byte(mem: Map<u64, u64>, phys: u64, byte: u8) -> Map<u64, u64> {
    mem.insert(phys / 8, with_byte(mem[phys / 8], phys % 8, byte))
}

impl DirectMap {
    /// Memory in which every word is zero.
    pub fn new() -> (mem: DirectMap)
        ensures
            forall|index: u64| mem@[index] == 0,
    {
        DirectMap { words: HashMap::new() }
    }

    /// Reads the word that holds physical address `phys`.
    pub fn read_word(&self, phys: u64) -> (word: u64)
        ensures
            word == self@[phys / 8],
    {
        let key = phys / 8;
        match self.words.get(&key) {
            Some(word) => *word,
            None => 0,
        }
    }

    /// Writes the word that holds physical address `phys`.
    pub fn write_word(&mut self, phys: u64, word: u64)
        ensures
            final(self)@ == old(self)@.insert(phys / 8, word),
    {
        self.words.insert(phys / 8, word);
        assert(self@ =~= old(self)@.insert(phys / 8, word));
    }

    /// Reads the byte at physical address `phys`.
    pub fn read_byte(&self, phys: u64) -> (byte: u8)
        ensures
            byte == spec_byte(self@, phys),
    {
        let word = self.read_word(phys);
        let lane = phys % 8;
        ((word >> (8 * lane)) & 0xFF) as u8
    }

    /// Writes the byte at physical address `phys`.
    pub fn write_byte(&mut self, phys: u64, byte: u8)
        ensures
            final(self)@ == spec_store_byte(old(self)@, phys, byte),
    {
        let word = self.read_word(phys);
        let lane = phys % 8;
        let changed = (word & !(0xFFu64 << (8 * lane))) | ((byte as u64) << (8 * lane));
        self.write_word(phys, changed);
    }

    /// Sets the words of the frame at `base` to zero.
    pub fn zero_frame(&mut self, base: u64)
        requires
            base / 8 + PAGE_TABLE_ENTRIES <= u64::MAX,
        ensures
            final(self)@ == zeroed(old(self)@, base),
    {
        let first = base / 8;
        let mut i: u64 = 0;
        while i < PAGE_TABLE_ENTRIES as u64
            invariant
                i <= PAGE_TABLE_ENTRIES,
                first == base / 8,
                first + PAGE_TABLE_ENTRIES <= u64::MAX,
                self@ == Map::<u64, u64>::total(
                    |index: u64| if first <= index < first + i { 0u64 } else { old(self)@[index] },
                ),
            decreases PAGE_TABLE_ENTRIES - i,
        {
            let ghost before = self@;
            self.words.insert(first + i, 0);
            assert(self@ =~= before.insert((first + i) as u64, 0));
            assert(self@ =~= Map::<u64, u64>::total(
                |index: u64| if first <= index < first + i + 1 { 0u64 } else { old(self)@[index] },
            ));
            i += 1;
        }
        assert(self@ =~= zeroed(old(self)@, base));
    }
}

/// The index into the table of the given level that a virtual address
/// selects: nine bits of the address, from bit `shift` up.
pub open spec fn spec_table_index(addr: u64, shift: u64) -> u64 {
    (addr >> shift) & 0x1FF
}

/// The frame that an entry (or a root register) names: its address bits.
pub open spec fn spec_table_base(entry: u64) -> u64 {
    entry & ENTRY_ADDR_MASK
}

/// The word index of entry `index` of the table that `entry` names.
pub open spec fn spec_slot(entry: u64, index: u64) -> u64 {
    (spec_table_base(entry) / 8 + index) as u64
}

/// The address bits of an entry lie on a page boundary below 2^52, and a
/// table index is below 512.
pub proof fn lemma_entry_bits(entry: u64, addr: u64, shift: u64)
    requires
        shift < 64,
    ensures
        spec_table_base(entry) <= ENTRY_ADDR_MASK,
        spec_table_base(entry) % 4096 == 0,
        spec_table_index(addr, shift) < 512,
{
    assert(entry & 0x000F_FFFF_FFFF_F000 <= 0x000F_FFFF_FFFF_F000) by (bit_vector);
    assert((entry & 0x000F_FFFF_FFFF_F000) % 4096 == 0) by (bit_vector);
    assert(shift < 64 ==> (addr >> shift) & 0x1FF < 512) by (bit_vector);
}

fn table_index(addr: u64, shift: u64) -> (index: u64)
    requires
        shift < 64,
    ensures
        index == spec_table_index(addr, shift),
        index < 512,
{
    proof {
        lemma_entry_bits(0, addr, shift);
    }
    (addr >> shift) & 0x1FF
}

/// The index that `addr` selects in the top-level table.
pub fn pml4_index(addr: u64) -> (index: usize)
    ensures
        index == spec_table_index(addr, 39),
        index < PAGE_TABLE_ENTRIES,
{
    table_index(addr, 39) as usize
}

/// The index that `addr` selects in the second-level table.
pub fn pdpt_index(addr: u64) -> (index: usize)
    ensures
        index == spec_table_index(addr, 30),
        index < PAGE_TABLE_ENTRIES,
{
    table_index(addr, 30) as usize
}

/// The index that `addr` selects in the third-level table.
pub fn pd_index(addr: u64) -> (index: usize)
    ensures
        index == spec_table_index(addr, 21),
        index < PAGE_TABLE_ENTRIES,
{
    table_index(addr, 21) as usize
}

/// The index that `addr` selects in the last-level table.
pub fn pt_index(addr: u64) -> (index: usize)
    ensures
        index == spec_table_index(addr, 12),
        index < PAGE_TABLE_ENTRIES,
{
    table_index(addr, 12) as usize
}

/// The physical address of entry `index` of the table that `entry` names.
fn slot_address(entry: u64, index: usize) -> (phys: u64)
    requires
        index < PAGE_TABLE_ENTRIES,
    ensures
        phys / 8 == spec_slot(entry, index as u64),
        phys == spec_table_base(entry) + 8 * index,
{
    proof {
        lemma_entry_bits(entry, 0, 0);
    }
    (entry & ENTRY_ADDR_MASK) + 8 * (index as u64)
}

/// The physical address that `virt` stands for in the address space rooted
/// at `cr3`, or nothing where the walk meets an entry that is not present.
/// A huge-page entry at the second or third level ends the walk early.
pub open spec fn spec_translate(mem: Map<u64, u64>, cr3: u64, virt: u64) -> Option<u64> {
    let pml4e = mem[spec_slot(cr3, spec_table_index(virt, 39))];
    if pml4e & FLAG_PRESENT == 0 {
        None
    } else {
        let pdpte = mem[spec_slot(pml4e, spec_table_index(virt, 30))];
        if pdpte & FLAG_PRESENT == 0 {
            None
        } else if pdpte & FLAG_HUGE != 0 {
            Some((spec_table_base(pdpte) + (virt & 0x3FFF_FFFF)) as u64)
        } else {
            let pde = mem[spec_slot(pdpte, spec_table_index(virt, 21))];
            if pde & FLAG_PRESENT == 0 {
                None
            } else if pde & FLAG_HUGE != 0 {
                Some((spec_table_base(pde) + (virt & 0x1F_FFFF)) as u64)
            } else {
                let pte = mem[spec_slot(pde, spec_table_index(virt, 12))];
                if pte & FLAG_PRESENT == 0 {
                    None
                } else {
                    Some((spec_table_base(pte) + (virt & 0xFFF)) as u64)
                }
            }
        }
    }
}

/// Walks the tables rooted at `cr3` and resolves `virt` to a physical address.
pub fn translate(mem: &DirectMap, pml4_phys: u64, virt_addr: u64) -> (res: Option<u64>)
    ensures
        res == spec_translate(mem@, pml4_phys, virt_addr),
{
    proof {
        assert(virt_addr & 0x3FFF_FFFF <= 0x3FFF_FFFF && virt_addr & 0x1F_FFFF <= 0x1F_FFFF
            && virt_addr & 0xFFF <= 0xFFF) by (bit_vector);
    }
    let pml4e = mem.read_word(slot_address(pml4_phys, pml4_index(virt_addr)));
    if pml4e & FLAG_PRESENT == 0 {
        return None;
    }
    let pdpte = mem.read_word(slot_address(pml4e, pdpt_index(virt_addr)));
    if pdpte & FLAG_PRESENT == 0 {
        return None;
    }
    if pdpte & FLAG_HUGE != 0 {
        proof {
            lemma_entry_bits(pdpte, 0, 0);
        }
        let base = pdpte & ENTRY_ADDR_MASK;
        let offset = virt_addr & 0x3FFF_FFFF;
        return Some(base + offset);
    }
    let pde = mem.read_word(slot_address(pdpte, pd_index(virt_addr)));
    if pde & FLAG_PRESENT == 0 {
        return None;
    }
    if pde & FLAG_HUGE != 0 {
        proof {
            lemma_entry_bits(pde, 0, 0);
        }
        let base = pde & ENTRY_ADDR_MASK;
        let offset = virt_addr & 0x1F_FFFF;
        return Some(base + offset);
    }
    let pte = mem.read_word(slot_address(pde, pt_index(virt_addr)));
    if pte & FLAG_PRESENT == 0 {
        return None;
    }
    proof {
        lemma_entry_bits(pte, 0, 0);
    }
    let base = pte & ENTRY_ADDR_MASK;
    let offset = virt_addr & 0xFFF;
    Some(base + offset)
}

/// Memory after the last-level entry of `virt` was cleared. Nothing changes
/// for an address off a page boundary, or where the walk meets an entry that
/// is not present or a huge page.
pub open spec fn spec_unmap(mem: Map<u64, u64>, cr3: u64, virt: u64) -> Map<u64, u64> {
    let pml4e = mem[spec_slot(cr3, spec_table_index(virt, 39))];
    let pdpte = mem[spec_slot(pml4e, spec_table_index(virt, 30))];
    let pde = mem[spec_slot(pdpte, spec_table_index(virt, 21))];
    if virt & 0xFFF != 0 || pml4e & FLAG_PRESENT == 0 || pdpte & FLAG_PRESENT == 0 || pdpte
        & FLAG_HUGE != 0 || pde & FLAG_PRESENT == 0 || pde & FLAG_HUGE != 0 {
        mem
    } else {
        mem.insert(spec_slot(pde, spec_table_index(virt, 12)), 0)
    }
}

/// A page that was unmapped is no longer mapped: where the walk of the page
/// at `virt` reaches a last-level entry, no walk of it does afterwards.
/// Otherwise, past an entry that is not present or a huge page, nothing
/// changes.
pub proof fn lemma_unmap_takes_away(mem: Map<u64, u64>, cr3: u64, virt: u64)
    requires
        virt & 0xFFF == 0,
    ensures
        ({
            let pml4e = mem[spec_slot(cr3, spec_table_index(virt, 39))];
            let pdpte = mem[spec_slot(pml4e, spec_table_index(virt, 30))];
            let pde = mem[spec_slot(pdpte, spec_table_index(virt, 21))];
            if pml4e & FLAG_PRESENT != 0 && pdpte & FLAG_PRESENT != 0 && pdpte & FLAG_HUGE == 0 && pde
                & FLAG_PRESENT != 0 && pde & FLAG_HUGE == 0 {
                spec_translate(spec_unmap(mem, cr3, virt), cr3, virt) is None
            } else {
                spec_unmap(mem, cr3, virt) == mem
            }
        }),
{
    assert(0u64 & (1u64 << 0) == 0) by (bit_vector);
    assert(0u64 & FLAG_PRESENT == 0);
    let slot4 = spec_slot(cr3, spec_table_index(virt, 39));
    let pml4e = mem[slot4];
    let slot3 = spec_slot(pml4e, spec_table_index(virt, 30));
    let pdpte = mem[slot3];
    let slot2 = spec_slot(pdpte, spec_table_index(virt, 21));
    let pde = mem[slot2];
    let slot1 = spec_slot(pde, spec_table_index(virt, 12));
    if pml4e & FLAG_PRESENT != 0 && pdpte & FLAG_PRESENT != 0 && pdpte & FLAG_HUGE == 0 && pde
        & FLAG_PRESENT != 0 && pde & FLAG_HUGE == 0 {
        let after = mem.insert(slot1, 0);
        assert(spec_unmap(mem, cr3, virt) == after);
        if slot1 == slot4 {
            assert(after[slot4] == 0);
        } else if slot1 == slot3 {
            assert(after[slot4] == pml4e);
            assert(after[slot3] == 0);
        } else if slot1 == slot2 {
            assert(after[slot4] == pml4e);
            assert(after[slot3] == pdpte);
            assert(after[slot2] == 0);
        } else {
            assert(after[slot4] == pml4e);
            assert(after[slot3] == pdpte);
            assert(after[slot2] == pde);
            assert(after[slot1] == 0);
        }
    }
}

/// Removes the mapping of the page at `virt_addr` from the address space
/// rooted at `pml4_phys`.
pub fn unmap_page(mem: &mut DirectMap, pml4_phys: u64, virt_addr: u64)
    ensures
        final(mem)@ == spec_unmap(old(mem)@, pml4_phys, virt_addr),
{
    if virt_addr & 0xFFF != 0 {
        return ;
    }
    let pml4e = mem.read_word(slot_address(pml4_phys, pml4_index(virt_addr)));
    if pml4e & FLAG_PRESENT == 0 {
        return ;
    }
    let pdpte = mem.read_word(slot_address(pml4e, pdpt_index(virt_addr)));
    if pdpte & FLAG_PRESENT == 0 || pdpte & FLAG_HUGE != 0 {
        return ;
    }
    let pde = mem.read_word(slot_address(pdpte, pd_index(virt_addr)));
    if pde & FLAG_PRESENT == 0 || pde & FLAG_HUGE != 0 {
        return ;
    }
    mem.write_word(slot_address(pde, pt_index(virt_addr)), 0);
}

/// Memory and the frame allocator, as the mapping functions change them.
pub struct PagingState {
    pub mem: Map<u64, u64>,
    pub alloc: FrameAllocator,
}

/// The state after a fresh table was asked for, and the table's frame: the
/// next frame of the allocator, zeroed.
pub open spec fn spec_allocate_table(
    state: PagingState,
    map: Seq<MemoryRegion>,
    limit: u64,
) -> (PagingState, Result<u64, MapError>) {
    let (alloc, frame) = state.alloc.spec_allocate(map, limit);
    match frame {
        None => (PagingState { mem: state.mem, alloc }, Err(MapError::OutOfMemory)),
        Some(f) => (PagingState { mem: zeroed(state.mem, f.start), alloc }, Ok(f.start)),
    }
}

/// The flags of an entry that points to a table.
pub open spec fn spec_table_flags(user: bool) -> u64 {
    if user {
        FLAG_PRESENT | FLAG_WRITABLE | FLAG_USER
    } else {
        FLAG_PRESENT | FLAG_WRITABLE
    }
}

/// The state after the table behind the entry at word index `slot` was made
/// sure of, and the entry that names that table. An entry that is present is
/// followed as it is. Otherwise a fresh table is allocated and the entry is
/// made to point to it.
pub open spec fn spec_ensure_table(
    state: PagingState,
    map: Seq<MemoryRegion>,
    limit: u64,
    slot: u64,
    user: bool,
) -> (PagingState, Result<u64, MapError>) {
    let entry = state.mem[slot];
    if entry & FLAG_PRESENT != 0 {
        (state, Ok(entry))
    } else {
        let (fresh, table) = spec_allocate_table(state, map, limit);
        match table {
            Err(e) => (fresh, Err(e)),
            Ok(base) => {
                let made = base | spec_table_flags(user);
                (PagingState { mem: fresh.mem.insert(slot, made), alloc: fresh.alloc }, Ok(made))
            },
        }
    }
}

/// The state after the page at `virt` was mapped to the frame at `phys`
/// with `flags`, and whether it was.
///
/// Addresses off a page boundary are refused as `AlreadyMapped`. The walk
/// creates the tables that are missing on its way; they stay where a later
/// step fails. A huge page on the way, or a last-level entry that is present,
/// is `AlreadyMapped`; a table that cannot be allocated is `OutOfMemory`.
pub open spec fn spec_map_page(
    state: PagingState,
    map: Seq<MemoryRegion>,
    limit: u64,
    cr3: u64,
    virt: u64,
    phys: u64,
    flags: u64,
) -> (PagingState, Result<(), MapError>) {
    let user = flags & FLAG_USER != 0;
    if virt & 0xFFF != 0 || phys & 0xFFF != 0 {
        (state, Err(MapError::AlreadyMapped))
    } else {
        let (s1, pml4e) = spec_ensure_table(
            state,
            map,
            limit,
            spec_slot(cr3, spec_table_index(virt, 39)),
            user,
        );
        match pml4e {
            Err(e) => (s1, Err(e)),
            Ok(pml4e) => {
                let (s2, pdpte) = spec_ensure_table(
                    s1,
                    map,
                    limit,
                    spec_slot(pml4e, spec_table_index(virt, 30)),
                    user,
                );
                match pdpte {
                    Err(e) => (s2, Err(e)),
                    Ok(pdpte) => if s2.mem[spec_slot(pml4e, spec_table_index(virt, 30))]
                        & FLAG_HUGE != 0 {
                        (s2, Err(MapError::AlreadyMapped))
                    } else {
                        let (s3, pde) = spec_ensure_table(
                            s2,
                            map,
                            limit,
                            spec_slot(pdpte, spec_table_index(virt, 21)),
                            user,
                        );
                        match pde {
                            Err(e) => (s3, Err(e)),
                            Ok(pde) => if s3.mem[spec_slot(pdpte, spec_table_index(virt, 21))]
                                & FLAG_HUGE != 0 {
                                (s3, Err(MapError::AlreadyMapped))
                            } else {
                                let leaf = spec_slot(pde, spec_table_index(virt, 12));
                                if s3.mem[leaf] & FLAG_PRESENT != 0 {
                                    (s3, Err(MapError::AlreadyMapped))
                                } else {
                                    (
                                        PagingState {
                                            mem: s3.mem.insert(leaf, phys | (flags | FLAG_PRESENT)),
                                            alloc: s3.alloc,
                                        },
                                        Ok(()),
                                    )
                                }
                            },
                        }
                    },
                }
            },
        }
    }
}

/// The state of memory and allocator as one value.
pub open spec fn paging_state(mem: &DirectMap, pm: &PhysicalMemory) -> PagingState {
    PagingState { mem: mem@, alloc: pm.allocator }
}

/// Takes a frame for a page table and zeroes it.
pub fn allocate_table(mem: &mut DirectMap, pm: &mut PhysicalMemory) -> (res: Result<u64, MapError>)
    requires
        old(pm).wf(),
    ensures
        final(pm).wf(),
        final(pm).map == old(pm).map,
        final(pm).reserved_limit == old(pm).reserved_limit,
        (paging_state(final(mem), final(pm)), res) == spec_allocate_table(
            paging_state(old(mem), old(pm)),
            old(pm).map@,
            old(pm).reserved_limit,
        ),
        res matches Ok(base) ==> base % 4096 == 0 && base >= old(pm).reserved_limit && base != 0,
{
    let frame = match allocate_frame(pm) {
        Some(frame) => frame,
        None => { return Err(MapError::OutOfMemory); },
    };
    let phys = frame.start();
    mem.zero_frame(phys);
    Ok(phys)
}

/// Follows the entry at physical address `entry_phys` to its table, making
/// the table first where the entry is not present. Returns the entry.
pub fn ensure_table(mem: &mut DirectMap, pm: &mut PhysicalMemory, entry_phys: u64, user: bool) -> (res:
    Result<u64, MapError>)
    requires
        old(pm).wf(),
    ensures
        final(pm).wf(),
        final(pm).map == old(pm).map,
        final(pm).reserved_limit == old(pm).reserved_limit,
        (paging_state(final(mem), final(pm)), res) == spec_ensure_table(
            paging_state(old(mem), old(pm)),
            old(pm).map@,
            old(pm).reserved_limit,
            entry_phys / 8,
            user,
        ),
{
    let entry = mem.read_word(entry_phys);
    if entry & FLAG_PRESENT == 0 {
        let phys = match allocate_table(mem, pm) {
            Ok(phys) => phys,
            Err(e) => { return Err(e); },
        };
        let mut flags = FLAG_PRESENT | FLAG_WRITABLE;
        if user {
            flags |= FLAG_USER;
        }
        let made = phys | flags;
        mem.write_word(entry_phys, made);
        Ok(made)
    } else {
        Ok(entry)
    }
}

/// Maps the page at `virt_addr` to the frame at `frame_phys` in the address
/// space rooted at `pml4_phys`.
pub fn map_page(
    mem: &mut DirectMap,
    pm: &mut PhysicalMemory,
    pml4_phys: u64,
    virt_addr: u64,
    frame_phys: u64,
    flags: u64,
) -> (res: Result<(), MapError>)
    requires
        old(pm).wf(),
    ensures
        final(pm).wf(),
        final(pm).map == old(pm).map,
        final(pm).reserved_limit == old(pm).reserved_limit,
        (paging_state(final(mem), final(pm)), res) == spec_map_page(
            paging_state(old(mem), old(pm)),
            old(pm).map@,
            old(pm).reserved_limit,
            pml4_phys,
            virt_addr,
            frame_phys,
            flags,
        ),
{
    if virt_addr & 0xFFF != 0 || frame_phys & 0xFFF != 0 {
        return Err(MapError::AlreadyMapped);
    }
    let user = flags & FLAG_USER != 0;
    let pml4e_phys = slot_address(pml4_phys, pml4_index(virt_addr));
    let pml4e = match ensure_table(mem, pm, pml4e_phys, user) {
        Ok(entry) => entry,
        Err(e) => { return Err(e); },
    };
    let pdpte_phys = slot_address(pml4e, pdpt_index(virt_addr));
    let pdpte = match ensure_table(mem, pm, pdpte_phys, user) {
        Ok(entry) => entry,
        Err(e) => { return Err(e); },
    };
    if mem.read_word(pdpte_phys) & FLAG_HUGE != 0 {
        return Err(MapError::AlreadyMapped);
    }
    let pde_phys = slot_address(pdpte, pd_index(virt_addr));
    let pde = match ensure_table(mem, pm, pde_phys, user) {
        Ok(entry) => entry,
        Err(e) => { return Err(e); },
    };
    if mem.read_word(pde_phys) & FLAG_HUGE != 0 {
        return Err(MapError::AlreadyMapped);
    }
    let pte_phys = slot_address(pde, pt_index(virt_addr));
    if mem.read_word(pte_phys) & FLAG_PRESENT != 0 {
        return Err(MapError::AlreadyMapped);
    }
    mem.write_word(pte_phys, frame_phys | (flags | FLAG_PRESENT));
    Ok(())
}

/// Memory after the upper half of the root table at `kernel` was copied into
/// the root table at `fresh`.
pub open spec fn spec_copy_upper_half(mem: Map<u64, u64>, kernel: u64, fresh: u64) -> Map<u64, u64> {
    Map::total(
        |index: u64|
            if spec_slot(fresh, 256) <= index < spec_slot(fresh, 0) + PAGE_TABLE_ENTRIES {
                mem[(spec_slot(kernel, 0) + (index - spec_slot(fresh, 0))) as u64]
            } else {
                mem[index]
            },
    )
}

/// Makes the root table of a new address space: a fresh, zeroed table whose
/// entries 256 to 511 are those of the kernel's root table at `kernel_cr3`,
/// so that the kernel stays mapped. Returns the new root's physical address.
pub fn clone_kernel_pml4(mem: &mut DirectMap, pm: &mut PhysicalMemory, kernel_cr3: u64) -> (res:
    Result<u64, MapError>)
    requires
        old(pm).wf(),
    ensures
        final(pm).wf(),
        final(pm).map == old(pm).map,
        final(pm).reserved_limit == old(pm).reserved_limit,
        ({
            let (fresh, table) = spec_allocate_table(
                paging_state(old(mem), old(pm)),
                old(pm).map@,
                old(pm).reserved_limit,
            );
            &&& final(pm).allocator == fresh.alloc
            &&& match table {
                Err(e) => res == Err::<u64, MapError>(e) && final(mem)@ == fresh.mem,
                Ok(base) => res == Ok::<u64, MapError>(base) && final(mem)@
                    == spec_copy_upper_half(fresh.mem, kernel_cr3, base),
            }
        }),
        res matches Ok(base) ==> base % 4096 == 0 && base != 0,
{
    let new_phys = match allocate_table(mem, pm) {
        Ok(phys) => phys,
        Err(e) => { return Err(e); },
    };
    let ghost start = mem@;
    proof {
        lemma_entry_bits(new_phys, 0, 0);
        lemma_entry_bits(kernel_cr3, 0, 0);
    }
    let mut i: usize = 256;
    while i < PAGE_TABLE_ENTRIES
        invariant
            256 <= i <= PAGE_TABLE_ENTRIES,
            spec_slot(kernel_cr3, 0) % 512 == 0,
            spec_slot(new_phys, 0) % 512 == 0,
            spec_slot(new_phys, 0) + 512 < u64::MAX,
            spec_slot(kernel_cr3, 0) + 512 < u64::MAX,
            mem@ == Map::<u64, u64>::total(
                |index: u64|
                    if spec_slot(new_phys, 256) <= index < spec_slot(new_phys, 0) + i {
                        start[(spec_slot(kernel_cr3, 0) + (index - spec_slot(new_phys, 0))) as u64]
                    } else {
                        start[index]
                    },
            ),
        decreases PAGE_TABLE_ENTRIES - i,
    {
        let ghost before = mem@;
        let ghost from = spec_slot(kernel_cr3, 0);
        let ghost to = spec_slot(new_phys, 0);
        assert(from == to || from + 512 <= to || to + 512 <= from);
        let entry = mem.read_word(slot_address(kernel_cr3, i));
        mem.write_word(slot_address(new_phys, i), entry);
        i += 1;
        assert(mem@ =~= Map::<u64, u64>::total(
            |index: u64|
                if spec_slot(new_phys, 256) <= index < spec_slot(new_phys, 0) + i {
                    start[(spec_slot(kernel_cr3, 0) + (index - spec_slot(new_phys, 0))) as u64]
                } else {
                    start[index]
                },
        ));
    }
    assert(mem@ =~= spec_copy_upper_half(start, kernel_cr3, new_phys));
    Ok(new_phys)
}

} // verus!
