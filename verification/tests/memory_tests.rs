use ares::harness::{command_line_filter, extract_filter, parse_cmdline, run, should_run};
use ares::mem::heap::{self, Layout, LinkedListAllocator, ListNode};
use ares::mem::paging::{
    align_down, align_up, is_aligned, is_valid_alignment, pages_required, Error,
};
use ares::mem::phys::{
    self, allocate_frame, allocate_frames, for_each_region, free_frame, reserved_limit, summary,
    Frame, FrameAllocator, KernelImage, MemoryMap, MemoryRegion,
};

const KERNEL_BASE: u64 = 0xFFFF_8000_0000_0000;

fn push_u32(bytes: &mut Vec<u8>, value: u32) {
    bytes.extend_from_slice(&value.to_le_bytes());
}

fn push_u64(bytes: &mut Vec<u8>, value: u64) {
    bytes.extend_from_slice(&value.to_le_bytes());
}

/// A block of boot information with an optional command line and a memory map.
fn boot_info(cmdline: Option<&[u8]>, entries: &[(u64, u64, u32)]) -> Vec<u8> {
    let mut info: Vec<u8> = Vec::new();
    push_u32(&mut info, 0);
    push_u32(&mut info, 0);
    if let Some(text) = cmdline {
        push_u32(&mut info, 1);
        push_u32(&mut info, 8 + text.len() as u32 + 1);
        info.extend_from_slice(text);
        info.push(0);
        while info.len() % 8 != 0 {
            info.push(0);
        }
    }
    push_u32(&mut info, 6);
    push_u32(&mut info, 16 + 24 * entries.len() as u32);
    push_u32(&mut info, 24);
    push_u32(&mut info, 0);
    for &(base, length, kind) in entries {
        push_u64(&mut info, base);
        push_u64(&mut info, length);
        push_u32(&mut info, kind);
        push_u32(&mut info, 0);
    }
    while info.len() % 8 != 0 {
        info.push(0);
    }
    push_u32(&mut info, 0);
    push_u32(&mut info, 8);
    let total = info.len() as u32;
    info[0..4].copy_from_slice(&total.to_le_bytes());
    info
}

#[test]
fn alignment_helpers_give_exact_values() {
    assert_eq!(align_up(0x1001, 0x1000), Ok(0x2000));
    assert_eq!(align_up(0x1000, 0x1000), Ok(0x1000));
    assert_eq!(align_up(0, 8), Ok(0));
    assert_eq!(align_down(0x1FFF, 0x1000), Ok(0x1000));
    assert_eq!(align_down(0x2000, 0x1000), Ok(0x2000));
    assert_eq!(align_up(5, 3), Err(Error::InvalidAlignment));
    assert_eq!(align_down(5, 0), Err(Error::InvalidAlignment));
    assert!(is_valid_alignment(1));
    assert!(is_valid_alignment(4096));
    assert!(!is_valid_alignment(0));
    assert!(!is_valid_alignment(12));
    assert!(is_aligned(0x3000, 0x1000));
    assert!(!is_aligned(0x3001, 0x1000));
}

#[test]
fn pages_required_rounds_up() {
    assert_eq!(pages_required(0, 4096), 0);
    assert_eq!(pages_required(1, 4096), 1);
    assert_eq!(pages_required(4096, 4096), 1);
    assert_eq!(pages_required(4097, 4096), 2);
    assert_eq!(pages_required(u64::MAX, 4096), 0x0010_0000_0000_0000);
}

#[test]
fn frame_of_an_address() {
    let frame = Frame::containing(0x12_3456);
    assert_eq!(frame.start(), 0x12_3000);
    assert_eq!(frame.end(), 0x12_4000);
    assert_eq!(frame.number(), 0x123);
    assert_eq!(frame.as_ptr(), 0x12_3000);
    assert_eq!(phys::frame_size(), 4096);
}

#[test]
fn reserved_limit_is_the_highest_end_rounded_up() {
    let image = KernelImage {
        load_start: KERNEL_BASE + 0x10_0000,
        bss_end: KERNEL_BASE + 0x12_3456,
        heap_start: KERNEL_BASE + 0x20_0000,
        heap_end: KERNEL_BASE + 0x30_0001,
    };
    assert_eq!(reserved_limit(&image), 0x30_1000);
    let low = KernelImage { load_start: 0, bss_end: 0x8000, heap_start: 0x9000, heap_end: 0xA000 };
    assert_eq!(reserved_limit(&low), 0x10_0000);
    let kernel_high = KernelImage {
        load_start: 0x10_0000,
        bss_end: 0x40_0000,
        heap_start: 0x20_0000,
        heap_end: 0x30_0000,
    };
    assert_eq!(reserved_limit(&kernel_high), 0x40_0000);
}

#[test]
fn memory_map_is_read_from_boot_information() {
    let info = boot_info(
        None,
        &[(0, 0x9_F000, 1), (0xF_0000, 0x1_0000, 2), (0x10_0000, 0x7F0_0000, 1), (0x1_0000_0000, 0, 1)],
    );
    let map = phys::parse(&info);
    assert_eq!(
        map.regions,
        vec![
            MemoryRegion { base: 0, length: 0x9_F000 },
            MemoryRegion { base: 0x10_0000, length: 0x7F0_0000 },
        ]
    );
    let pm = phys::init(&info, 0x20_0000);
    assert_eq!(for_each_region(&pm), map.regions);
    let s = summary(&pm);
    assert_eq!(s.region_count, 2);
    assert_eq!(s.total_bytes, 0x9_F000 + 0x7F0_0000);
    assert_eq!(pm.reserved_limit, 0x20_0000);
}

#[test]
fn short_boot_information_gives_an_empty_map() {
    assert!(phys::parse(&[]).regions.is_empty());
    assert!(phys::parse(&[16, 0, 0, 0]).regions.is_empty());
    let mut pm = phys::init(&[], 0x10_0000);
    assert_eq!(allocate_frame(&mut pm), None);
    assert!(allocate_frames(&mut pm, 3).is_none());
}

#[test]
fn memory_map_keeps_at_most_128_regions() {
    let mut map = MemoryMap::new();
    for i in 0..128u64 {
        assert!(map.add_region(MemoryRegion { base: i * 0x1000, length: 0x1000 }));
    }
    assert!(!map.add_region(MemoryRegion { base: 0x100_0000, length: 0x1000 }));
    assert_eq!(map.regions.len(), 128);
    map.clear();
    assert!(map.regions.is_empty());
}

#[test]
fn frames_are_aligned_above_the_floor_and_never_repeat() {
    let info = boot_info(
        None,
        &[(0, 0x9_F000, 1), (0x10_0000, 0x30_0000, 1), (0x80_0000, 0x3800, 1)],
    );
    let limit = 0x20_0000;
    let mut pm = phys::init(&info, limit);
    let mut seen: Vec<u64> = Vec::new();
    while let Some(frame) = allocate_frame(&mut pm) {
        assert_eq!(frame.start % 4096, 0);
        assert!(frame.start >= limit);
        assert_ne!(frame.start, 0);
        assert!(!seen.contains(&frame.start));
        seen.push(frame.start);
        free_frame(&mut pm, frame);
    }
    // 0x200000..0x400000 gives 512 frames, 0x800000..0x803800 gives 4.
    assert_eq!(seen.len(), 512 + 4);
    assert_eq!(seen[0], 0x20_0000);
    assert_eq!(seen[511], 0x3F_F000);
    assert_eq!(seen[512], 0x80_0000);
    assert_eq!(seen[515], 0x80_3000);
    assert_eq!(allocate_frame(&mut pm), None);
}

#[test]
fn frame_zero_is_skipped() {
    let mut map = MemoryMap::new();
    assert!(map.add_region(MemoryRegion { base: 0, length: 0x3000 }));
    let mut alloc = FrameAllocator::new();
    alloc.init_from_map(&map, 0);
    assert_eq!(alloc.allocate(&map, 0), Some(Frame { start: 0x1000 }));
    assert_eq!(alloc.allocate(&map, 0), Some(Frame { start: 0x2000 }));
    assert_eq!(alloc.allocate(&map, 0), None);
    assert_eq!(alloc.allocate(&map, 0), None);
}

#[test]
fn unaligned_region_starts_at_its_first_page_boundary() {
    let mut map = MemoryMap::new();
    assert!(map.add_region(MemoryRegion { base: 0x10_0800, length: 0x2000 }));
    assert!(map.add_region(MemoryRegion { base: u64::MAX - 0x10, length: 0x1000 }));
    let mut alloc = FrameAllocator::new();
    alloc.init_from_map(&map, 0x1000);
    assert_eq!(alloc.allocate(&map, 0x1000), Some(Frame { start: 0x10_1000 }));
    assert_eq!(alloc.allocate(&map, 0x1000), Some(Frame { start: 0x10_2000 }));
    assert_eq!(alloc.allocate(&map, 0x1000), None);
}

#[test]
fn adjacent_frames_come_as_a_run() {
    let info = boot_info(None, &[(0x10_0000, 0x3000, 1), (0x40_0000, 0x4000, 1)]);
    let mut pm = phys::init(&info, 0x10_0000);
    assert!(allocate_frames(&mut pm, 0).is_none());
    let run_of_two = allocate_frames(&mut pm, 2).unwrap();
    assert_eq!(run_of_two.start(), Frame { start: 0x10_0000 });
    assert_eq!(run_of_two.count(), 2);
    let mut it = run_of_two.iter();
    assert_eq!(it.next(), Some(Frame { start: 0x10_0000 }));
    assert_eq!(it.next(), Some(Frame { start: 0x10_1000 }));
    assert_eq!(it.next(), None);
    // The next run starts with the last frame of the first region and
    // stops where the second region begins.
    let broken = allocate_frames(&mut pm, 3).unwrap();
    assert_eq!(broken.start(), Frame { start: 0x10_2000 });
    assert_eq!(broken.count(), 1);
}

#[test]
fn free_regions_stay_sorted_and_coalesced() {
    let mut kernel_heap = heap::init(0x10_0000, 4096);
    let layout = Layout::from_size_align(64, 8).unwrap();
    let a = heap::allocate(&mut kernel_heap, layout).unwrap();
    let b = heap::allocate(&mut kernel_heap, layout).unwrap();
    let c = heap::allocate(&mut kernel_heap, layout).unwrap();
    let d = heap::allocate(&mut kernel_heap, layout).unwrap();
    assert_eq!((a, b, c, d), (0x10_0000, 0x10_0040, 0x10_0080, 0x10_00C0));
    assert_eq!(heap::remaining_bytes(&kernel_heap), 4096 - 256);

    assert!(heap::deallocate(&mut kernel_heap, b, layout));
    assert_eq!(
        kernel_heap.list.regions,
        vec![ListNode { addr: 0x10_0040, size: 64 }, ListNode { addr: 0x10_0100, size: 4096 - 256 }]
    );
    assert!(heap::deallocate(&mut kernel_heap, d, layout));
    assert_eq!(
        kernel_heap.list.regions,
        vec![ListNode { addr: 0x10_0040, size: 64 }, ListNode { addr: 0x10_00C0, size: 4096 - 192 }]
    );
    assert!(heap::deallocate(&mut kernel_heap, c, layout));
    assert_eq!(kernel_heap.list.regions, vec![ListNode { addr: 0x10_0040, size: 4096 - 64 }]);
    assert!(heap::deallocate(&mut kernel_heap, a, layout));
    assert_eq!(kernel_heap.list.regions, vec![ListNode { addr: 0x10_0000, size: 4096 }]);
    for pair in kernel_heap.list.regions.windows(2) {
        assert!(pair[0].addr + pair[0].size < pair[1].addr);
    }
}

#[test]
fn heap_refuses_what_it_cannot_serve() {
    let mut kernel_heap = heap::init(0x10_0000, 256);
    let big = Layout::from_size_align(512, 8).unwrap();
    assert_eq!(heap::allocate(&mut kernel_heap, big), None);
    let report = heap::handle_alloc_error(&kernel_heap, big);
    assert_eq!(report.size, 512);
    assert_eq!(report.align, 8);
    assert_eq!(report.remaining, 256);
    let all = Layout::from_size_align(256, 8).unwrap();
    assert_eq!(heap::allocate(&mut kernel_heap, all), Some(0x10_0000));
    assert_eq!(heap::remaining_bytes(&kernel_heap), 0);
    assert_eq!(heap::allocate(&mut kernel_heap, Layout::from_size_align(1, 1).unwrap()), None);
    assert!(heap::deallocate(&mut kernel_heap, 0x10_0000, all));
    // Giving the same block back twice is refused.
    assert!(!heap::deallocate(&mut kernel_heap, 0x10_0000, all));
    assert_eq!(heap::remaining_bytes(&kernel_heap), 256);
}

#[test]
fn small_requests_take_a_whole_node() {
    let mut list = LinkedListAllocator::new();
    list.init(0x1000, 0x100);
    assert_eq!(LinkedListAllocator::min_region_size(), 16);
    assert_eq!(list.allocate(1, 1), Some(0x1000));
    assert_eq!(list.remaining(), 0x100 - 16);
    assert_eq!(list.allocate(8, 64), Some(0x1040));
    assert_eq!(
        list.regions,
        vec![ListNode { addr: 0x1010, size: 0x30 }, ListNode { addr: 0x1050, size: 0xB0 }]
    );
    assert!(Layout::from_size_align(8, 3).is_none());
    assert!(Layout::from_size_align(8, 0).is_none());
}

#[test]
fn heap_box_gives_its_block_back() {
    let mut kernel_heap = heap::init(0x20_0000, 1024);
    let layout = Layout::from_size_align(64, 8).unwrap();
    let boxed = heap::HeapBox::new(&mut kernel_heap, layout, [7u64; 8]).unwrap();
    assert_eq!(boxed.get()[3], 7);
    assert_eq!(heap::remaining_bytes(&kernel_heap), 1024 - 64);
    let value = boxed.release(&mut kernel_heap);
    assert_eq!(value, [7u64; 8]);
    assert_eq!(heap::remaining_bytes(&kernel_heap), 1024);
}

#[test]
fn command_line_filter_is_found() {
    let info = boot_info(Some(b"quiet test=vfs console=ttyS0"), &[(0x10_0000, 0x1000, 1)]);
    assert_eq!(parse_cmdline(&info), Some(b"quiet test=vfs console=ttyS0".to_vec()));
    assert_eq!(command_line_filter(&info), Some(b"vfs".to_vec()));
    assert_eq!(phys::parse(&info).regions, vec![MemoryRegion { base: 0x10_0000, length: 0x1000 }]);
    let none = boot_info(None, &[]);
    assert_eq!(parse_cmdline(&none), None);
    assert_eq!(command_line_filter(&none), None);
    let bad = boot_info(Some(&[0xFF, 0xFE]), &[]);
    assert_eq!(parse_cmdline(&bad), None);
}

#[test]
fn filter_is_the_first_word_that_names_one() {
    assert_eq!(extract_filter(b"test=fat"), Some(b"fat".to_vec()));
    assert_eq!(extract_filter(b"  a=b\ttest= test=mem\ntest=later"), Some(b"mem".to_vec()));
    assert_eq!(extract_filter(b"xtest=fat"), None);
    assert_eq!(extract_filter(b"test="), None);
    assert_eq!(extract_filter(b""), None);
    assert_eq!(extract_filter(b"   "), None);
}

#[test]
fn filter_selects_cases_by_prefix() {
    assert!(should_run("vfs::roundtrip", &None));
    assert!(should_run("vfs::roundtrip", &Some(b"vfs".to_vec())));
    assert!(should_run("vfs", &Some(b"vfs".to_vec())));
    assert!(!should_run("vf", &Some(b"vfs".to_vec())));
    assert!(!should_run("fat::read", &Some(b"vfs".to_vec())));
}

#[test]
fn run_ends_with_the_number_of_failures() {
    let ok = run(&[true, true, true]);
    assert_eq!((ok.executed, ok.failures, ok.exit.port, ok.exit.value), (3, 0, 0xF4, 0));
    let two = run(&[false, true, false]);
    assert_eq!((two.executed, two.failures, two.exit.value), (3, 2, 2));
    let many = run(&vec![false; 256]);
    assert_eq!((many.failures, many.exit.value), (256, 1));
    let none = run(&[]);
    assert_eq!((none.executed, none.failures, none.exit.value), (0, 0, 0));
}

#[test]
fn blocks_change_their_size() {
    let mut kernel_heap = heap::init(0x10_0000, 1024);
    // Without an old block the request is an allocation.
    let first = heap::reallocate(&mut kernel_heap, 0, 0, 8, 64);
    assert_eq!(first, heap::Reallocation { addr: Some(0x10_0000), copy: 0 });
    // A larger block lies elsewhere; the old bytes are to be copied.
    let grown = heap::reallocate(&mut kernel_heap, 0x10_0000, 64, 8, 128);
    assert_eq!(grown, heap::Reallocation { addr: Some(0x10_0040), copy: 64 });
    assert_eq!(heap::remaining_bytes(&kernel_heap), 1024 - 128);
    let shrunk = heap::reallocate(&mut kernel_heap, 0x10_0040, 128, 8, 32);
    assert_eq!(shrunk, heap::Reallocation { addr: Some(0x10_0000), copy: 32 });
    assert_eq!(heap::remaining_bytes(&kernel_heap), 1024 - 32);
    // No room: the old block stays.
    let refused = heap::reallocate(&mut kernel_heap, 0x10_0000, 32, 8, 4096);
    assert_eq!(refused, heap::Reallocation { addr: None, copy: 0 });
    assert_eq!(heap::remaining_bytes(&kernel_heap), 1024 - 32);
    // An alignment that is no power of two.
    assert_eq!(heap::reallocate(&mut kernel_heap, 0x10_0000, 32, 3, 64).addr, None);
    assert_eq!(heap::remaining_bytes(&kernel_heap), 1024 - 32);
    // A new size of zero gives the block up.
    let gone = heap::reallocate(&mut kernel_heap, 0x10_0000, 32, 8, 0);
    assert_eq!(gone, heap::Reallocation { addr: None, copy: 0 });
    assert_eq!(heap::remaining_bytes(&kernel_heap), 1024);
    assert_eq!(kernel_heap.list.regions, vec![ListNode { addr: 0x10_0000, size: 1024 }]);
}
