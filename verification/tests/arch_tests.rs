use ares::arch::ata::{self, AtaPrimaryMaster, Poll};
use ares::arch::console::{self, VgaText};
use ares::arch::gdt::{self, TaskStateSegment};
use ares::arch::interrupts::{
    self, ata_primary_irq, default_handler, disable_irq, disable_vector, dispatch, enable_irq,
    enable_vector, general_protection_handler, invalid_opcode_handler, page_fault_handler,
    register_handler, send_eoi, setup_idt, HandlerKind, IdtEntry, InterruptFrame, Pic,
};
use ares::arch::io::{outb, PortWrite};
use ares::arch::keyboard::{self, keyboard_handler, map_letter, map_symbol, KeyboardState};
use ares::arch::mmu::{phys_to_virt, virt_to_phys};
use ares::arch::paging::{
    clone_kernel_pml4, map_page, pd_index, pdpt_index, pml4_index, pt_index, translate,
    unmap_page, DirectMap, MapError, FLAG_PRESENT, FLAG_USER, FLAG_WRITABLE,
};
use ares::arch::{pit, qemu, serial};
use ares::drivers::DriverError;
use ares::mem::phys::{FrameAllocator, MemoryMap, MemoryRegion, PhysicalMemory};

fn w(port: u16, value: u8) -> PortWrite {
    PortWrite { port, value }
}

fn frame_at(int_no: u64, err_code: u64, rip: u64) -> InterruptFrame {
    InterruptFrame {
        ds: 0x10,
        r15: 15,
        r14: 14,
        r13: 13,
        r12: 12,
        r11: 11,
        r10: 10,
        r9: 9,
        r8: 8,
        rdi: 7,
        rsi: 6,
        rbp: 5,
        rsp: 0x9000,
        rbx: 3,
        rdx: 2,
        rcx: 1,
        rax: 0,
        int_no,
        err_code,
        rip,
        cs: 0x08,
        rflags: 0x202,
        user_rsp: 0x7000,
        user_ss: 0x10,
    }
}

fn memory(base: u64, length: u64) -> PhysicalMemory {
    let mut map = MemoryMap::new();
    assert!(map.add_region(MemoryRegion { base, length }));
    let mut allocator = FrameAllocator::new();
    allocator.init_from_map(&map, base);
    PhysicalMemory { map, allocator, reserved_limit: base }
}

#[test]
fn direct_map_adds_the_kernel_base() {
    assert_eq!(phys_to_virt(0x1000), 0xFFFF_8000_0000_1000);
    assert_eq!(virt_to_phys(0xFFFF_8000_0000_1000), 0x1000);
    assert_eq!(virt_to_phys(phys_to_virt(0xB_8000)), 0xB_8000);
}

#[test]
fn port_write_is_recorded() {
    assert_eq!(outb(0x3F8, 0x41), w(0x3F8, 0x41));
    assert_eq!(qemu::exit(3), w(0xF4, 3));
    assert_eq!(qemu::exit_success(), w(0xF4, 0));
    assert_eq!(qemu::exit_failure(), w(0xF4, 1));
}

#[test]
fn memory_words_hold_bytes_in_lanes() {
    let mut mem = DirectMap::new();
    assert_eq!(mem.read_word(0x1000), 0);
    mem.write_word(0x1000, 0x1122_3344_5566_7788);
    assert_eq!(mem.read_byte(0x1000), 0x88);
    assert_eq!(mem.read_byte(0x1007), 0x11);
    mem.write_byte(0x1001, 0xAB);
    assert_eq!(mem.read_word(0x1000), 0x1122_3344_5566_AB88);
    mem.write_byte(0x2003, 0x7F);
    assert_eq!(mem.read_word(0x2000), 0x7F00_0000);
    mem.zero_frame(0x1000);
    assert_eq!(mem.read_word(0x1000), 0);
    assert_eq!(mem.read_word(0x2000), 0x7F00_0000);
}

#[test]
fn table_indices_are_nine_bits_each() {
    let addr: u64 = (3 << 39) | (5 << 30) | (7 << 21) | (9 << 12) | 0x123;
    assert_eq!(pml4_index(addr), 3);
    assert_eq!(pdpt_index(addr), 5);
    assert_eq!(pd_index(addr), 7);
    assert_eq!(pt_index(addr), 9);
    assert_eq!(pml4_index(0xFFFF_8000_0000_0000), 256);
    assert_eq!(pt_index(0x0000_0000_001F_F000), 511);
}

#[test]
fn mapped_page_translates_and_unmapped_does_not() {
    let mut mem = DirectMap::new();
    let mut pm = memory(0x10_0000, 0x10_0000);
    let cr3 = 0x8_0000;
    let virt = 0x40_0000;
    assert_eq!(translate(&mem, cr3, virt), None);
    let flags = FLAG_PRESENT | FLAG_WRITABLE | FLAG_USER;
    assert_eq!(map_page(&mut mem, &mut pm, cr3, virt, 0x50_0000, flags), Ok(()));
    assert_eq!(translate(&mem, cr3, virt), Some(0x50_0000));
    assert_eq!(translate(&mem, cr3, virt + 0x123), Some(0x50_0123));
    assert_eq!(translate(&mem, cr3, virt + 0x1000), None);
    // The three tables of the walk came from the first three frames.
    assert_eq!(mem.read_word(cr3), 0x10_0000 | flags);
    assert_eq!(mem.read_word(0x10_0000), 0x10_1000 | flags);
    assert_eq!(mem.read_word(0x10_1000 + 8 * 2), 0x10_2000 | flags);
    assert_eq!(mem.read_word(0x10_2000), 0x50_0000 | flags);

    assert_eq!(
        map_page(&mut mem, &mut pm, cr3, virt, 0x60_0000, flags),
        Err(MapError::AlreadyMapped)
    );
    assert_eq!(
        map_page(&mut mem, &mut pm, cr3, virt + 1, 0x60_0000, flags),
        Err(MapError::AlreadyMapped)
    );
    assert_eq!(map_page(&mut mem, &mut pm, cr3, virt + 0x1000, 0x60_0000, flags), Ok(()));
    assert_eq!(translate(&mem, cr3, virt + 0x1FFF), Some(0x60_0FFF));

    unmap_page(&mut mem, cr3, virt);
    assert_eq!(translate(&mem, cr3, virt), None);
    assert_eq!(translate(&mem, cr3, virt + 0x1000), Some(0x60_0000));
}

#[test]
fn mapping_without_frames_is_out_of_memory() {
    let mut mem = DirectMap::new();
    let mut pm = memory(0x10_0000, 0x2000);
    assert_eq!(
        map_page(&mut mem, &mut pm, 0x8_0000, 0x40_0000, 0x50_0000, FLAG_PRESENT),
        Err(MapError::OutOfMemory)
    );
    assert_eq!(translate(&mem, 0x8_0000, 0x40_0000), None);
}

#[test]
fn cloned_root_shares_the_kernel_half_only() {
    let mut mem = DirectMap::new();
    let mut pm = memory(0x10_0000, 0x10_0000);
    let kernel_cr3 = 0x8_0000;
    mem.write_word(kernel_cr3 + 8 * 256, 0xAAAA_A003);
    mem.write_word(kernel_cr3 + 8 * 511, 0xBBBB_B003);
    mem.write_word(kernel_cr3 + 8 * 1, 0xCCCC_C007);
    let root = clone_kernel_pml4(&mut mem, &mut pm, kernel_cr3).unwrap();
    assert_eq!(root, 0x10_0000);
    assert_eq!(mem.read_word(root + 8 * 256), 0xAAAA_A003);
    assert_eq!(mem.read_word(root + 8 * 511), 0xBBBB_B003);
    assert_eq!(mem.read_word(root + 8 * 1), 0);
    assert_eq!(mem.read_word(root), 0);
    let mut empty = memory(0x10_0000, 0);
    assert_eq!(
        clone_kernel_pml4(&mut mem, &mut empty, kernel_cr3),
        Err(MapError::OutOfMemory)
    );
}

#[test]
fn timer_divisor_is_clamped() {
    assert_eq!(pit::init_frequency(100), vec![w(0x43, 0x36), w(0x40, 0x9B), w(0x40, 0x2E)]);
    assert_eq!(pit::init_frequency(1), vec![w(0x43, 0x36), w(0x40, 0xFF), w(0x40, 0xFF)]);
    assert_eq!(pit::init_frequency(2_000_000), vec![w(0x43, 0x36), w(0x40, 1), w(0x40, 0)]);
}

#[test]
fn serial_port_is_set_up_and_turns_line_feeds() {
    assert_eq!(
        serial::init(),
        vec![
            w(0x3F9, 0x00),
            w(0x3FB, 0x80),
            w(0x3F8, 0x03),
            w(0x3F9, 0x00),
            w(0x3FB, 0x03),
            w(0x3FA, 0xC7),
            w(0x3FC, 0x0B),
        ]
    );
    let mut wire: Vec<u8> = Vec::new();
    serial::write_byte(&mut wire, b'a');
    serial::write_byte(&mut wire, b'\n');
    assert_eq!(wire, b"a\r\n".to_vec());
    assert!(serial::is_transmit_empty(0x20));
    assert!(serial::is_transmit_empty(0x61));
    assert!(!serial::is_transmit_empty(0x41));
    assert_eq!(serial::transmit(0x55), w(0x3F8, 0x55));
}

#[test]
fn log_goes_over_the_wire() {
    assert_eq!(ares::klog::init(), serial::init());
    assert_eq!(ares::klog::write_str("ab\n"), b"ab\r\n".to_vec());
    assert_eq!(ares::klog::write_bytes(b"c\n\nd"), b"c\r\n\r\nd".to_vec());
    assert_eq!(ares::klog::writeln("d"), b"d\r\n".to_vec());
    assert_eq!(ares::klog::writeln(""), b"\r\n".to_vec());
}

#[test]
fn descriptor_of_the_task_state_segment() {
    let (low, high) = gdt::encode_tss_descriptor(0xFFFF_8000_1234_5678, 103);
    assert_eq!(low, 0x1200_8934_5678_0067);
    assert_eq!(high, 0xFFFF_8000);
    let (table, gdtr) = gdt::init(0xFFFF_8000_1234_5678, 0xFFFF_8000_0010_0000);
    assert_eq!(
        table,
        [
            0,
            0x00A0_9A00_0000_0000,
            0x00A0_9200_0000_0000,
            0x00A0_FA00_0000_0000,
            0x00A0_F200_0000_0000,
            low,
            high,
        ]
    );
    assert_eq!(gdtr.limit, 55);
    assert_eq!(gdtr.base, 0xFFFF_8000_0010_0000);
    let mut tss = TaskStateSegment::new();
    assert_eq!(tss.iomap_base, 104);
    gdt::set_kernel_stack(&mut tss, 0xFFFF_8000_0020_0000);
    assert_eq!(tss.rsp, [0xFFFF_8000_0020_0000, 0, 0]);
}

#[test]
fn controllers_are_moved_and_masked() {
    let mut pic = Pic::new();
    let writes = pic.remap(32, 40, 0xFB, 0xFF);
    assert_eq!(
        writes,
        vec![
            w(0x20, 0x11),
            w(0xA0, 0x11),
            w(0x21, 32),
            w(0xA1, 40),
            w(0x21, 0x04),
            w(0xA1, 0x02),
            w(0x21, 0x01),
            w(0xA1, 0x01),
            w(0x21, 0xFB),
            w(0xA1, 0xFF),
        ]
    );
    assert_eq!((pic.mask_master, pic.mask_slave), (0xFB, 0xFF));
    assert_eq!(enable_irq(&mut pic, 0), vec![w(0x21, 0xFA)]);
    assert_eq!(enable_vector(&mut pic, 33), vec![w(0x21, 0xF8)]);
    assert_eq!(enable_vector(&mut pic, 14), Vec::<PortWrite>::new());
    assert_eq!(disable_irq(&mut pic, 0), vec![w(0x21, 0xF9)]);
    assert_eq!(disable_vector(&mut pic, 33), vec![w(0x21, 0xFB)]);
    // A line of the second controller needs the cascade line as well.
    let mut both = Pic { mask_master: 0xFF, mask_slave: 0xFF };
    assert_eq!(enable_irq(&mut both, 14), vec![w(0xA1, 0xBF), w(0x21, 0xFB)]);
    assert_eq!((both.mask_master, both.mask_slave), (0xFB, 0xBF));
    assert_eq!(disable_irq(&mut both, 14), vec![w(0xA1, 0xFF)]);
    assert_eq!(both.mask(1), vec![w(0x21, 0xFB)]);
    assert_eq!(both.unmask(1), vec![w(0x21, 0xF9)]);
}

#[test]
fn end_of_interrupt_reaches_both_controllers_for_high_lines() {
    assert_eq!(send_eoi(32), vec![w(0x20, 0x20)]);
    assert_eq!(send_eoi(39), vec![w(0x20, 0x20)]);
    assert_eq!(send_eoi(40), vec![w(0xA0, 0x20), w(0x20, 0x20)]);
    assert_eq!(send_eoi(46), vec![w(0xA0, 0x20), w(0x20, 0x20)]);
}

#[test]
fn descriptor_table_points_to_the_stubs() {
    let stubs: Vec<u64> = (0..48u64).map(|i| 0xFFFF_8000_0010_0000 + 0x20 * i).collect();
    let mut pic = Pic::new();
    let (mut table, writes) = interrupts::init(&mut pic, &stubs, 0xFFFF_8000_0030_0000, 0xFF, 0xFF);
    assert_eq!(writes.len(), 10);
    assert_eq!(table.idt.len(), 256);
    assert_eq!(table.handlers.len(), 256);
    assert_eq!(table.idtr.limit, 4095);
    assert_eq!(table.idtr.base, 0xFFFF_8000_0030_0000);
    assert_eq!(
        table.idt[14],
        IdtEntry {
            offset_low: 0x01C0,
            selector: 0x08,
            ist: 0,
            type_attr: 0x8E,
            offset_mid: 0x0010,
            offset_high: 0xFFFF_8000,
            zero: 0,
        }
    );
    assert_eq!(table.idt[48], IdtEntry::missing());
    assert_eq!(table.idt[255].type_attr, 0);
    assert_eq!(dispatch(&table, &frame_at(14, 0, 0)), HandlerKind::PageFault);
    assert_eq!(dispatch(&table, &frame_at(13, 0, 0)), HandlerKind::GeneralProtection);
    assert_eq!(dispatch(&table, &frame_at(6, 0, 0)), HandlerKind::InvalidOpcode);
    assert_eq!(dispatch(&table, &frame_at(46, 0, 0)), HandlerKind::AtaPrimary);
    assert_eq!(dispatch(&table, &frame_at(32, 0, 0)), HandlerKind::Default);
    register_handler(&mut table, 32, HandlerKind::Timer);
    assert_eq!(dispatch(&table, &frame_at(32, 0, 0)), HandlerKind::Timer);
    assert_eq!(dispatch(&table, &frame_at(3, 0, 0)), HandlerKind::Default);
    let again = setup_idt(&stubs, 0);
    assert_eq!(again.idt, table.idt);
}

#[test]
fn fault_handlers_report_what_the_frame_holds() {
    let frame = frame_at(14, 0b10110, 0x40_1000);
    let info = page_fault_handler(&frame, 0xDEAD_B000);
    assert_eq!(info.address, 0xDEAD_B000);
    assert_eq!(info.error_code, 0b10110);
    assert_eq!(info.rip, 0x40_1000);
    assert_eq!(info.cs, 0x08);
    assert!(!info.present);
    assert!(info.write);
    assert!(info.user);
    assert!(!info.reserved);
    assert!(info.instruction);
    let gp = general_protection_handler(&frame_at(13, 0x18, 0x1234));
    assert_eq!((gp.rip, gp.cs, gp.rflags, gp.rsp, gp.err_code), (0x1234, 0x08, 0x202, 0x9000, 0x18));
    let ud = invalid_opcode_handler(&frame_at(6, 0, 0x5678));
    assert_eq!((ud.rip, ud.err_code), (0x5678, 0));
    assert_eq!(default_handler(&frame_at(3, 7, 0)), (3, 7));
    assert_eq!(ata_primary_irq(), 0x1F7);
}

#[test]
fn letters_follow_shift_and_caps_lock() {
    assert_eq!(map_letter(0x1E, false, false), Some(b'a'));
    assert_eq!(map_letter(0x1E, true, false), Some(b'A'));
    assert_eq!(map_letter(0x1E, false, true), Some(b'A'));
    assert_eq!(map_letter(0x1E, true, true), Some(b'a'));
    assert_eq!(map_letter(0x10, false, false), Some(b'q'));
    assert_eq!(map_letter(0x19, false, false), Some(b'p'));
    assert_eq!(map_letter(0x26, false, false), Some(b'l'));
    assert_eq!(map_letter(0x2C, false, false), Some(b'z'));
    assert_eq!(map_letter(0x32, true, false), Some(b'M'));
    assert_eq!(map_letter(0x02, false, false), None);
    assert_eq!(map_symbol(0x02, false), Some(b'1'));
    assert_eq!(map_symbol(0x02, true), Some(b'!'));
    assert_eq!(map_symbol(0x0B, false), Some(b'0'));
    assert_eq!(map_symbol(0x35, true), Some(b'?'));
    assert_eq!(map_symbol(0x2B, false), Some(b'\\'));
    assert_eq!(map_symbol(0x1E, false), None);
    assert_eq!(map_symbol(0x3B, false), None);
}

#[test]
fn scancodes_fill_the_keyboard_buffer() {
    let mut state = KeyboardState::new();
    assert!(state.is_empty());
    assert!(!keyboard_handler(&mut state, 0x2A));
    assert!(state.shift);
    assert!(keyboard_handler(&mut state, 0x23));
    assert!(!keyboard_handler(&mut state, 0xAA));
    assert!(!state.shift);
    assert!(keyboard_handler(&mut state, 0x17));
    assert!(!keyboard_handler(&mut state, 0x97));
    assert!(keyboard_handler(&mut state, 0x39));
    assert!(keyboard_handler(&mut state, 0x1C));
    assert!(keyboard_handler(&mut state, 0x0E));
    assert!(keyboard_handler(&mut state, 0x0F));
    assert!(!keyboard_handler(&mut state, 0x3A));
    assert!(state.caps_lock);
    assert!(keyboard_handler(&mut state, 0x2C));
    assert!(!keyboard_handler(&mut state, 0x3B));
    let mut buf = [0u8; 1];
    let mut got: Vec<u8> = Vec::new();
    while keyboard::read(&mut state, &mut buf) == 1 {
        got.push(buf[0]);
    }
    assert_eq!(got, vec![b'H', b'i', b' ', b'\n', 0x08, b'\t', b'Z']);
    assert_eq!(keyboard::read(&mut state, &mut buf), 0);
    let mut none: [u8; 0] = [];
    assert!(keyboard_handler(&mut state, 0x1E));
    assert_eq!(keyboard::read(&mut state, &mut none), 0);
    assert_eq!(state.pop(), Some(b'A'));
}

#[test]
fn full_keyboard_buffer_drops_the_oldest_byte() {
    let mut state = KeyboardState::new();
    for i in 0..255u32 {
        assert_eq!(state.push((i % 251) as u8), None);
    }
    assert!(state.is_full());
    assert_eq!(state.push(0xEE), Some(0));
    assert_eq!(state.pop(), Some(1));
    let mut last = 0u8;
    let mut count = 1;
    while let Some(byte) = state.pop() {
        last = byte;
        count += 1;
    }
    assert_eq!(count, 255);
    assert_eq!(last, 0xEE);
    let mut started = false;
    assert!(keyboard::init(&mut started));
    assert!(!keyboard::init(&mut started));
}

#[test]
fn screen_cells_and_cursor() {
    let mut vga = VgaText::new();
    assert_eq!(vga.cells.len(), 2000);
    console::write_at(&mut vga, 1, 2, b'X', 0x1F);
    assert_eq!(vga.cells[82], 0x1F58);
    console::set_cursor(&mut vga, 1, 2);
    assert_eq!(vga.cells[82], 0x1FDB);
    assert_eq!(vga.cursor.saved, 0x1F58);
    assert_eq!(vga.cursor.position, 82);
    assert_eq!(
        vga.take_pending(),
        vec![w(0x3D4, 0x0F), w(0x3D5, 82), w(0x3D4, 0x0E), w(0x3D5, 0)]
    );
    assert!(vga.pending.is_empty());
    console::set_cursor(&mut vga, 24, 79);
    assert_eq!(vga.cells[82], 0x1F58);
    assert_eq!(vga.cursor.position, 1999);
    assert_eq!(
        vga.take_pending(),
        vec![w(0x3D4, 0x0F), w(0x3D5, 0xCF), w(0x3D4, 0x0E), w(0x3D5, 0x07)]
    );
    console::set_cursor(&mut vga, 30, 0);
    assert_eq!(vga.cursor.position, 1999);
    console::set_cursor_shape(&mut vga, 0, 15, 0xFF, 0xFF);
    let pending = vga.take_pending();
    assert_eq!(
        pending[4..].to_vec(),
        vec![w(0x3D4, 0x0A), w(0x3D5, 0xE0), w(0x3D4, 0x0B), w(0x3D5, 0xEF)]
    );
}

#[test]
fn screen_scrolls_and_clears() {
    let mut vga = VgaText::new();
    console::write_at(&mut vga, 0, 0, b'a', 0x0F);
    console::write_at(&mut vga, 1, 5, b'b', 0x0F);
    console::write_at(&mut vga, 24, 79, b'c', 0x0F);
    console::scroll_up(&mut vga);
    assert_eq!(vga.cells[5], 0x0F62);
    assert_eq!(vga.cells[23 * 80 + 79], 0x0F63);
    assert_eq!(vga.cells[24 * 80 + 79], 0x0F20);
    assert_eq!(vga.cells[24 * 80], 0x0F20);
    assert_eq!(vga.cells[0], 0);
    console::clear_row(&mut vga, 0);
    assert_eq!(vga.cells[5], 0x0F20);
    console::clear_screen(&mut vga);
    assert_eq!(vga.cells[0], 0x0FDB);
    assert!(vga.cells[1..].iter().all(|&cell| cell == 0x0F20));
    assert!(vga.cursor.active);
    assert_eq!(vga.cursor.saved, 0x0F20);
    console::init(&mut vga, 0, 0);
    assert!(vga.cursor.active);
    assert_eq!(vga.cursor.position, 0);
    assert_eq!(vga.cells[0], 0x0FDB);
    console::reset_cursor_state(&mut vga);
    assert!(!vga.cursor.active);
    assert_eq!(vga.cells[0], 0x0F20);
}

#[test]
fn disk_commands_are_port_writes() {
    let disk: AtaPrimaryMaster = ata::driver();
    assert_eq!(disk.io_base(), 0x1F0);
    assert_eq!(disk.ctrl_base(), 0x3F6);
    assert_eq!(disk.wait_400ns(), (0x3F6, 4));
    assert_eq!(disk.select_drive(0x0A12_3456), w(0x1F6, 0xEA));
    assert_eq!(
        disk.pio_read_sector(0x0A12_3456),
        vec![
            w(0x1F6, 0xEA),
            w(0x3F6, 0),
            w(0x1F2, 1),
            w(0x1F3, 0x56),
            w(0x1F4, 0x34),
            w(0x1F5, 0x12),
            w(0x1F7, 0x20),
        ]
    );
    assert_eq!(disk.pio_write_sector(2048)[3..].to_vec(), vec![
        w(0x1F3, 0x00),
        w(0x1F4, 0x08),
        w(0x1F5, 0x00),
        w(0x1F7, 0x30),
    ]);
    assert_eq!(
        disk.issue_identify(),
        vec![w(0x1F6, 0xE0), w(0x1F2, 0), w(0x1F3, 0), w(0x1F4, 0), w(0x1F5, 0), w(0x1F7, 0xEC)]
    );
    assert_eq!(disk.flush(), w(0x1F7, 0xE7));
}

#[test]
fn disk_status_decides_how_waiting_ends() {
    let disk = ata::driver();
    assert_eq!(disk.poll(0x80, 0x08, 0x08), Poll::Pending);
    assert_eq!(disk.poll(0x00, 0x08, 0x08), Poll::Pending);
    assert_eq!(disk.poll(0x08, 0x08, 0x08), Poll::Ready);
    assert_eq!(disk.poll(0x09, 0x08, 0x08), Poll::Failed);
    assert_eq!(disk.poll(0x28, 0x08, 0x08), Poll::Failed);
    assert_eq!(disk.wait_until(&[0x80, 0x80, 0x08], 0x08, 0x08), Ok(()));
    assert_eq!(disk.wait_until(&[0x80, 0x09, 0x08], 0x08, 0x08), Err(DriverError::IoError));
    assert_eq!(disk.wait_until(&[0x80, 0x80], 0x08, 0x08), Err(DriverError::IoError));
    assert_eq!(disk.wait_until(&[], 0x08, 0x08), Err(DriverError::IoError));
    assert_eq!(disk.identify_status(0), Some(Err(DriverError::Unsupported)));
    assert_eq!(disk.identify_status(0x80), None);
    assert_eq!(disk.identify_status(0x41), Some(Err(DriverError::IoError)));
    assert_eq!(disk.identify_status(0x48), Some(Ok(())));
    assert!(disk.transfer_failed(0x01));
    assert!(disk.transfer_failed(0x20));
    assert!(!disk.transfer_failed(0x48));
    assert_eq!(disk.sectors_of(1024), Ok(2));
    assert_eq!(disk.sectors_of(0), Ok(0));
    assert_eq!(disk.sectors_of(513), Err(DriverError::Unsupported));
    assert_eq!(disk.words_to_bytes(&[0x1234, 0xABCD]), vec![0x34, 0x12, 0xCD, 0xAB]);
    assert_eq!(disk.bytes_to_words(&[0x34, 0x12, 0xCD, 0xAB, 0x99]), vec![0x1234, 0xABCD]);
}
