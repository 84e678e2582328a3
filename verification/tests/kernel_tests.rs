use ares::arch::interrupts::{HandlerKind, InterruptFrame};
use ares::arch::io::PortWrite;
use ares::arch::paging::DirectMap;
use ares::drivers::mock::MemBlockDevice;
use ares::drivers::{
    block_device_by_name, char_device_by_name, for_each_block_device, for_each_char_device,
    list_drivers, CharDeviceId, DriverKind,
};
use ares::kernel::{
    heap_self_test, init_shell_task, irq_handler, isr_handler, kmain, scratch_smoke_test,
    smoke_pattern, vfs_smoke_checks, BootInfo, InterruptInput, InterruptReport, Kernel,
};
use ares::mem::heap;
use ares::mem::phys::{FrameAllocator, KernelImage, MemoryMap, MemoryRegion, PhysicalMemory};
use ares::process::api::get_process;
use ares::process::sched::{current_pid, start_scheduler, wait_for_child, WaitOutcome};
use ares::process::space::create_user_address_space_with_stack;
use ares::process::types::{
    AddressSpace, AddressSpaceKind, KernelSymbols, ProcessError, ProcessState, SeekFrom,
};
use ares::process::user::spawn_user_process;
use ares::process::usercopy::{
    copy_from_user, copy_to_user, ensure_user_range, read_user_buffer, write_user_buffer,
};
use ares::syscall::{
    close, decode_ret, decode_seek, dispatch, encode_error, open, read, seek, sys_close, sys_exit,
    sys_open, sys_read, sys_seek, sys_write, sys_yield, syscall_trampoline, MsrWrite, SeekWhence,
    SysError, SyscallFrame, ERR_BADF, ERR_FAULT, ERR_INVAL, ERR_IO, ERR_NOENT, ERR_NOMEM,
    ERR_NOSYS, NR_CLOSE, NR_EXIT, NR_OPEN, NR_READ, NR_SEEK, NR_WRITE, NR_YIELD,
};
use ares::user::elf::{self, ElfError};

const KERNEL_BASE: u64 = 0xFFFF_8000_0000_0000;
const SECTOR: usize = 512;
const FAT_LBA: usize = 4096;
const SCRATCH_LBA: usize = 2048;
const MESSAGE: &[u8] = b"Hello, user!\n";
const MESSAGE_AT: u64 = 0x40_0080;

fn put_u16(bytes: &mut [u8], at: usize, value: u16) {
    bytes[at..at + 2].copy_from_slice(&value.to_le_bytes());
}

fn put_u32(bytes: &mut [u8], at: usize, value: u32) {
    bytes[at..at + 4].copy_from_slice(&value.to_le_bytes());
}

fn put_u64(bytes: &mut [u8], at: usize, value: u64) {
    bytes[at..at + 8].copy_from_slice(&value.to_le_bytes());
}

/// A program of one loadable segment at 0x400000 that holds the whole file.
fn hello_elf() -> Vec<u8> {
    let mut image = vec![0u8; 128];
    image[0..4].copy_from_slice(&[0x7F, b'E', b'L', b'F']);
    image[4] = 2;
    image[5] = 1;
    image[6] = 1;
    put_u16(&mut image, 16, 2);
    put_u16(&mut image, 18, 0x3E);
    put_u64(&mut image, 24, 0x40_0078);
    put_u64(&mut image, 32, 64);
    put_u16(&mut image, 52, 64);
    put_u16(&mut image, 54, 56);
    put_u16(&mut image, 56, 1);
    image.extend_from_slice(MESSAGE);
    let len = image.len() as u64;
    put_u32(&mut image, 64, 1);
    put_u32(&mut image, 68, 5);
    put_u64(&mut image, 72, 0);
    put_u64(&mut image, 80, 0x40_0000);
    put_u64(&mut image, 88, 0x40_0000);
    put_u64(&mut image, 96, len);
    put_u64(&mut image, 104, len);
    put_u64(&mut image, 112, 0x1000);
    image
}

/// A disk with a FAT volume at sector 4096 that holds `HELLO.TXT` and the
/// program `HELLO`.
fn disk_image() -> Vec<u8> {
    let mut disk = vec![0u8; (FAT_LBA + 16) * SECTOR];
    let program = hello_elf();
    let volume = &mut disk[FAT_LBA * SECTOR..];
    put_u16(volume, 11, SECTOR as u16);
    volume[13] = 1;
    put_u16(volume, 14, 1);
    volume[16] = 1;
    put_u16(volume, 17, 16);
    volume[21] = 0xF8;
    put_u16(volume, 22, 1);
    put_u16(volume, 24, 1);
    put_u16(volume, 26, 1);
    volume[510] = 0x55;
    volume[511] = 0xAA;
    let fat = SECTOR;
    volume[fat..fat + 4].copy_from_slice(&[0xF8, 0xFF, 0xFF, 0xFF]);
    put_u16(volume, fat + 4, 0xFFFF);
    put_u16(volume, fat + 6, 0xFFFF);
    let root = 2 * SECTOR;
    volume[root..root + 11].copy_from_slice(b"HELLO   TXT");
    volume[root + 11] = 0x20;
    put_u16(volume, root + 26, 2);
    put_u32(volume, root + 28, 5);
    volume[root + 32..root + 43].copy_from_slice(b"HELLO      ");
    volume[root + 43] = 0x20;
    put_u16(volume, root + 58, 3);
    put_u32(volume, root + 60, program.len() as u32);
    volume[3 * SECTOR..3 * SECTOR + 5].copy_from_slice(b"Hello");
    volume[4 * SECTOR..4 * SECTOR + program.len()].copy_from_slice(&program);
    disk
}

fn symbols() -> KernelSymbols {
    KernelSymbols {
        process_exit: KERNEL_BASE + 0x11_0000,
        preempt_trampoline: KERNEL_BASE + 0x11_1000,
        user_mode_trampoline: KERNEL_BASE + 0x11_2000,
        idle_task: KERNEL_BASE + 0x11_3000,
    }
}

fn boot_info() -> BootInfo {
    let mut info: Vec<u8> = Vec::new();
    for word in [0u32, 0, 6, 16 + 24, 24, 0] {
        info.extend_from_slice(&word.to_le_bytes());
    }
    info.extend_from_slice(&0x100_0000u64.to_le_bytes());
    info.extend_from_slice(&0x100_0000u64.to_le_bytes());
    info.extend_from_slice(&1u32.to_le_bytes());
    info.extend_from_slice(&0u32.to_le_bytes());
    info.extend_from_slice(&0u32.to_le_bytes());
    info.extend_from_slice(&8u32.to_le_bytes());
    let total = info.len() as u32;
    info[0..4].copy_from_slice(&total.to_le_bytes());
    BootInfo {
        multiboot_info: info,
        image: KernelImage {
            load_start: KERNEL_BASE + 0x10_0000,
            bss_end: KERNEL_BASE + 0x1F_F800,
            heap_start: KERNEL_BASE + 0x20_0000,
            heap_end: KERNEL_BASE + 0x30_0000,
        },
        symbols: symbols(),
        stubs: (0..48u64).map(|i| KERNEL_BASE + 0x10_1000 + 16 * i).collect(),
        idt_base: KERNEL_BASE + 0x10_8000,
        kernel_cr3: 0x1000,
        init_task: KERNEL_BASE + 0x11_4000,
        pic_masks: (0xFF, 0xFF),
        efer: 0x500,
        syscall_entry: KERNEL_BASE + 0x11_5000,
    }
}

fn boot() -> Kernel<MemBlockDevice> {
    let disk = MemBlockDevice::new("ata0-master", disk_image(), SECTOR);
    kmain(&boot_info(), disk).unwrap().0
}

/// A kernel whose first task, pid 2, has the processor.
fn running_kernel() -> Kernel<MemBlockDevice> {
    let mut kernel = boot();
    assert!(start_scheduler(&mut kernel.sched));
    assert_eq!(current_pid(&kernel.sched), Some(2));
    kernel
}

fn screen_text(kernel: &Kernel<MemBlockDevice>, len: usize) -> Vec<u8> {
    kernel.devices.console.screen.cells[..len].iter().map(|cell| (cell & 0xFF) as u8).collect()
}

fn frame_of(rax: u64, rdi: u64, rsi: u64, rdx: u64) -> SyscallFrame {
    let mut frame = SyscallFrame::empty();
    frame.rax = rax;
    frame.rdi = rdi;
    frame.rsi = rsi;
    frame.rdx = rdx;
    frame
}

fn interrupt(int_no: u64, err_code: u64, rip: u64) -> InterruptFrame {
    InterruptFrame {
        ds: 0x10,
        r15: 0,
        r14: 0,
        r13: 0,
        r12: 0,
        r11: 0,
        r10: 0,
        r9: 0,
        r8: 0,
        rdi: 0,
        rsi: 0,
        rbp: 0,
        rsp: 0x9000,
        rbx: 0,
        rdx: 0,
        rcx: 0,
        rax: 0,
        int_no,
        err_code,
        rip,
        cs: 0x08,
        rflags: 0x202,
        user_rsp: 0,
        user_ss: 0,
    }
}

fn input(scancode: u8) -> InterruptInput {
    InterruptInput { fault_addr: 0xDEAD_0000, scancode, lock_free: true }
}

fn user_space() -> (DirectMap, PhysicalMemory, AddressSpace) {
    let mut map = MemoryMap::new();
    assert!(map.add_region(MemoryRegion { base: 0x100_0000, length: 0x10_0000 }));
    let mut allocator = FrameAllocator::new();
    allocator.init_from_map(&map, 0x100_0000);
    let mut pm = PhysicalMemory { map, allocator, reserved_limit: 0x100_0000 };
    let mut mem = DirectMap::new();
    let (space, stack) = create_user_address_space_with_stack(&mut mem, &mut pm, 0x1000, 2).unwrap();
    assert_eq!(space.kind, AddressSpaceKind::User);
    assert_eq!(stack.top, 0x8000_0000);
    assert_eq!(stack.size, 2 * 4096);
    (mem, pm, space)
}

#[test]
fn kernel_comes_up_with_idle_and_first_task() {
    let disk = MemBlockDevice::new("ata0-master", disk_image(), SECTOR);
    let info = boot_info();
    let (kernel, actions) = kmain(&info, disk).unwrap();
    assert_eq!(actions.serial.len(), 7);
    assert_eq!(actions.serial[0], PortWrite { port: 0x3F9, value: 0 });
    assert_eq!(actions.pic.len(), 10);
    assert_eq!(actions.pic[8], PortWrite { port: 0x21, value: 0xFF });
    assert_eq!(
        actions.msr,
        vec![
            MsrWrite { msr: 0xC000_0080, value: 0x501 },
            MsrWrite { msr: 0xC000_0081, value: (0x08u64 << 48) | (0x1Bu64 << 32) },
            MsrWrite { msr: 0xC000_0082, value: KERNEL_BASE + 0x11_5000 },
            MsrWrite { msr: 0xC000_0084, value: 0x300 },
        ]
    );
    assert_eq!(
        actions.timer,
        vec![
            PortWrite { port: 0x21, value: 0xFD },
            PortWrite { port: 0x21, value: 0xFC },
            PortWrite { port: 0x43, value: 0x36 },
            PortWrite { port: 0x40, value: 0x9B },
            PortWrite { port: 0x40, value: 0x2E },
        ]
    );
    assert_eq!(actions.banner, Err(SysError::BadFileDescriptor));
    assert_eq!(actions.heap_check.0, actions.heap_check.1);
    assert_eq!((kernel.pic.mask_master, kernel.pic.mask_slave), (0xFC, 0xFF));
    assert_eq!(kernel.pm.reserved_limit, 0x30_0000);
    assert_eq!(kernel.pm.map.regions, vec![MemoryRegion { base: 0x100_0000, length: 0x100_0000 }]);
    assert_eq!(kernel.heap.start, KERNEL_BASE + 0x20_0000);
    assert_eq!(kernel.heap.size, heap::HEAP_SIZE);
    assert_eq!(kernel.timer.frequency_hz, 100);
    assert_eq!(kernel.timer.ticks, 0);
    assert_eq!(kernel.interrupts.handlers[32], HandlerKind::Timer);
    assert_eq!(kernel.interrupts.handlers[33], HandlerKind::Keyboard);
    assert_eq!(kernel.interrupts.handlers[14], HandlerKind::PageFault);
    assert_eq!(kernel.interrupts.idtr.base, KERNEL_BASE + 0x10_8000);
    assert_eq!(kernel.env.kernel_cr3, 0x1000);
    assert_eq!(kernel.env.symbols, symbols());
    assert!(kernel.env.scratch.is_some());
    assert!(kernel.devices.fat.is_some());
    assert_eq!(current_pid(&kernel.sched), None);
    let table = &kernel.sched.table;
    assert_eq!(table.entries.len(), 2);
    assert_eq!((table.entries[0].pid, table.entries[0].is_idle), (1, true));
    assert_eq!((table.entries[1].pid, table.entries[1].is_idle), (2, false));
    assert_eq!(table.entries[0].context.rip, KERNEL_BASE + 0x11_3000);
    assert_eq!(table.entries[1].context.rip, KERNEL_BASE + 0x11_4000);
    assert_eq!(table.entries[1].name, "init");
    assert_eq!((table.idle_pid, table.init_pid), (Some(1), Some(2)));
    assert!(table.entries[0].fds[3].is_some());
    assert!(table.entries[1].fds[3].is_some());
    assert!(table.entries[1].fds[4].is_none());
}

#[test]
fn kernel_comes_up_without_a_usable_disk() {
    let disk = MemBlockDevice::new("ata0-master", vec![0u8; 8 * SECTOR], SECTOR);
    let (kernel, _) = kmain(&boot_info(), disk).unwrap();
    assert!(kernel.devices.fat.is_none());
    assert!(kernel.devices.scratch.is_some());
    let mut kernel = kernel;
    assert!(start_scheduler(&mut kernel.sched));
    assert_eq!(open(&mut kernel, "/fat/HELLO.TXT"), Err(SysError::NoEntry));
}

#[test]
fn heap_self_test_leaves_the_heap_as_it_was() {
    let mut kernel_heap = heap::init(KERNEL_BASE + 0x20_0000, 4096);
    let (before, after) = heap_self_test(&mut kernel_heap);
    assert_eq!((before, after), (4096, 4096));
    assert_eq!(kernel_heap.list.regions.len(), 1);
    let mut tiny = heap::init(KERNEL_BASE + 0x20_0000, 32);
    assert_eq!(heap_self_test(&mut tiny), (32, 32));
}

#[test]
fn built_in_drivers_are_registered() {
    let kernel = boot();
    let registry = &kernel.devices.registry;
    assert_eq!(
        list_drivers(registry),
        vec![
            ("console", DriverKind::Char),
            ("null", DriverKind::Char),
            ("zero", DriverKind::Char),
            ("ata0-master", DriverKind::Block),
        ]
    );
    assert_eq!(
        for_each_char_device(registry),
        vec![CharDeviceId::Console, CharDeviceId::Null, CharDeviceId::Zero]
    );
    assert_eq!(for_each_block_device(registry), vec!["ata0-master"]);
    assert_eq!(block_device_by_name(registry, "ata0-master"), Some("ata0-master"));
    assert_eq!(block_device_by_name(registry, "ata1"), None);
    assert_eq!(char_device_by_name(registry, "zero"), Some(CharDeviceId::Zero));
    assert_eq!(char_device_by_name(registry, "keyboard"), None);
}

#[test]
fn seek_moves_the_offset_of_a_descriptor() {
    let mut kernel = running_kernel();
    let fd = open(&mut kernel, "/scratch").unwrap() as u64;
    assert_eq!(fd, 4);
    assert_eq!(ares::syscall::write(&mut kernel, fd, b"seektest"), Ok(8));
    assert_eq!(seek(&mut kernel, fd, 2, SeekWhence::Start), Ok(2));
    let mut buf = [0u8; 6];
    assert_eq!(read(&mut kernel, fd, &mut buf), Ok(6));
    assert_eq!(&buf, b"ektest");
    assert_eq!(
        kernel.devices.disk.data[SCRATCH_LBA * SECTOR..SCRATCH_LBA * SECTOR + 8].to_vec(),
        b"seektest".to_vec()
    );
    assert_eq!(seek(&mut kernel, fd, -3, SeekWhence::Cur), Ok(5));
    assert_eq!(seek(&mut kernel, fd, 0, SeekWhence::End), Ok(512));
    assert_eq!(seek(&mut kernel, fd, -512, SeekWhence::End), Ok(0));
    assert_eq!(seek(&mut kernel, fd, 1, SeekWhence::End), Err(SysError::InvalidArgument));
    assert_eq!(seek(&mut kernel, fd, -1, SeekWhence::Cur), Err(SysError::InvalidArgument));
    assert_eq!(seek(&mut kernel, fd, -1, SeekWhence::Start), Err(SysError::InvalidArgument));
    assert_eq!(seek(&mut kernel, 1, 0, SeekWhence::Start), Err(SysError::InvalidArgument));
    assert_eq!(close(&mut kernel, fd), Ok(()));
    assert_eq!(close(&mut kernel, fd), Err(SysError::BadFileDescriptor));
    assert_eq!(ares::syscall::write(&mut kernel, fd, b"x"), Err(SysError::BadFileDescriptor));
    assert_eq!(read(&mut kernel, 16, &mut buf), Err(SysError::BadFileDescriptor));
    assert_eq!(seek(&mut kernel, fd, 0, SeekWhence::Start), Err(SysError::BadFileDescriptor));
}

#[test]
fn descriptors_reach_the_devices() {
    let mut kernel = running_kernel();
    assert_eq!(ares::syscall::write(&mut kernel, 1, b"ok\nA"), Ok(4));
    assert_eq!(screen_text(&kernel, 2), b"ok".to_vec());
    assert_eq!((kernel.devices.console.screen.cells[80] & 0xFF) as u8, b'A');
    assert_eq!((kernel.devices.console.state.row, kernel.devices.console.state.col), (1, 1));
    let mut buf = [0x55u8; 4];
    assert_eq!(read(&mut kernel, 1, &mut buf), Ok(0));
    assert_eq!(read(&mut kernel, 0, &mut buf), Ok(0));
    let null = open(&mut kernel, "/dev/null").unwrap() as u64;
    let zero = open(&mut kernel, "/dev/zero").unwrap() as u64;
    let console = open(&mut kernel, "/dev/console").unwrap() as u64;
    assert_eq!((null, zero, console), (4, 5, 6));
    assert_eq!(ares::syscall::write(&mut kernel, null, b"discard"), Ok(7));
    assert_eq!(read(&mut kernel, null, &mut buf), Ok(0));
    assert_eq!(read(&mut kernel, zero, &mut buf), Ok(4));
    assert_eq!(buf, [0u8; 4]);
    assert_eq!(ares::syscall::write(&mut kernel, console, b"B"), Ok(1));
    assert_eq!((kernel.devices.console.screen.cells[81] & 0xFF) as u8, b'B');
    assert_eq!(open(&mut kernel, "/dev/keyboard"), Err(SysError::NoEntry));
    assert_eq!(open(&mut kernel, "/nowhere"), Err(SysError::NoEntry));
    assert_eq!(open(&mut kernel, "/fat/MISSING.TXT"), Err(SysError::NoEntry));
    assert_eq!(close(&mut kernel, zero), Ok(()));
    assert_eq!(open(&mut kernel, "/dev/zero"), Ok(5));
    // Sixteen descriptors, and no more.
    for expected in 7..16 {
        assert_eq!(open(&mut kernel, "/dev/null"), Ok(expected));
    }
    assert_eq!(open(&mut kernel, "/dev/null"), Err(SysError::NoMemory));
}

#[test]
fn file_of_the_volume_is_read_through_a_descriptor() {
    let mut kernel = running_kernel();
    let fd = open(&mut kernel, "/fat/HELLO.TXT").unwrap() as u64;
    let mut buf = [0u8; 32];
    assert_eq!(read(&mut kernel, fd, &mut buf), Ok(5));
    assert_eq!(&buf[..5], b"Hello");
    assert_eq!(read(&mut kernel, fd, &mut buf), Ok(0));
    assert_eq!(seek(&mut kernel, fd, 1, SeekWhence::Start), Ok(1));
    assert_eq!(read(&mut kernel, fd, &mut buf[..2]), Ok(2));
    assert_eq!(&buf[..2], b"el");
    assert_eq!(seek(&mut kernel, fd, 6, SeekWhence::Start), Err(SysError::InvalidArgument));
    assert_eq!(ares::syscall::write(&mut kernel, fd, b"x"), Err(SysError::InvalidArgument));
    assert_eq!(close(&mut kernel, fd), Ok(()));
}

#[test]
fn calls_without_a_current_process_are_refused() {
    let mut kernel = boot();
    let mut buf = [0u8; 4];
    assert_eq!(ares::syscall::write(&mut kernel, 1, b"x"), Err(SysError::BadFileDescriptor));
    assert_eq!(ares::syscall::write(&mut kernel, 1, b""), Ok(0));
    assert_eq!(read(&mut kernel, 0, &mut buf), Err(SysError::BadFileDescriptor));
    assert_eq!(seek(&mut kernel, 3, 0, SeekWhence::Start), Err(SysError::BadFileDescriptor));
    assert_eq!(close(&mut kernel, 3), Err(SysError::BadFileDescriptor));
    assert!(open(&mut kernel, "/scratch").is_err());
    assert!(!scratch_smoke_test(&mut kernel));
    let report = vfs_smoke_checks(&mut kernel);
    assert!(report.null_write.is_err() && report.zero_read.is_err());
    assert!(report.scratch_read.is_err() && report.fat_read.is_err());
    let step = init_shell_task(&mut kernel);
    assert_eq!(step.read, Err(SysError::BadFileDescriptor));
    assert!(step.echoed.is_none());
}

#[test]
fn smoke_checks_pass_on_a_working_kernel() {
    let mut kernel = running_kernel();
    let report = vfs_smoke_checks(&mut kernel);
    assert_eq!(report.null_write, Ok(7));
    assert_eq!(report.zero_read, Ok(16));
    assert!(report.zero_all_zero);
    assert_eq!(report.scratch_read, Ok(6));
    assert_eq!(report.fat_read, Ok(5));
    assert!(kernel.sched.table.entries[1].fds[4..].iter().all(|fd| fd.is_none()));
    assert!(scratch_smoke_test(&mut kernel));
    let pattern = smoke_pattern(512);
    assert_eq!(&pattern[..9], b"VFS-SMOKE");
    assert_eq!(pattern[9], 0x3C);
    assert_eq!(pattern[10], 0x4D);
    assert_eq!(pattern[9 + 15], 0x3B);
    assert_eq!(pattern[9 + 256], 0x3C);
    assert_eq!(
        kernel.devices.disk.data[SCRATCH_LBA * SECTOR..(SCRATCH_LBA + 1) * SECTOR].to_vec(),
        pattern
    );
    assert_eq!(smoke_pattern(4), b"VFS-".to_vec());
}

#[test]
fn shell_echoes_what_was_typed() {
    let mut kernel = running_kernel();
    let quiet = init_shell_task(&mut kernel);
    assert_eq!(quiet.read, Ok(0));
    assert!(quiet.echoed.is_none());
    // Only the idle task was ready: it got the processor, and gives it back.
    assert!(quiet.switched);
    assert_eq!(current_pid(&kernel.sched), Some(1));
    kernel.sched.need_resched = true;
    assert_eq!(ares::kernel::idle_task(&mut kernel.sched), ares::kernel::IdleStep::Switched);
    assert_eq!(current_pid(&kernel.sched), Some(2));
    let mut frame = interrupt(33, 0, KERNEL_BASE + 0x11_4000);
    let (report, eoi) = irq_handler(&mut kernel, &mut frame, input(0x23));
    assert!(matches!(report, InterruptReport::Key(true)));
    assert_eq!(eoi, vec![PortWrite { port: 0x20, value: 0x20 }]);
    let (released, _) = irq_handler(&mut kernel, &mut frame, input(0xA3));
    assert!(matches!(released, InterruptReport::Key(false)));
    let step = init_shell_task(&mut kernel);
    assert_eq!(step.read, Ok(1));
    assert_eq!(step.echoed, Some(Ok(1)));
    assert_eq!(screen_text(&kernel, 1), b"h".to_vec());
}

#[test]
fn key_wakes_who_waits_for_the_keyboard() {
    let mut kernel = running_kernel();
    {
        let waiter = &mut kernel.sched.table.entries[1];
        waiter.state = ProcessState::Blocked;
        waiter.wait_channel = Some(ares::process::types::WaitChannel::KeyboardInput);
    }
    kernel.sched.current_pid = 0;
    let mut frame = interrupt(33, 0, KERNEL_BASE + 0x11_3000);
    let (report, _) = irq_handler(&mut kernel, &mut frame, input(0x2A));
    assert!(matches!(report, InterruptReport::Key(false)));
    assert_eq!(kernel.sched.table.entries[1].state, ProcessState::Blocked);
    let (report, _) = irq_handler(&mut kernel, &mut frame, input(0x1E));
    assert!(matches!(report, InterruptReport::Key(true)));
    assert_eq!(kernel.sched.table.entries[1].state, ProcessState::Ready);
    assert_eq!(kernel.sched.table.entries[1].wait_channel, None);
    assert_eq!(kernel.devices.keyboard.state.pop(), Some(b'A'));
}

#[test]
fn interrupts_reach_their_handlers() {
    let mut kernel = running_kernel();
    let before_rip = KERNEL_BASE + 0x11_4008;
    let mut tick = interrupt(32, 0, before_rip);
    let (report, eoi) = irq_handler(&mut kernel, &mut tick, input(0));
    assert!(matches!(report, InterruptReport::Tick));
    assert_eq!(eoi, vec![PortWrite { port: 0x20, value: 0x20 }]);
    assert_eq!(kernel.timer.ticks, 1);
    assert!(kernel.sched.need_resched);
    assert_eq!(tick.rip, KERNEL_BASE + 0x11_1000);
    assert_eq!(kernel.sched.table.entries[1].preempt_return, Some(before_rip));

    let mut disk = interrupt(46, 0, before_rip);
    let (report, eoi) = irq_handler(&mut kernel, &mut disk, input(0));
    assert!(matches!(report, InterruptReport::Acknowledge(0x1F7)));
    assert_eq!(
        eoi,
        vec![PortWrite { port: 0xA0, value: 0x20 }, PortWrite { port: 0x20, value: 0x20 }]
    );

    let mut breakpoint = interrupt(3, 9, before_rip);
    assert!(matches!(
        isr_handler(&mut kernel, &mut breakpoint, input(0)),
        InterruptReport::Unhandled(3, 9)
    ));
    let mut fault = interrupt(14, 2, 0x40_0000);
    match isr_handler(&mut kernel, &mut fault, input(0)) {
        InterruptReport::PageFault(info) => {
            assert_eq!(info.address, 0xDEAD_0000);
            assert_eq!(info.rip, 0x40_0000);
            assert!(info.write && !info.present && !info.user);
        },
        _ => panic!("page fault expected"),
    }
    let mut protection = interrupt(13, 0x10, before_rip);
    match isr_handler(&mut kernel, &mut protection, input(0)) {
        InterruptReport::Fault(report, dump) => {
            assert_eq!(report.err_code, 0x10);
            assert_eq!(report.rip, before_rip);
            assert_eq!(dump.map(|d| d.pid), Some(2));
        },
        _ => panic!("fault expected"),
    }
    let mut opcode = interrupt(6, 0, before_rip);
    assert!(matches!(
        isr_handler(&mut kernel, &mut opcode, input(0)),
        InterruptReport::Fault(_, Some(_))
    ));
}

#[test]
fn user_program_writes_and_exits() {
    let mut kernel = running_kernel();
    let pid = spawn_user_process(
        &mut kernel.sched,
        &mut kernel.heap,
        &mut kernel.pm,
        &mut kernel.mem,
        &kernel.devices.fat,
        &kernel.devices.disk,
        &kernel.env,
        "hello",
        "/bin/HELLO",
    )
    .unwrap();
    assert_eq!(pid, 3);
    let snapshot = get_process(&kernel.sched, pid).unwrap();
    assert_eq!(snapshot.parent(), Some(2));
    assert_eq!(snapshot.state(), ProcessState::Ready);
    assert_eq!(snapshot.user_entry(), Some(0x40_0078));
    assert_eq!(snapshot.address_space().kind, AddressSpaceKind::User);
    let stack = snapshot.user_stack().unwrap();
    assert_eq!((stack.top, stack.size), (0x8000_0000, 8 * 4096));
    assert_eq!(kernel.sched.table.entries[2].context.rip, symbols().user_mode_trampoline);
    let space = snapshot.address_space();
    assert_eq!(
        read_user_buffer(&kernel.mem, &space, MESSAGE_AT, MESSAGE.len()),
        Ok(MESSAGE.to_vec())
    );
    assert_eq!(read_user_buffer(&kernel.mem, &space, 0x40_0000, 4), Ok(vec![0x7F, b'E', b'L', b'F']));

    assert!(ares::syscall::yield_now(&mut kernel));
    assert_eq!(current_pid(&kernel.sched), Some(pid));
    assert_eq!(kernel.sched.cpu.cr3, space.cr3);
    let mut frame = frame_of(NR_WRITE, 1, MESSAGE_AT, MESSAGE.len() as u64);
    assert_eq!(syscall_trampoline(&mut kernel, &mut frame), MESSAGE.len() as u64);
    assert_eq!(screen_text(&kernel, 12), b"Hello, user!".to_vec());
    assert_eq!((kernel.devices.console.state.row, kernel.devices.console.state.col), (1, 0));

    let mut leave = frame_of(NR_EXIT, 0, 0, 0);
    dispatch(&mut kernel, &mut leave);
    assert_eq!(current_pid(&kernel.sched), Some(2));
    assert_eq!(kernel.sched.table.entries[2].state, ProcessState::Zombie);
    assert_eq!(kernel.sched.table.entries[2].exit_code, Some(0));
    assert_eq!(
        wait_for_child(&mut kernel.sched, &mut kernel.heap, Some(pid)),
        Ok(WaitOutcome::Reaped(pid, 0))
    );
    assert_eq!(
        wait_for_child(&mut kernel.sched, &mut kernel.heap, Some(pid)),
        Err(ProcessError::ChildNotFound)
    );
}

#[test]
fn user_program_that_is_missing_or_broken_is_refused() {
    let mut kernel = running_kernel();
    let mut spawn = |path: &'static str| {
        spawn_user_process(
            &mut kernel.sched,
            &mut kernel.heap,
            &mut kernel.pm,
            &mut kernel.mem,
            &kernel.devices.fat,
            &kernel.devices.disk,
            &kernel.env,
            "prog",
            path,
        )
    };
    assert_eq!(spawn("/bin/MISSING"), Err(ProcessError::PathNotFound));
    assert_eq!(spawn("/fat/HELLO"), Err(ProcessError::PathNotFound));
    assert_eq!(spawn("/bin/HELLO.TXT"), Err(ProcessError::InvalidElf));
    assert_eq!(kernel.sched.table.entries.len(), 2);
}

#[test]
fn system_calls_of_a_user_process() {
    let mut kernel = running_kernel();
    let pid = spawn_user_process(
        &mut kernel.sched,
        &mut kernel.heap,
        &mut kernel.pm,
        &mut kernel.mem,
        &kernel.devices.fat,
        &kernel.devices.disk,
        &kernel.env,
        "hello",
        "/bin/HELLO",
    )
    .unwrap();
    assert!(ares::syscall::yield_now(&mut kernel));
    let space = get_process(&kernel.sched, pid).unwrap().address_space();
    let path_at: u64 = 0x7FFF_F000;
    let buf_at: u64 = 0x7FFF_F100;
    assert_eq!(write_user_buffer(&mut kernel.mem, &space, path_at, b"/fat/HELLO.TXT\0junk"), Ok(()));

    let fd = sys_open(&mut kernel, path_at, 19, 0);
    assert_eq!(fd, 4);
    assert_eq!(sys_read(&mut kernel, fd, buf_at, 32), 5);
    assert_eq!(read_user_buffer(&kernel.mem, &space, buf_at, 5), Ok(b"Hello".to_vec()));
    assert_eq!(sys_seek(&mut kernel, fd, 1, 0), 1);
    assert_eq!(sys_seek(&mut kernel, fd, 2, 1), 3);
    assert_eq!(sys_seek(&mut kernel, fd, (-1i64) as u64, 2), 4);
    assert_eq!(sys_seek(&mut kernel, fd, 0, 3), ERR_INVAL);
    assert_eq!(sys_seek(&mut kernel, fd, 9, 0), ERR_INVAL);
    assert_eq!(sys_read(&mut kernel, fd, buf_at, 32), 1);
    assert_eq!(read_user_buffer(&kernel.mem, &space, buf_at, 2), Ok(b"oe".to_vec()));
    assert_eq!(sys_close(&mut kernel, fd), 0);
    assert_eq!(sys_close(&mut kernel, fd), ERR_BADF);
    assert_eq!(sys_read(&mut kernel, fd, buf_at, 32), ERR_BADF);

    // Pointers that the process may not use.
    assert_eq!(sys_write(&mut kernel, 1, 0x50_0000, 4), ERR_FAULT);
    assert_eq!(sys_write(&mut kernel, 1, KERNEL_BASE, 4), ERR_FAULT);
    assert_eq!(sys_write(&mut kernel, 1, KERNEL_BASE - 2, 4), ERR_FAULT);
    assert_eq!(sys_read(&mut kernel, 0, KERNEL_BASE, 4), ERR_FAULT);
    assert_eq!(sys_read(&mut kernel, 0, 0, 4), ERR_FAULT);
    assert_eq!(sys_read(&mut kernel, 0, 0x50_0000, 4), 0);
    assert_eq!(sys_write(&mut kernel, 1, 0x50_0000, 0), 0);
    assert_eq!(sys_open(&mut kernel, 0, 5, 0), ERR_INVAL);
    assert_eq!(sys_open(&mut kernel, path_at, 0, 0), ERR_INVAL);
    assert_eq!(sys_open(&mut kernel, 0x50_0000, 5, 0), ERR_FAULT);
    assert_eq!(write_user_buffer(&mut kernel.mem, &space, path_at, b"/none\0"), Ok(()));
    assert_eq!(sys_open(&mut kernel, path_at, 6, 0), ERR_NOENT);
    assert_eq!(write_user_buffer(&mut kernel.mem, &space, path_at, &[0xFF, 0xFE, 0x2F]), Ok(()));
    assert_eq!(sys_open(&mut kernel, path_at, 3, 0), ERR_INVAL);
    assert_eq!(sys_write(&mut kernel, 9, MESSAGE_AT, 4), ERR_BADF);

    // By number.
    let mut unknown = frame_of(999, 0, 0, 0);
    assert_eq!(dispatch(&mut kernel, &mut unknown), ERR_NOSYS);
    let mut by_number = frame_of(NR_WRITE, 2, MESSAGE_AT, 5);
    assert_eq!(dispatch(&mut kernel, &mut by_number), 5);
    assert_eq!(write_user_buffer(&mut kernel.mem, &space, path_at, b"/dev/zero"), Ok(()));
    let mut open_frame = frame_of(NR_OPEN, path_at, 9, 0);
    assert_eq!(dispatch(&mut kernel, &mut open_frame), 4);
    let mut read_frame = frame_of(NR_READ, 4, buf_at, 3);
    assert_eq!(dispatch(&mut kernel, &mut read_frame), 3);
    assert_eq!(read_user_buffer(&kernel.mem, &space, buf_at, 4), Ok(vec![0, 0, 0, b'l']));
    assert_eq!(sys_read(&mut kernel, 4, 0x50_0000, 4), ERR_FAULT);
    let mut seek_frame = frame_of(NR_SEEK, 4, 0, 0);
    assert_eq!(dispatch(&mut kernel, &mut seek_frame), ERR_INVAL);
    let mut close_frame = frame_of(NR_CLOSE, 4, 0, 0);
    assert_eq!(dispatch(&mut kernel, &mut close_frame), 0);
    let mut yield_frame = frame_of(NR_YIELD, 0, 0, 0);
    assert_eq!(dispatch(&mut kernel, &mut yield_frame), 0);
    assert_eq!(current_pid(&kernel.sched), Some(2));
    assert_eq!(sys_yield(&mut kernel), 0);
    assert_eq!(current_pid(&kernel.sched), Some(pid));
    assert_eq!(sys_exit(&mut kernel, 0x1_0000_0007), 0);
    assert_eq!(kernel.sched.table.entries[2].exit_code, Some(7));
    assert_eq!(current_pid(&kernel.sched), Some(2));
}

#[test]
fn results_and_errors_share_one_number() {
    assert_eq!(encode_error(SysError::BadFileDescriptor), u64::MAX);
    assert_eq!(encode_error(SysError::Fault), u64::MAX - 1);
    assert_eq!(encode_error(SysError::NoSys), u64::MAX - 2);
    assert_eq!(encode_error(SysError::InvalidArgument), u64::MAX - 3);
    assert_eq!(encode_error(SysError::NoEntry), u64::MAX - 4);
    assert_eq!(encode_error(SysError::NoMemory), u64::MAX - 5);
    assert_eq!(encode_error(SysError::Io), u64::MAX - 6);
    assert_eq!(
        [ERR_BADF, ERR_FAULT, ERR_NOSYS, ERR_INVAL, ERR_NOENT, ERR_NOMEM, ERR_IO],
        [
            u64::MAX,
            u64::MAX - 1,
            u64::MAX - 2,
            u64::MAX - 3,
            u64::MAX - 4,
            u64::MAX - 5,
            u64::MAX - 6
        ]
    );
    assert_eq!(decode_ret(0), Ok(0));
    assert_eq!(decode_ret(u64::MAX - 7), Ok(u64::MAX - 7));
    assert_eq!(decode_ret(ERR_IO), Err(SysError::Io));
    assert_eq!(decode_ret(ERR_NOENT), Err(SysError::NoEntry));
    assert_eq!(decode_ret(ERR_BADF), Err(SysError::BadFileDescriptor));
    assert_eq!(decode_seek(5, 0), Ok(SeekFrom::Start(5)));
    assert_eq!(decode_seek(u64::MAX, 0), Err(SysError::InvalidArgument));
    assert_eq!(decode_seek(u64::MAX, 1), Ok(SeekFrom::Current(-1)));
    assert_eq!(decode_seek(3, 2), Ok(SeekFrom::End(3)));
    assert_eq!(decode_seek(0, 3), Err(SysError::InvalidArgument));
    assert_eq!(SeekWhence::Start.as_raw(), 0);
    assert_eq!(SeekWhence::Cur.as_raw(), 1);
    assert_eq!(SeekWhence::End.as_raw(), 2);
}

#[test]
fn user_copies_stay_in_mapped_user_memory() {
    let (mut mem, _pm, space) = user_space();
    let top: u64 = 0x8000_0000;
    assert_eq!(ensure_user_range(KERNEL_BASE - 4, 4), Ok(()));
    assert_eq!(ensure_user_range(KERNEL_BASE - 4, 5), Err(ProcessError::InvalidUserPointer));
    assert_eq!(ensure_user_range(u64::MAX, 0), Ok(()));

    // Inside the stack, across its two pages.
    assert_eq!(copy_to_user(&mut mem, &space, top - 0x1004, b"abcdefgh"), Ok(()));
    let mut back = [0u8; 8];
    assert_eq!(copy_from_user(&mem, &space, &mut back, top - 0x1004), Ok(()));
    assert_eq!(&back, b"abcdefgh");
    assert_eq!(read_user_buffer(&mem, &space, top - 0x1000, 4), Ok(b"efgh".to_vec()));

    // In the kernel's half: refused, nothing written.
    let snapshot = mem.words.clone();
    assert_eq!(
        copy_to_user(&mut mem, &space, KERNEL_BASE - 2, b"xyz"),
        Err(ProcessError::InvalidUserPointer)
    );
    assert_eq!(
        copy_to_user(&mut mem, &space, KERNEL_BASE + 0x1000, b"xyz"),
        Err(ProcessError::InvalidUserPointer)
    );
    assert_eq!(
        copy_from_user(&mem, &space, &mut back, u64::MAX - 3),
        Err(ProcessError::InvalidUserPointer)
    );
    assert_eq!(mem.words, snapshot);

    // A page that is not mapped.
    assert_eq!(
        copy_to_user(&mut mem, &space, 0x40_0000, b"xyz"),
        Err(ProcessError::UserMemoryNotPresent)
    );
    assert_eq!(
        copy_from_user(&mem, &space, &mut back, top - 0x2000 - 4),
        Err(ProcessError::UserMemoryNotPresent)
    );
    assert_eq!(mem.words, snapshot);
    // Past the top of the stack: the page before is written, then the copy ends.
    assert_eq!(
        copy_to_user(&mut mem, &space, top - 2, b"WXYZ"),
        Err(ProcessError::UserMemoryNotPresent)
    );
    assert_eq!(read_user_buffer(&mem, &space, top - 2, 2), Ok(b"WX".to_vec()));
    assert_eq!(copy_to_user(&mut mem, &space, 0x40_0000, b""), Ok(()));
}

#[test]
fn broken_images_are_refused() {
    let good = hello_elf();
    let image = elf::parse(&good).unwrap();
    assert_eq!(image.entry, 0x40_0078);
    assert_eq!(image.segments.len(), 1);
    let segment = image.segments[0];
    assert_eq!(segment.vaddr, 0x40_0000);
    assert_eq!(segment.filesz, good.len() as u64);
    assert_eq!(segment.memsz, good.len() as u64);
    assert_eq!(segment.offset, 0);
    assert_eq!(segment.flags, 5);
    assert_eq!(segment.align, 0x1000);
    assert!(elf::segment_flags_executable(5));
    assert!(!elf::segment_flags_writable(5));
    assert!(elf::segment_flags_writable(6));

    assert_eq!(elf::parse(&good[..63]).err(), Some(ElfError::InvalidHeader));
    let broken = |at: usize, value: u8| {
        let mut bytes = hello_elf();
        bytes[at] = value;
        elf::parse(&bytes).err()
    };
    assert_eq!(broken(1, b'X'), Some(ElfError::InvalidMagic));
    assert_eq!(broken(4, 1), Some(ElfError::UnsupportedClass));
    assert_eq!(broken(5, 2), Some(ElfError::UnsupportedEncoding));
    assert_eq!(broken(18, 0x28), Some(ElfError::UnsupportedMachine));
    assert_eq!(broken(54, 32), Some(ElfError::InvalidProgramHeader));
    assert_eq!(broken(56, 0), Some(ElfError::InvalidProgramHeader));
    assert_eq!(broken(56, 2), Some(ElfError::InvalidProgramHeader));
    assert_eq!(broken(64, 2), Some(ElfError::NoLoadableSegments));
    let mut empty = hello_elf();
    empty[104..112].fill(0);
    assert_eq!(elf::parse(&empty).err(), Some(ElfError::NoLoadableSegments));
    let mut unaligned = hello_elf();
    unaligned[112..120].fill(0);
    assert_eq!(elf::parse(&unaligned).unwrap().segments[0].align, 1);
}

#[test]
fn device_checks_name_what_is_missing() {
    let mut kernel = boot();
    assert_eq!(ares::kernel::null_device_check(&mut kernel), Err(SysError::BadFileDescriptor));
    assert_eq!(
        ares::kernel::zero_device_check(&mut kernel),
        (Err(SysError::BadFileDescriptor), false)
    );
    assert!(start_scheduler(&mut kernel.sched));
    assert_eq!(ares::kernel::null_device_check(&mut kernel), Ok(7));
    assert_eq!(ares::kernel::zero_device_check(&mut kernel), (Ok(16), true));
    assert!(kernel.sched.table.entries[1].fds[4].is_none());
    // No free descriptor.
    for _ in 4..16 {
        assert!(open(&mut kernel, "/dev/console").is_ok());
    }
    assert_eq!(ares::kernel::null_device_check(&mut kernel), Err(SysError::NoMemory));
    assert_eq!(ares::kernel::zero_device_check(&mut kernel), (Err(SysError::NoMemory), false));
    // The current process is not in the table.
    kernel.sched.table.entries[1].state = ProcessState::Ready;
    kernel.sched.current_pid = 77;
    assert_eq!(ares::kernel::null_device_check(&mut kernel), Err(SysError::BadFileDescriptor));
    // Nothing is registered.
    let mut bare = boot();
    assert!(start_scheduler(&mut bare.sched));
    bare.devices.registry = ares::drivers::DriverRegistry::new();
    assert_eq!(ares::kernel::null_device_check(&mut bare), Err(SysError::NoEntry));
    assert_eq!(ares::kernel::zero_device_check(&mut bare), (Err(SysError::NoEntry), false));
}

#[test]
fn user_program_is_refused_when_the_pids_have_run_out() {
    let mut kernel = running_kernel();
    kernel.sched.table.next_pid = u32::MAX;
    let free_before = heap::remaining_bytes(&kernel.heap);
    assert_eq!(
        spawn_user_process(
            &mut kernel.sched,
            &mut kernel.heap,
            &mut kernel.pm,
            &mut kernel.mem,
            &kernel.devices.fat,
            &kernel.devices.disk,
            &kernel.env,
            "hello",
            "/bin/HELLO",
        ),
        Err(ProcessError::TooManyProcesses)
    );
    assert_eq!(kernel.sched.table.entries.len(), 2);
    assert_eq!(kernel.sched.table.next_pid, u32::MAX);
    assert_eq!(heap::remaining_bytes(&kernel.heap), free_before);
    assert_eq!(current_pid(&kernel.sched), Some(2));
}
