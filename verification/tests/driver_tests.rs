use ares::bytes::{bytes_equal, read_u16_le, read_u32_le, read_u64_le};
use ares::devices::Devices;
use ares::drivers::console::{self, Console};
use ares::drivers::mock::MemBlockDevice;
use ares::drivers::{
    self, BlockDevice, CharDevice, CharDeviceId, Driver, DriverError, DriverKind, DriverRegistry,
    DriverSlot,
};
use ares::mem::backing::{Backing, Growth};
use ares::mem::heap::{self, Layout};
use ares::mem::phys::{FrameAllocator, MemoryMap, PhysicalMemory};
use ares::process::api::{allocate_for_process, init};
use ares::process::fd::FileDescriptor;
use ares::process::files::{close_fd, open_path, resolve_path};
use ares::process::pcb::KernelEnv;
use ares::process::sched::{Cpu, Scheduler};
use ares::process::space::create_default_user_address_space;
use ares::process::types::{
    AddressSpace, AddressSpaceKind, Context, KernelSymbols, MemoryPermissions, MemoryRegionKind,
    ProcessError, UserStack,
};
use ares::user::Credentials;
use ares::utf8::is_valid_utf8;

const KERNEL_BASE: u64 = 0xFFFF_8000_0000_0000;

fn text_of(console: &Console, row: usize, len: usize) -> Vec<u8> {
    console.screen.cells[row * 80..row * 80 + len].iter().map(|cell| (cell & 0xFF) as u8).collect()
}

fn env() -> KernelEnv {
    KernelEnv {
        kernel_cr3: 0x1000,
        symbols: KernelSymbols {
            process_exit: KERNEL_BASE + 0x1000,
            preempt_trampoline: KERNEL_BASE + 0x2000,
            user_mode_trampoline: KERNEL_BASE + 0x3000,
            idle_task: KERNEL_BASE + 0x4000,
        },
        scratch: None,
    }
}

#[test]
fn little_endian_numbers_are_read_inside_the_bytes_only() {
    let bytes = [0x01u8, 0x02, 0x03, 0x04, 0x05, 0x06, 0x07, 0x08, 0x09];
    assert_eq!(read_u16_le(&bytes, 0), Some(0x0201));
    assert_eq!(read_u16_le(&bytes, 7), Some(0x0908));
    assert_eq!(read_u16_le(&bytes, 8), None);
    assert_eq!(read_u32_le(&bytes, 1), Some(0x0504_0302));
    assert_eq!(read_u32_le(&bytes, 6), None);
    assert_eq!(read_u64_le(&bytes, 1), Some(0x0908_0706_0504_0302));
    assert_eq!(read_u64_le(&bytes, 2), None);
    assert_eq!(read_u64_le(&bytes, usize::MAX), None);
    assert!(bytes_equal(b"abc", b"abc"));
    assert!(!bytes_equal(b"abc", b"abd"));
    assert!(!bytes_equal(b"abc", b"ab"));
    assert!(bytes_equal(b"", b""));
}

#[test]
fn utf8_is_told_from_other_bytes() {
    assert!(is_valid_utf8(b""));
    assert!(is_valid_utf8(b"plain ascii"));
    assert!(is_valid_utf8("gr\u{fc}n \u{20ac} \u{1F600}".as_bytes()));
    assert!(!is_valid_utf8(&[0x80]));
    assert!(!is_valid_utf8(&[0xC3]));
    assert!(!is_valid_utf8(&[0xC0, 0x80]));
    assert!(!is_valid_utf8(&[0xE0, 0x80, 0x80]));
    assert!(!is_valid_utf8(&[0xED, 0xA0, 0x80]));
    assert!(!is_valid_utf8(&[0xF4, 0x90, 0x80, 0x80]));
    assert!(!is_valid_utf8(&[0xF5, 0x80, 0x80, 0x80]));
    assert!(!is_valid_utf8(&[0x61, 0xFF]));
    assert!(is_valid_utf8(&[0xF4, 0x8F, 0xBF, 0xBF]));
}

#[test]
fn console_breaks_lines_and_scrolls() {
    let mut screen = Console::instance();
    assert_eq!(screen.init(), Ok(()));
    assert_eq!(screen.name(), "console");
    assert_eq!(screen.kind(), DriverKind::Char);
    assert_eq!((screen.state.row, screen.state.col), (0, 0));
    assert_eq!(CharDevice::write(&mut screen, b"ab\tc\rd\n"), Ok(7));
    assert_eq!(text_of(&screen, 0, 2), b"db".to_vec());
    assert_eq!((screen.screen.cells[8] & 0xFF) as u8, b'c');
    assert_eq!((screen.state.row, screen.state.col), (1, 0));
    let mut none = [0u8; 4];
    assert_eq!(CharDevice::read(&mut screen, &mut none), Ok(0));

    // A full line goes on in the next row.
    let line = [b'x'; 81];
    assert_eq!(console::write_bytes(&mut screen, &line), Ok(81));
    assert_eq!((screen.state.row, screen.state.col), (2, 1));
    assert_eq!(text_of(&screen, 1, 80), vec![b'x'; 80]);
    // A tab near the end of the line breaks it.
    assert_eq!(console::write_bytes(&mut screen, &[b'y'; 71]), Ok(71));
    assert_eq!((screen.state.row, screen.state.col), (2, 72));
    assert_eq!(console::write_bytes(&mut screen, b"\t"), Ok(1));
    assert_eq!((screen.state.row, screen.state.col), (3, 0));

    // At the last row the screen moves up.
    for _ in 0..21 {
        console::new_line(&mut screen);
    }
    assert_eq!((screen.state.row, screen.state.col), (24, 0));
    console::put_char(&mut screen, b'z');
    console::new_line(&mut screen);
    assert_eq!((screen.state.row, screen.state.col), (24, 0));
    assert_eq!(text_of(&screen, 23, 1), b"z".to_vec());
    assert_eq!(text_of(&screen, 0, 80), vec![b'x'; 80]);
    console::clear(&mut screen);
    assert_eq!((screen.state.row, screen.state.col), (0, 0));
    assert_eq!(text_of(&screen, 23, 1), b" ".to_vec());
    assert_eq!(console::driver(), CharDeviceId::Console);
}

#[test]
fn memory_disk_reads_and_writes_whole_blocks() {
    let mut disk = MemBlockDevice::new("disk", vec![0u8; 4 * 512], 512);
    assert_eq!(disk.name(), "disk");
    assert_eq!(disk.kind(), DriverKind::Block);
    assert_eq!(disk.init(), Ok(()));
    assert_eq!(disk.block_size(), 512);
    let mut block = vec![0xABu8; 512];
    block[0] = 1;
    block[511] = 2;
    assert_eq!(disk.write_blocks(3, &block), Ok(()));
    assert_eq!(disk.data[3 * 512], 1);
    assert_eq!(disk.data[4 * 512 - 1], 2);
    assert_eq!(disk.data[3 * 512 - 1], 0);
    let mut two = vec![0u8; 1024];
    assert_eq!(disk.read_blocks(2, &mut two), Ok(()));
    assert_eq!(two[..512], [0u8; 512]);
    assert_eq!(two[512..], block[..]);
    assert_eq!(disk.read_blocks(3, &mut two), Err(DriverError::IoError));
    assert_eq!(disk.write_blocks(4, &block), Err(DriverError::IoError));
    assert_eq!(disk.write_blocks(u64::MAX, &block), Err(DriverError::IoError));
    let mut odd = vec![0u8; 100];
    assert_eq!(disk.read_blocks(0, &mut odd), Err(DriverError::Unsupported));
    assert_eq!(disk.write_blocks(0, &odd), Err(DriverError::Unsupported));
    assert_eq!(disk.flush(), Ok(()));
    disk.shutdown();
}

#[test]
fn registry_grows_with_its_drivers() {
    let mut kernel_heap = heap::init(KERNEL_BASE + 0x20_0000, 64 * 1024);
    let mut registry = drivers::init();
    assert!(drivers::list_drivers(&registry).is_empty());
    let before = heap::remaining_bytes(&kernel_heap);
    let mut screen = Console::instance();
    assert_eq!(
        drivers::register_builtin(&mut registry, &mut kernel_heap, &mut screen),
        (Ok(()), Ok(()), Ok(()))
    );
    assert_eq!(registry.backing.capacity, 4);
    assert_eq!(heap::remaining_bytes(&kernel_heap), before - 4 * 24);
    let mut disk = MemBlockDevice::new("disk0", vec![0u8; 512], 512);
    assert_eq!(drivers::register_block(&mut registry, &mut kernel_heap, &mut disk), Ok(()));
    assert_eq!(registry.register_block(&mut kernel_heap, "disk1"), Ok(()));
    assert_eq!(registry.backing.capacity, 8);
    assert_eq!(heap::remaining_bytes(&kernel_heap), before - 8 * 24);
    assert_eq!(registry.register_char(&mut kernel_heap, CharDeviceId::Keyboard), Ok(()));
    assert_eq!(registry.iter().len(), 6);
    assert!(matches!(registry.iter()[3], DriverSlot::Block("disk0")));
    assert!(matches!(registry.iter()[5], DriverSlot::Char(CharDeviceId::Keyboard)));
    assert_eq!(registry.iter()[5].name(), Some("keyboard"));
    assert_eq!(registry.iter()[5].kind(), Some(DriverKind::Char));
    assert_eq!(registry.iter()[5].as_char(), Some(CharDeviceId::Keyboard));
    assert_eq!(registry.iter()[5].as_block(), None);
    assert_eq!(registry.iter()[3].as_block(), Some("disk0"));
    assert_eq!(DriverSlot::empty().name(), None);
    assert_eq!(drivers::for_each_block_device(&registry), vec!["disk0", "disk1"]);
    assert_eq!(drivers::char_device_by_name(&registry, "keyboard"), Some(CharDeviceId::Keyboard));
    assert_eq!(drivers::block_device_by_name(&registry, "disk1"), Some("disk1"));
    registry.release(&mut kernel_heap);
    assert_eq!(heap::remaining_bytes(&kernel_heap), before);

    // A heap without room refuses the registration.
    let mut full = heap::init(KERNEL_BASE + 0x20_0000, 64);
    let mut small = DriverRegistry::new();
    assert_eq!(small.register_block(&mut full, "disk"), Err(DriverError::RegistryFull));
    assert!(small.iter().is_empty());
}

#[test]
fn table_blocks_double_from_four() {
    let mut kernel_heap = heap::init(KERNEL_BASE + 0x20_0000, 4096);
    let mut block = Backing::new();
    assert_eq!(block.capacity, 0);
    assert_eq!(block.grow(&mut kernel_heap, 0, 32), Growth::Enough);
    assert_eq!(block.grow(&mut kernel_heap, 1, 32), Growth::Grown);
    assert_eq!(block.capacity, 4);
    assert_eq!(heap::remaining_bytes(&kernel_heap), 4096 - 128);
    assert_eq!(block.grow(&mut kernel_heap, 4, 32), Growth::Enough);
    assert_eq!(block.grow(&mut kernel_heap, 9, 32), Growth::Grown);
    assert_eq!(block.capacity, 16);
    assert_eq!(heap::remaining_bytes(&kernel_heap), 4096 - 512);
    assert_eq!(block.grow(&mut kernel_heap, 1000, 32), Growth::OutOfMemory);
    assert_eq!(block.capacity, 16);
    assert_eq!(block.grow(&mut kernel_heap, usize::MAX, 32), Growth::CapacityOverflow);
    assert_eq!(block.grow(&mut kernel_heap, 17, u64::MAX / 2), Growth::LayoutOverflow);
    block.release(&mut kernel_heap, 32);
    assert_eq!(block.capacity, 0);
    assert_eq!(heap::remaining_bytes(&kernel_heap), 4096);
}

#[test]
fn character_devices_read_and_write() {
    let mut devices = Devices::new(MemBlockDevice::new("disk", vec![0u8; 512], 512));
    let mut buf = [7u8; 3];
    assert_eq!(devices.char_write(CharDeviceId::Null, b"gone"), Ok(4));
    assert_eq!(devices.char_read(CharDeviceId::Null, &mut buf), Ok(0));
    assert_eq!(devices.char_read(CharDeviceId::Zero, &mut buf), Ok(3));
    assert_eq!(buf, [0u8; 3]);
    assert_eq!(devices.char_write(CharDeviceId::Zero, b"gone"), Ok(4));
    assert_eq!(devices.char_write(CharDeviceId::Console, b"hi"), Ok(2));
    assert_eq!(text_of(&devices.console, 0, 2), b"hi".to_vec());
    assert_eq!(devices.char_read(CharDeviceId::Keyboard, &mut buf), Ok(0));
    assert_eq!(devices.keyboard.state.push(b'k'), None);
    assert_eq!(devices.char_read(CharDeviceId::Keyboard, &mut buf), Ok(1));
    assert_eq!(buf[0], b'k');
    assert_eq!(devices.char_write(CharDeviceId::Keyboard, b"x"), Err(DriverError::Unsupported));
}

#[test]
fn paths_open_what_is_there() {
    let mut kernel_heap = heap::init(KERNEL_BASE + 0x20_0000, heap::HEAP_SIZE);
    let mut devices = Devices::new(MemBlockDevice::new("disk", vec![0u8; 512], 512));
    assert!(matches!(
        resolve_path(&devices, b"/dev/console"),
        Ok(FileDescriptor::Char(CharDeviceId::Console))
    ));
    // Nothing is registered or mounted yet.
    assert_eq!(resolve_path(&devices, b"/dev/null").err(), Some(ProcessError::PathNotFound));
    assert_eq!(resolve_path(&devices, b"/dev/zero").err(), Some(ProcessError::PathNotFound));
    assert_eq!(resolve_path(&devices, b"/scratch").err(), Some(ProcessError::PathNotFound));
    assert_eq!(resolve_path(&devices, b"/fat/A.TXT").err(), Some(ProcessError::PathNotFound));
    assert_eq!(resolve_path(&devices, b"").err(), Some(ProcessError::PathNotFound));
    let _ = drivers::register_builtin(&mut devices.registry, &mut kernel_heap, &mut devices.console);
    assert!(matches!(
        resolve_path(&devices, b"/dev/null"),
        Ok(FileDescriptor::Char(CharDeviceId::Null))
    ));

    let mut sched = Scheduler::new(Cpu { context: Context::new(), cr3: 0x1000, rsp0: 0 });
    assert_eq!(init(&mut sched, &mut kernel_heap, &env()), Ok(()));
    assert_eq!(open_path(&mut sched, &devices, 9, "/dev/null"), Err(ProcessError::ProcessNotFound));
    assert_eq!(open_path(&mut sched, &devices, 1, "/dev/nul"), Err(ProcessError::PathNotFound));
    for expected in 3..16 {
        assert_eq!(open_path(&mut sched, &devices, 1, "/dev/null"), Ok(expected));
    }
    assert_eq!(
        open_path(&mut sched, &devices, 1, "/dev/null"),
        Err(ProcessError::NoFreeFileDescriptors)
    );
    assert_eq!(close_fd(&mut sched, &mut devices, 1, 16), Err(ProcessError::InvalidFileDescriptor));
    assert_eq!(close_fd(&mut sched, &mut devices, 9, 3), Err(ProcessError::ProcessNotFound));
    assert_eq!(close_fd(&mut sched, &mut devices, 1, 7), Ok(()));
    assert_eq!(close_fd(&mut sched, &mut devices, 1, 7), Err(ProcessError::InvalidFileDescriptor));
    assert_eq!(open_path(&mut sched, &devices, 1, "/dev/zero"), Ok(7));
}

#[test]
fn requests_that_cannot_be_served_name_their_reason() {
    let mut kernel_heap = heap::init(KERNEL_BASE + 0x20_0000, 64 * 1024);
    let mut sched = Scheduler::new(Cpu { context: Context::new(), cr3: 0x1000, rsp0: 0 });
    assert_eq!(init(&mut sched, &mut kernel_heap, &env()), Ok(()));
    let huge = Layout { size: 1 << 20, align: 8 };
    assert_eq!(
        allocate_for_process(&mut sched, &mut kernel_heap, 1, huge, MemoryRegionKind::Heap),
        Err(ProcessError::AllocationFailed)
    );
    sched.table.next_pid = u32::MAX;
    assert_eq!(sched.table.allocate_pid(), Err(ProcessError::TooManyProcesses));
    assert_eq!(
        sched.table.spawn_kernel_process(&mut kernel_heap, &env(), "late", None, KERNEL_BASE, false),
        Err(ProcessError::TooManyProcesses)
    );
    let mut pm = PhysicalMemory {
        map: MemoryMap::new(),
        allocator: FrameAllocator::new(),
        reserved_limit: 0x10_0000,
    };
    let mut mem = ares::arch::paging::DirectMap::new();
    assert_eq!(
        create_default_user_address_space(&mut mem, &mut pm, 0x1000).err(),
        Some(ProcessError::AddressSpaceAllocationFailed)
    );
}

#[test]
fn small_values_have_their_parts() {
    let root = Credentials::root();
    assert!(root.is_privileged());
    assert_eq!((root.real_uid(), root.effective_uid(), root.real_gid(), root.effective_gid()), (0, 0, 0, 0));
    let mut user = Credentials::new(1000, 100);
    assert!(!user.is_privileged());
    assert_eq!((user.real_uid(), user.effective_gid()), (1000, 100));
    user.set_effective_uid(0);
    assert!(user.is_privileged());
    assert_eq!(user.real_uid(), 1000);
    user.set_effective_gid(5);
    user.set_real_uid(7);
    user.set_real_gid(8);
    assert_eq!((user.real_uid(), user.real_gid(), user.effective_gid()), (7, 8, 5));
    let other = user.with_effective(42, 43);
    assert_eq!((other.effective_uid(), other.effective_gid(), other.real_uid()), (42, 43, 7));
    assert_eq!(ares::user::default_stack_size(), 8 * 4096);
    assert_eq!(ares::user::stack_top(), 0x8000_0000);

    let rw = MemoryPermissions::read_write();
    assert_eq!((rw.read(), rw.write(), rw.execute()), (true, true, false));
    let ro = MemoryPermissions::read_only();
    assert_eq!((ro.read(), ro.write(), ro.execute()), (true, false, false));
    let rx = MemoryPermissions::read_execute();
    assert_eq!((rx.read(), rx.write(), rx.execute()), (true, false, true));
    assert_eq!(MemoryPermissions::new(false, true, true), MemoryPermissions { read: false, write: true, execute: true });

    let stack = UserStack::new(0x8000_0000, 0x8000);
    assert_eq!((stack.top(), stack.size(), stack.base()), (0x8000_0000, 0x8000, 0x7FFF_8000));
    let kernel = AddressSpace::kernel(0x1000);
    assert_eq!((kernel.cr3(), kernel.kind(), kernel.is_user()), (0x1000, AddressSpaceKind::Kernel, false));
    let space = AddressSpace::with_cr3(0x5000, AddressSpaceKind::User);
    assert!(space.is_user());
    let context = Context::new();
    assert_eq!((context.rip, context.rsp, context.rflags), (0, 0, 0x202));
}
