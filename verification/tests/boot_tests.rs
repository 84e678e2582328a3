use ares::arch::interrupts::{self, Pic};
use ares::devices::Devices;
use ares::drivers::mock::MemBlockDevice;
use ares::kernel::{kmain, scratch_smoke_test, start_tasks, BootInfo, Kernel};
use ares::mem::heap;
use ares::mem::phys::{self, KernelImage};
use ares::process::api::{init, spawn_kernel_process};
use ares::process::fd::{FileDescriptor, OpenFile};
use ares::process::pcb::KernelEnv;
use ares::process::sched::{current_pid, start_scheduler, Cpu, Scheduler};
use ares::process::types::{Context, KernelSymbols, ProcessError};
use ares::syscall::{close, open, SysError};
use ares::vfs::ata::AtaScratchFile;
use ares::vfs::VfsFile;

const KERNEL_BASE: u64 = 0xFFFF_8000_0000_0000;

fn symbols() -> KernelSymbols {
    KernelSymbols {
        process_exit: KERNEL_BASE + 0x11_0000,
        preempt_trampoline: KERNEL_BASE + 0x11_1000,
        user_mode_trampoline: KERNEL_BASE + 0x11_2000,
        idle_task: KERNEL_BASE + 0x11_3000,
    }
}

fn boot_info() -> BootInfo {
    BootInfo {
        multiboot_info: Vec::new(),
        image: KernelImage {
            load_start: KERNEL_BASE + 0x10_0000,
            bss_end: KERNEL_BASE + 0x1F_F800,
            heap_start: KERNEL_BASE + 0x20_0000,
            heap_end: KERNEL_BASE + 0x30_0000,
        },
        symbols: symbols(),
        stubs: (0..48u64).map(|i| KERNEL_BASE + 0x10_1000 + 16 * i).collect(),
        idt_base: KERNEL_BASE + 0x10_8000,
        kernel_cr3: 0x1000,
        init_task: KERNEL_BASE + 0x11_4000,
        pic_masks: (0xFF, 0xFF),
        efer: 0x500,
        syscall_entry: KERNEL_BASE + 0x11_5000,
    }
}

fn disk(sectors: usize) -> MemBlockDevice {
    MemBlockDevice::new("ata0-master", vec![0u8; sectors * 512], 512)
}

fn tasks_on(heap_bytes: u64) -> Result<Kernel<MemBlockDevice>, ProcessError> {
    let boot = boot_info();
    let mut pic = Pic::new();
    let (table, _) = interrupts::init(&mut pic, &boot.stubs, boot.idt_base, 0xFF, 0xFF);
    let pm = phys::init(&[], 0x30_0000);
    let kernel_heap = heap::init(KERNEL_BASE + 0x20_0000, heap_bytes);
    start_tasks(&boot, pm, kernel_heap, Devices::new(disk(8)), table, pic).map(|up| up.0)
}

#[test]
fn tasks_start_where_the_heap_has_room_for_both() {
    // The idle task alone takes a stack of 16 KiB and 3264 bytes of records.
    assert_eq!(tasks_on(0).err(), Some(ProcessError::StackAllocationFailed));
    assert_eq!(tasks_on(16 * 1024).err(), Some(ProcessError::AllocationFailed));
    assert_eq!(tasks_on(20 * 1024).err(), Some(ProcessError::StackAllocationFailed));
    // Both take two stacks, two region lists of 128 bytes and the table's 3136.
    assert_eq!(tasks_on(36160 - 16).err(), Some(ProcessError::AllocationFailed));
    assert_eq!(heap::remaining_bytes(&tasks_on(36160).unwrap().heap), 0);
    let kernel = tasks_on(36 * 1024).unwrap();
    assert_eq!(kernel.sched.table.entries.len(), 2);
    assert_eq!(kernel.sched.table.next_pid, 3);
    assert_eq!(kernel.timer.frequency_hz, 100);
    assert_eq!(kernel.pic.mask_master, 0xFE);
    assert_eq!(heap::remaining_bytes(&kernel.heap), 36 * 1024 - 2 * (16 * 1024 + 128) - 3136);
}

#[test]
fn table_gives_everything_back() {
    let mut sched = Scheduler::new(Cpu { context: Context::new(), cr3: 0x1000, rsp0: 0 });
    let mut kernel_heap = heap::init(KERNEL_BASE + 0x40_0000, heap::HEAP_SIZE);
    let env = KernelEnv { kernel_cr3: 0x1000, symbols: symbols(), scratch: None };
    assert_eq!(init(&mut sched, &mut kernel_heap, &env), Ok(()));
    for _ in 0..6 {
        spawn_kernel_process(&mut sched, &mut kernel_heap, &env, "task", KERNEL_BASE).unwrap();
    }
    assert_eq!(sched.table.backing.capacity, 8);
    assert!(heap::remaining_bytes(&kernel_heap) < heap::HEAP_SIZE - 7 * 16 * 1024);
    sched.table.release(&mut kernel_heap);
    assert_eq!(heap::remaining_bytes(&kernel_heap), heap::HEAP_SIZE);
    assert_eq!(kernel_heap.list.regions.len(), 1);
}

#[test]
fn scratch_check_needs_the_scratch_file_behind_its_descriptor() {
    let (mut working, _) = kmain(&boot_info(), disk(4200)).unwrap();
    assert!(start_scheduler(&mut working.sched));
    assert!(scratch_smoke_test(&mut working));
    // The descriptor is closed.
    assert_eq!(close(&mut working, 3), Ok(()));
    assert!(!scratch_smoke_test(&mut working));
    // The descriptor is open on a device.
    assert_eq!(open(&mut working, "/dev/console"), Ok(3));
    assert!(!scratch_smoke_test(&mut working));
    assert_eq!(close(&mut working, 3), Ok(()));
    assert_eq!(open(&mut working, "/scratch"), Ok(3));
    assert!(scratch_smoke_test(&mut working));
    assert_eq!(current_pid(&working.sched), Some(2));

    // The sector of the scratch file lies past the end of the disk.
    let (mut short, _) = kmain(&boot_info(), disk(8)).unwrap();
    assert!(start_scheduler(&mut short.sched));
    assert!(short.devices.scratch.is_some());
    assert!(!scratch_smoke_test(&mut short));
    assert_eq!(open(&mut short, "/fat/HELLO.TXT"), Err(SysError::NoEntry));
}

#[test]
fn files_have_names_and_flush() {
    let scratch = AtaScratchFile::init(2048, "ata0-scratch").unwrap();
    let file = OpenFile::Scratch(scratch);
    assert_eq!(file.name(), "ata0-scratch");
    let mut device = disk(8);
    assert_eq!(file.flush(&mut device), Ok(()));
    assert_eq!(scratch.flush(&mut device), Ok(()));
    let mut devices = Devices::new(disk(8));
    let mut console = FileDescriptor::Char(ares::drivers::CharDeviceId::Console);
    assert_eq!(console.flush(&mut devices), Ok(()));
    let mut handle = FileDescriptor::Vfs(ares::process::fd::VfsHandle::new(file));
    assert_eq!(handle.flush(&mut devices), Ok(()));
}

fn volume_image(sectors_per_cluster: u8) -> Vec<u8> {
    let mut image = vec![0u8; 16 * 512];
    image[11..13].copy_from_slice(&512u16.to_le_bytes());
    image[13] = sectors_per_cluster;
    image[14..16].copy_from_slice(&1u16.to_le_bytes());
    image[16] = 1;
    image[17..19].copy_from_slice(&16u16.to_le_bytes());
    image[22..24].copy_from_slice(&1u16.to_le_bytes());
    image[512..516].copy_from_slice(&[0xF8, 0xFF, 0xFF, 0xFF]);
    image[1024..1035].copy_from_slice(b"HELLO   TXT");
    image[1024 + 26..1024 + 28].copy_from_slice(&2u16.to_le_bytes());
    image[1024 + 28..1024 + 32].copy_from_slice(&5u32.to_le_bytes());
    image[1536..1541].copy_from_slice(b"Hello");
    image
}

#[test]
fn volume_with_clusters_of_no_sectors_is_mounted_but_not_kept() {
    let device = MemBlockDevice::new("disk", volume_image(0), 512);
    let volume = ares::fs::fat::mount(&device, 0).unwrap();
    assert_eq!(volume.sectors_per_cluster, 0);
    assert_eq!(volume.bytes_per_cluster, 0);
    assert_eq!((volume.fat_lba, volume.root_dir_lba, volume.data_lba), (1, 2, 3));
    let good = MemBlockDevice::new("disk", volume_image(1), 512);
    assert_eq!(ares::fs::fat::mount(&good, 0).unwrap().bytes_per_cluster, 512);

    // The kernel keeps only a volume that it can read.
    let mut disk_bytes = vec![0u8; 4096 * 512];
    disk_bytes.extend_from_slice(&volume_image(0));
    let (kernel, _) =
        kmain(&boot_info(), MemBlockDevice::new("ata0-master", disk_bytes, 512)).unwrap();
    assert!(kernel.devices.scratch.is_some());
    assert!(kernel.devices.fat.is_none());
    let mut disk_bytes = vec![0u8; 4096 * 512];
    disk_bytes.extend_from_slice(&volume_image(1));
    let (mut kernel, _) =
        kmain(&boot_info(), MemBlockDevice::new("ata0-master", disk_bytes, 512)).unwrap();
    assert!(kernel.devices.fat.is_some());

    // A name under the volume that is no short name is an invalid argument.
    assert!(start_scheduler(&mut kernel.sched));
    assert_eq!(open(&mut kernel, "/fat/BAD-NAME.TXT"), Err(SysError::InvalidArgument));
    assert_eq!(open(&mut kernel, "/fat/TOOLONGNAME.TXT"), Err(SysError::InvalidArgument));
    assert_eq!(open(&mut kernel, "/fat/A.B.C"), Err(SysError::InvalidArgument));
    assert_eq!(open(&mut kernel, "/fat/"), Err(SysError::InvalidArgument));
    assert_eq!(open(&mut kernel, "/fat/MISSING.TXT"), Err(SysError::NoEntry));
    assert!(kernel.sched.table.entries[1].fds[4].is_none());
    assert_eq!(open(&mut kernel, "/fat/hello.txt"), Ok(4));
    assert!(ares::syscall::bad_fat_name(b"/fat/a b"));
    assert!(!ares::syscall::bad_fat_name(b"/fat/A_1.TXT"));
    assert!(!ares::syscall::bad_fat_name(b"/dev/a b"));
}

#[test]
fn built_in_devices_are_registered_in_their_order() {
    let mut kernel_heap = heap::init(KERNEL_BASE + 0x20_0000, 4096);
    let mut registry = ares::drivers::DriverRegistry::new();
    let mut console = ares::drivers::console::Console::instance();
    let report = ares::drivers::builtin::register(&mut registry, &mut kernel_heap, &mut console);
    assert_eq!(report, (Ok(()), Ok(()), Ok(())));
    assert_eq!(
        ares::drivers::for_each_char_device(&registry),
        vec![
            ares::drivers::CharDeviceId::Console,
            ares::drivers::CharDeviceId::Null,
            ares::drivers::CharDeviceId::Zero
        ]
    );
    assert_eq!(heap::remaining_bytes(&kernel_heap), 4096 - 96);
    // Without room on the heap nothing is registered.
    let mut none = heap::init(KERNEL_BASE + 0x20_0000, 64);
    let mut empty = ares::drivers::DriverRegistry::new();
    let failed = ares::drivers::builtin::register(&mut empty, &mut none, &mut console);
    assert_eq!(
        failed,
        (
            Err(ares::drivers::DriverError::RegistryFull),
            Err(ares::drivers::DriverError::RegistryFull),
            Err(ares::drivers::DriverError::RegistryFull)
        )
    );
    assert!(empty.iter().is_empty());
    // A console that cannot start is left out; the others are still tried.
    let mut broken = ares::drivers::console::Console::instance();
    broken.screen.cells.pop();
    let mut third = ares::drivers::DriverRegistry::new();
    let partly = ares::drivers::builtin::register(&mut third, &mut kernel_heap, &mut broken);
    assert_eq!(partly, (Err(ares::drivers::DriverError::InitFailed), Ok(()), Ok(())));
    assert_eq!(third.iter().len(), 2);
}

#[test]
fn file_checks_report_the_step_that_failed() {
    let mut disk_bytes = vec![0u8; 4096 * 512];
    disk_bytes.extend_from_slice(&volume_image(1));
    let (mut kernel, _) =
        kmain(&boot_info(), MemBlockDevice::new("ata0-master", disk_bytes, 512)).unwrap();
    assert_eq!(
        ares::kernel::scratch_file_check(&mut kernel),
        Err(SysError::BadFileDescriptor)
    );
    assert_eq!(ares::kernel::fat_file_check(&mut kernel), Err(SysError::BadFileDescriptor));
    assert!(start_scheduler(&mut kernel.sched));
    assert_eq!(ares::kernel::scratch_file_check(&mut kernel), Ok(6));
    assert_eq!(ares::kernel::fat_file_check(&mut kernel), Ok(5));
    assert!(kernel.sched.table.entries[1].fds[4].is_none());
    assert_eq!(&kernel.devices.disk.data[2048 * 512..2048 * 512 + 8], b"seektest");
    // Without the volume the open of its file fails, and nothing is read.
    kernel.devices.fat = None;
    assert_eq!(ares::kernel::fat_file_check(&mut kernel), Err(SysError::NoEntry));
    // Without the scratch file likewise.
    kernel.devices.scratch = None;
    assert_eq!(ares::kernel::scratch_file_check(&mut kernel), Err(SysError::NoEntry));
}

#[test]
fn geometry_is_worked_out_from_the_boot_sector() {
    let image = volume_image(4);
    let volume = ares::fs::fat::FatVolume::geometry(&image[..512], 100).unwrap();
    assert_eq!(volume.start_lba, 100);
    assert_eq!((volume.fat_lba, volume.root_dir_lba, volume.data_lba), (101, 102, 103));
    assert_eq!(volume.root_dir_sectors, 1);
    assert_eq!(volume.bytes_per_cluster, 2048);
    let mut other = volume_image(1);
    other[11..13].copy_from_slice(&1024u16.to_le_bytes());
    assert_eq!(
        ares::fs::fat::FatVolume::geometry(&other[..512], 0).err(),
        Some(ares::fs::fat::FatError::Io)
    );
    assert_eq!(
        ares::fs::fat::FatVolume::geometry(&image[..512], u64::MAX).err(),
        Some(ares::fs::fat::FatError::Io)
    );
}
