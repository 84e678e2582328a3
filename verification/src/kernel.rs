//! The kernel as one value: memory, devices, processes, interrupts; how it
//! is brought up, and what it does when an interrupt comes in.

use vstd::prelude::*;
use vstd::string::StringSliceAdditionalSpecFns;
use crate::arch::interrupts::{
    ata_primary_irq, default_handler, dispatch, general_protection_handler, invalid_opcode_handler,
    page_fault_handler, register_handler, send_eoi, spec_eoi_writes, spec_remap_writes, spec_unmask,
    FaultReport, HandlerKind, InterruptFrame, InterruptTable, PageFaultInfo, Pic, EXCEPTION_STUBS,
    IDT_ENTRIES, IRQ_KEYBOARD, IRQ_PIT, IRQ_STUBS, VECTOR_KEYBOARD, VECTOR_PIT,
};
use crate::arch::io::PortWrite;
use crate::arch::keyboard::{key_taken, keyboard_handler, spec_translate_scancode, BUFFER_SIZE};
use crate::arch::paging::DirectMap;
use crate::arch::timer::{spec_timer_writes, timer_handler, Timer, DEFAULT_FREQUENCY_HZ};
use crate::devices::Devices;
use crate::arch::console::DEFAULT_ATTR;
use crate::drivers::console::ConsoleState;
use crate::drivers::{
    register_block, register_builtin, spec_insert_block, spec_make_room, spec_register_builtin,
    BlockDevice, CharDevice, CharDeviceId, Driver, DriverError, DriverSlot,
};
use crate::fs::fat::{mount, spec_load, FatVolume};
use crate::mem::backing::Backing;
use crate::mem::heap::{
    spec_free, spec_insert_region, spec_take, KernelAllocator, ListNode, HEAP_SIZE,
};
use crate::mem::phys::{reserved_limit, spec_parse, spec_reserved_limit, link_to_phys, KernelImage, PhysicalMemory, PAGE_SIZE};
use crate::process::api::{init as process_init, spawn_kernel_process};
use crate::process::fd::{
    read_outcome, seek_outcome, write_outcome, FileDescriptor, FileIoError, OpenFile, VfsHandle,
};
use crate::process::files::{
    char_registered, console_path, spec_fd_open, spec_install_fd, dump_process, dump_shows, fat_prefix, lemma_first_free_bounds,
    null_path, scratch_path, zero_path, ProcessDump,
};
use crate::process::pcb::{spec_first_free, KernelEnv, Process};
use crate::process::sched::{
    lemma_index_of_bounds, lemma_index_of_same_pids, current_pid, exit_current, schedule_internal, spec_current_index, spec_exit_table, spec_preemptible,
    spec_woken_all, switch_outcome, wake_channel, Cpu, Scheduler,
};
use crate::process::table::{
    lemma_spawn_plan_result, spec_index_of, spec_spawn_plan, ProcessTable,
};
use crate::process::types::{
    Context, KernelSymbols, Pid, ProcessError, SeekFrom, WaitChannel, MAX_FDS, SCRATCH_FD,
};
use crate::syscall::{
    close, only_fd_changed, only_io_changed, open, open_for, open_outcome, open_outcome_on, read,
    seek, closed, did_read, fd_read_outcome, fd_seek_outcome, fd_write_outcome, opened, sought,
    spec_io_result, wrote, yielded, zeros,
    spec_map_file_io_error, spec_trim_nul, MsrWrite, SeekWhence, SysError, SysResult, FD_SCRATCH,
    FD_STDIN, FD_STDOUT,
};
use crate::vfs::ata::{lemma_scratch_round_trip, spec_scratch_write, AtaScratchFile};

verus! {

/// The sector of the scratch file.
pub const SCRATCH_LBA: u64 = 2048;

/// The first sector of the FAT volume.
pub const FAT_START_LBA: u64 = 4096;

/// All the state of the kernel.
pub struct Kernel<D: BlockDevice> {
    pub pm: PhysicalMemory,
    pub heap: KernelAllocator,
    pub mem: DirectMap,
    pub devices: Devices<D>,
    pub sched: Scheduler,
    pub env: KernelEnv,
    pub timer: Timer,
    pub pic: Pic,
    pub interrupts: InterruptTable,
}

impl<D: BlockDevice> Kernel<D> {
    /// Every part of the kernel is well formed.
    pub open spec fn wf(&self) -> bool {
        &&& self.pm.wf()
        &&& self.heap.wf()
        &&& self.devices.wf()
        &&& self.sched.wf()
        &&& self.interrupts.wf()
    }
}

/// What the boot code hands to the kernel.
pub struct BootInfo {
    /// The block of boot information from the boot loader.
    pub multiboot_info: Vec<u8>,
    /// Where the linker put the kernel and its heap.
    pub image: KernelImage,
    pub symbols: KernelSymbols,
    /// The addresses of the 48 interrupt stubs.
    pub stubs: Vec<u64>,
    /// Where the interrupt descriptor table lies.
    pub idt_base: u64,
    /// The root of the kernel's page tables.
    pub kernel_cr3: u64,
    /// The entry of the shell task.
    pub init_task: u64,
    /// The masks that the two interrupt controllers hold.
    pub pic_masks: (u8, u8),
    /// What the extended feature register holds.
    pub efer: u64,
    /// The entry stub of the system calls.
    pub syscall_entry: u64,
}

/// What the kernel asks of the machine while it comes up, in this order.
pub struct BootActions {
    /// The port writes that set up the serial port of the log.
    pub serial: Vec<PortWrite>,
    /// The port writes that move the interrupt controllers.
    pub pic: Vec<PortWrite>,
    /// The register writes that switch the system calls on.
    pub msr: Vec<MsrWrite>,
    /// The port writes that start the timer.
    pub timer: Vec<PortWrite>,
    /// The free bytes of the heap before and after its self test.
    pub heap_check: (u64, u64),
    /// Whether the banner could be written.
    pub banner: SysResult<usize>,
}

/// The interrupt controllers after boot: as they were set up with the two
/// masks, with the lines of the keyboard and of the timer let through.
pub open spec fn spec_boot_pic(mask1: u8, mask2: u8) -> Pic {
    spec_unmask(
        spec_unmask(Pic { mask_master: mask1, mask_slave: mask2 }, IRQ_KEYBOARD).0,
        IRQ_PIT,
    ).0
}

/// The port writes that let the keyboard and then the timer through.
pub open spec fn spec_boot_unmask_writes(mask1: u8, mask2: u8) -> Seq<PortWrite> {
    let first = spec_unmask(Pic { mask_master: mask1, mask_slave: mask2 }, IRQ_KEYBOARD);
    first.1 + spec_unmask(first.0, IRQ_PIT).1
}

/// Brings the kernel up.
///
/// In this order: the log; the interrupt table and controllers; the frames,
/// from the boot information; the heap; the drivers that are built in, and
/// the disk; the scratch file and the FAT volume on the disk, where it
/// started; the process table with its idle task; the system calls; the
/// timer; and the shell as the first task. The machine is then ready for
/// interrupts to be switched on and for the scheduler to run.
///
/// The kernel cannot come up without its idle task or its first task: boot
/// fails exactly where the heap that the devices leave has no room for one
/// of the two.
pub fn kmain<D: BlockDevice>(boot: &BootInfo, disk: D) -> (res: Result<
    (Kernel<D>, BootActions),
    ProcessError,
>)
    requires
        boot.stubs@.len() == EXCEPTION_STUBS + IRQ_STUBS,
        link_to_phys(boot.image.bss_end) + PAGE_SIZE <= u64::MAX,
        link_to_phys(boot.image.heap_end) + PAGE_SIZE <= u64::MAX,
    ensures
        res matches Ok((kernel, actions)) ==> {
            &&& kernel.wf()
            &&& kernel.pm.map@ == spec_parse(boot.multiboot_info@)
            &&& kernel.pm.reserved_limit == spec_reserved_limit(boot.image)
            &&& kernel.heap.start == boot.image.heap_start
            &&& kernel.heap.size == HEAP_SIZE
            &&& kernel.sched.table.initialized
            &&& kernel.sched.current_pid == 0
            &&& kernel.sched.table@.len() == 2
            &&& kernel.sched.table@[0].is_idle
            &&& kernel.sched.table@[0].pid == 1
            &&& kernel.sched.table@[0].context.rip == boot.symbols.idle_task
            &&& kernel.sched.table@[1].pid == 2
            &&& !kernel.sched.table@[1].is_idle
            &&& kernel.sched.table@[1].context.rip == boot.init_task
            &&& kernel.sched.table.idle_pid == Some(1u32)
            &&& kernel.sched.table.init_pid == Some(2u32)
            &&& kernel.env.kernel_cr3 == boot.kernel_cr3
            &&& kernel.env.symbols == boot.symbols
            &&& kernel.env.scratch == kernel.devices.scratch
            &&& kernel.timer.frequency_hz == DEFAULT_FREQUENCY_HZ
            &&& kernel.timer.ticks == 0
            &&& kernel.interrupts.handlers@[VECTOR_PIT as int] == HandlerKind::Timer
            &&& kernel.interrupts.handlers@[VECTOR_KEYBOARD as int] == HandlerKind::Keyboard
            &&& actions.serial@ == crate::arch::serial::spec_init_writes()
            &&& actions.pic@ == spec_remap_writes(32, 40, boot.pic_masks.0, boot.pic_masks.1)
            &&& actions.msr@ == crate::syscall::spec_init_writes(boot.efer, boot.syscall_entry)
            &&& actions.timer@ == spec_boot_unmask_writes(boot.pic_masks.0, boot.pic_masks.1)
                + spec_timer_writes(DEFAULT_FREQUENCY_HZ)
            &&& kernel.pic == spec_boot_pic(boot.pic_masks.0, boot.pic_masks.1)
            &&& actions.banner == Err::<usize, SysError>(SysError::BadFileDescriptor)
        },
        res matches Err(e) ==> e == ProcessError::StackAllocationFailed || e
            == ProcessError::AllocationFailed || e == ProcessError::TooManyProcesses,
        ({
            let list = spec_insert_region(Seq::empty(), boot.image.heap_start, HEAP_SIZE);
            spec_boot(list, true, res) || spec_boot(list, false, res)
        }),
{
    let serial = crate::klog::init();
    let mut pic = Pic::new();
    let (mut interrupts, pic_writes) = crate::arch::interrupts::init(
        &mut pic,
        boot.stubs.as_slice(),
        boot.idt_base,
        boot.pic_masks.0,
        boot.pic_masks.1,
    );
    let limit = reserved_limit(&boot.image);
    let pm = crate::mem::phys::init(boot.multiboot_info.as_slice(), limit);
    let mut heap = crate::mem::heap::init(boot.image.heap_start, HEAP_SIZE);
    let (devices, mut timer_and_keyboard) = start_devices(disk, &mut heap, &mut interrupts, &mut pic);
    proof {
        let idle = spec_spawn_plan(1, Backing { addr: 0, capacity: 0 }, 0, heap.list@);
        lemma_spawn_plan_result(1, Backing { addr: 0, capacity: 0 }, 0, heap.list@);
        lemma_spawn_plan_result(2, idle.table_backing, 1, spec_heap_self_test(idle.list));
    }
    let (kernel, tasks) = match start_tasks(boot, pm, heap, devices, interrupts, pic) {
        Ok(up) => up,
        Err(e) => { return Err(e); },
    };
    let mut tasks = tasks;
    timer_and_keyboard.append(&mut tasks.timer);
    Ok(
        (
            kernel,
            BootActions {
                serial,
                pic: pic_writes,
                msr: tasks.msr,
                timer: timer_and_keyboard,
                heap_check: tasks.heap_check,
                banner: tasks.banner,
            },
        ),
    )
}

/// What the second half of boot asks of the machine, and what it found.
pub struct TaskActions {
    /// The register writes that switch the system calls on.
    pub msr: Vec<MsrWrite>,
    /// The port writes that start the timer.
    pub timer: Vec<PortWrite>,
    /// The free bytes of the heap before and after its self test.
    pub heap_check: (u64, u64),
    /// Whether the banner could be written.
    pub banner: SysResult<usize>,
}

/// The second half of boot, once memory and devices are up: the process
/// table with its idle task; the system calls; the banner; the self test of
/// the heap; the timer; and the shell as the first task.
///
/// It fails where the idle task or the first task cannot be made, with the
/// error of that task's plan, and succeeds otherwise.
pub fn start_tasks<D: BlockDevice>(
    boot: &BootInfo,
    pm: PhysicalMemory,
    heap: KernelAllocator,
    devices: Devices<D>,
    interrupts: InterruptTable,
    pic: Pic,
) -> (res: Result<(Kernel<D>, TaskActions), ProcessError>)
    requires
        pm.wf(),
        heap.wf(),
        devices.wf(),
        interrupts.wf(),
    ensures
        ({
            let idle = spec_spawn_plan(1, Backing { addr: 0, capacity: 0 }, 0, heap.list@);
            let shell = spec_spawn_plan(2, idle.table_backing, 1, spec_heap_self_test(idle.list));
            match idle.result {
                Err(e) => res == Err::<(Kernel<D>, TaskActions), ProcessError>(e),
                Ok(_) => match shell.result {
                    Err(e) => res == Err::<(Kernel<D>, TaskActions), ProcessError>(e),
                    Ok(_) => res matches Ok((kernel, actions)) && {
                        &&& kernel.wf()
                        &&& kernel.pm == pm
                        &&& kernel.devices == devices
                        &&& kernel.heap.start == heap.start
                        &&& kernel.heap.size == heap.size
                        &&& kernel.heap.list@ == shell.list
                        &&& kernel.sched.table.initialized
                        &&& kernel.sched.table.backing == shell.table_backing
                        &&& kernel.sched.table.next_pid == 3
                        &&& kernel.sched.current_pid == 0
                        &&& !kernel.sched.need_resched
                        &&& kernel.sched.table@.len() == 2
                        &&& kernel.sched.table@[0].is_idle
                        &&& kernel.sched.table@[0].pid == 1
                        &&& kernel.sched.table@[0].context.rip == boot.symbols.idle_task
                        &&& kernel.sched.table@[1].pid == 2
                        &&& !kernel.sched.table@[1].is_idle
                        &&& kernel.sched.table@[1].context.rip == boot.init_task
                        &&& kernel.sched.table.idle_pid == Some(1u32)
                        &&& kernel.sched.table.init_pid == Some(2u32)
                        &&& kernel.env == (KernelEnv {
                            kernel_cr3: boot.kernel_cr3,
                            symbols: boot.symbols,
                            scratch: devices.scratch,
                        })
                        &&& kernel.timer.frequency_hz == DEFAULT_FREQUENCY_HZ
                        &&& kernel.timer.ticks == 0
                        &&& kernel.interrupts.handlers@ == interrupts.handlers@.update(
                            VECTOR_PIT as int,
                            HandlerKind::Timer,
                        )
                        &&& kernel.interrupts.idt == interrupts.idt
                        &&& kernel.pic == spec_unmask(pic, IRQ_PIT).0
                        &&& actions.msr@ == crate::syscall::spec_init_writes(
                            boot.efer,
                            boot.syscall_entry,
                        )
                        &&& actions.timer@ == spec_unmask(pic, IRQ_PIT).1 + spec_timer_writes(
                            DEFAULT_FREQUENCY_HZ,
                        )
                        &&& actions.heap_check.0 == crate::mem::heap::total_size(idle.list)
                        &&& actions.heap_check.1 == crate::mem::heap::total_size(
                            spec_heap_self_test(idle.list),
                        )
                        &&& actions.banner == Err::<usize, SysError>(SysError::BadFileDescriptor)
                    },
                },
            }
        }),
{
    let env = KernelEnv {
        kernel_cr3: boot.kernel_cr3,
        symbols: boot.symbols,
        scratch: devices.scratch,
    };
    let ghost idle = spec_spawn_plan(1, Backing { addr: 0, capacity: 0 }, 0, heap.list@);
    let ghost shell = spec_spawn_plan(2, idle.table_backing, 1, spec_heap_self_test(idle.list));
    proof {
        lemma_spawn_plan_result(1, Backing { addr: 0, capacity: 0 }, 0, heap.list@);
        lemma_spawn_plan_result(2, idle.table_backing, 1, spec_heap_self_test(idle.list));
    }
    let mut heap = heap;
    let mut sched = Scheduler::new(
        Cpu { context: Context::new(), cr3: boot.kernel_cr3, rsp0: 0 },
    );
    match process_init(&mut sched, &mut heap, &env) {
        Ok(()) => {},
        Err(e) => { return Err(e); },
    }
    let msr = crate::syscall::init(boot.efer, boot.syscall_entry);
    let mut kernel = Kernel {
        pm,
        heap,
        mem: DirectMap::new(),
        devices,
        sched,
        env,
        timer: Timer::new(),
        pic,
        interrupts,
    };
    let banner: [u8; 27] = [
        0x5B, 0x61, 0x72, 0x65, 0x73, 0x5D, 0x20, 0x42, 0x6F, 0x6F, 0x74, 0x69, 0x6E, 0x67, 0x20,
        0x41, 0x72, 0x65, 0x73, 0x20, 0x6B, 0x65, 0x72, 0x6E, 0x65, 0x6C,
        0x0A,
    ];
    let banner_result = crate::syscall::write(&mut kernel, FD_STDOUT, banner.as_slice());
    let heap_check = heap_self_test(&mut kernel.heap);
    let timer_writes = crate::arch::timer::init(
        &mut kernel.timer,
        &mut kernel.interrupts,
        &mut kernel.pic,
    );
    match spawn_kernel_process(&mut kernel.sched, &mut kernel.heap, &kernel.env, "init", boot.init_task) {
        Ok(_) => {},
        Err(e) => { return Err(e); },
    }
    Ok((kernel, TaskActions { msr, timer: timer_writes, heap_check, banner: banner_result }))
}

/// The free list after a block of `size` bytes aligned to `align` was taken
/// and given back at once. A list without room stays as it is.
pub open spec fn spec_take_and_free(list: Seq<ListNode>, size: u64, align: u64) -> Seq<ListNode> {
    let (taken, addr) = spec_take(list, size, align);
    match addr {
        None => list,
        Some(at) => spec_free(taken, at, size),
    }
}

/// The free list after the self test of the heap.
pub open spec fn spec_heap_self_test(list: Seq<ListNode>) -> Seq<ListNode> {
    spec_take_and_free(spec_take_and_free(list, 64, 8), 64, 16)
}

/// The registry and the heap's free list once the devices that the kernel
/// is built with are registered, from an empty registry.
pub open spec fn spec_built_in(list: Seq<ListNode>) -> (Seq<DriverSlot>, Backing, Seq<ListNode>) {
    let built = spec_register_builtin(Seq::empty(), Backing { addr: 0, capacity: 0 }, list, true);
    (built.0, built.1, built.2)
}

/// The heap's free list once the devices are up. `attempted` tells whether
/// the disk started, so that room for its slot was asked for.
pub open spec fn spec_devices_heap(list: Seq<ListNode>, attempted: bool) -> Seq<ListNode> {
    let built = spec_built_in(list);
    if attempted {
        spec_make_room(built.0.len(), built.1, built.2).1
    } else {
        built.2
    }
}

/// What starting the devices leaves, from a heap with the free list `list`.
///
/// The registry holds the built-in devices, and then the disk's slot where
/// the disk started and room was found. The scratch file is there exactly
/// where the disk was registered. Then the volume is mounted too, where the
/// disk holds one whose clusters have sectors: this is fixed where the
/// bytes of the disk are known. A disk that did not start leaves the heap
/// as the built-in devices left it.
pub open spec fn devices_started<D: BlockDevice>(
    list: Seq<ListNode>,
    after: Seq<ListNode>,
    devices: Devices<D>,
) -> bool {
    let built = spec_built_in(list);
    let room = spec_make_room(built.0.len(), built.1, built.2);
    &&& devices.scratch is Some ==> {
        &&& room.2
        &&& after == room.1
        &&& devices.registry.backing == room.0
        &&& devices.registry@.len() == built.0.len() + 1
        &&& devices.registry@.drop_last() == built.0
        &&& devices.registry@.last() is Block
        &&& devices.scratch->0.lba == SCRATCH_LBA
        &&& devices.scratch->0.name@ == "ata0-scratch"@
        &&& devices.disk.storage() matches Some(storage) ==> devices.fat == (match spec_load(
            storage,
            devices.disk.spec_block_size(),
            FAT_START_LBA,
        ) {
            Ok(volume) => if volume.sectors_per_cluster >= 1 {
                Some(volume)
            } else {
                None
            },
            Err(_) => None,
        })
    }
    &&& devices.scratch is None ==> {
        &&& devices.fat is None
        &&& devices.registry@ == built.0
        &&& (after == built.2 && devices.registry.backing == built.1) || (!room.2 && after
            == room.1 && devices.registry.backing == room.0)
    }
}

/// How boot ends on a heap with the free list `list` once the devices are
/// up: it fails where the idle task or the first task cannot be made, with
/// the error of that task's plan, and succeeds otherwise.
pub open spec fn spec_boot_result<D: BlockDevice>(
    list: Seq<ListNode>,
    res: Result<(Kernel<D>, BootActions), ProcessError>,
) -> bool {
    let idle = spec_spawn_plan(1, Backing { addr: 0, capacity: 0 }, 0, list);
    let shell = spec_spawn_plan(2, idle.table_backing, 1, spec_heap_self_test(idle.list));
    match idle.result {
        Err(e) => res == Err::<(Kernel<D>, BootActions), ProcessError>(e),
        Ok(_) => match shell.result {
            Err(e) => res == Err::<(Kernel<D>, BootActions), ProcessError>(e),
            Ok(_) => res matches Ok((kernel, _)) && kernel.heap.list@ == shell.list,
        },
    }
}

/// How boot ends from a heap with the free list `list`, where `attempted`
/// tells whether the disk started: the devices are left as starting them
/// leaves them, and the two tasks are made on the heap that is left then.
pub open spec fn spec_boot<D: BlockDevice>(
    list: Seq<ListNode>,
    attempted: bool,
    res: Result<(Kernel<D>, BootActions), ProcessError>,
) -> bool {
    &&& spec_boot_result(spec_devices_heap(list, attempted), res)
    &&& res matches Ok((kernel, _)) ==> devices_started(
        list,
        spec_devices_heap(list, attempted),
        kernel.devices,
    )
}

/// Starts the devices: the drivers that are built in, the keyboard with its
/// interrupt, and the disk. Where the disk started, the scratch file is set
/// up on it and the FAT volume is mounted, if there is one. Returns the
/// devices and the port writes that let the keyboard's interrupt through.
pub fn start_devices<D: BlockDevice>(
    disk: D,
    heap: &mut KernelAllocator,
    interrupts: &mut InterruptTable,
    pic: &mut Pic,
) -> (res: (Devices<D>, Vec<PortWrite>))
    requires
        old(heap).wf(),
        old(interrupts).wf(),
    ensures
        final(heap).wf(),
        final(heap).start == old(heap).start,
        final(heap).size == old(heap).size,
        final(interrupts).wf(),
        final(interrupts).handlers@ == old(interrupts).handlers@.update(
            VECTOR_KEYBOARD as int,
            HandlerKind::Keyboard,
        ),
        final(interrupts).idt == old(interrupts).idt,
        final(interrupts).idtr == old(interrupts).idtr,
        (*final(pic), res.1@) == spec_unmask(*old(pic), IRQ_KEYBOARD),
        res.0.wf(),
        res.0.keyboard.wf(),
        res.0.keyboard.state@.len() == 0,
        res.0.keyboard.initialized,
        res.0.console.state == (ConsoleState { row: 0, col: 0, attr: DEFAULT_ATTR }),
        devices_started(old(heap).list@, final(heap).list@, res.0),
{
    let mut devices = Devices::new(disk);
    assert(devices.console.spec_starts());
    let _ = register_builtin(&mut devices.registry, heap, &mut devices.console);
    let _ = devices.keyboard.init();
    register_handler(interrupts, VECTOR_KEYBOARD, HandlerKind::Keyboard);
    let unmasked = crate::arch::interrupts::enable_vector(pic, VECTOR_KEYBOARD);
    let ghost built = spec_built_in(old(heap).list@);
    let ghost before_disk = devices.registry;
    assert(devices.registry@ == built.0 && devices.registry.backing == built.1 && heap.list@
        == built.2);
    let registered = register_block(&mut devices.registry, heap, &mut devices.disk);
    proof {
        if registered != Err::<(), DriverError>(DriverError::InitFailed) {
            let name = choose|name: &'static str| #[trigger]
                spec_insert_block(before_disk, built.2, name) == (
                    devices.registry@,
                    devices.registry.backing,
                    heap.list@,
                    registered,
                );
            assert(spec_insert_block(before_disk, built.2, name) == (
                devices.registry@,
                devices.registry.backing,
                heap.list@,
                registered,
            ));
        }
    }
    match registered {
        Ok(()) => {
            devices.scratch = AtaScratchFile::init(SCRATCH_LBA, "ata0-scratch");
            match mount(&devices.disk, FAT_START_LBA) {
                Ok(volume) => {
                    if volume.sectors_per_cluster >= 1 {
                        devices.fat = Some(volume);
                    }
                },
                Err(_) => {},
            }
        },
        Err(_) => {},
    }
    (devices, unmasked)
}

/// Takes a block for eight words from the heap and gives it back, then a
/// block of 64 bytes. Returns the free bytes before and after.
pub fn heap_self_test(heap: &mut KernelAllocator) -> (free: (u64, u64))
    requires
        old(heap).wf(),
    ensures
        final(heap).wf(),
        final(heap).start == old(heap).start,
        final(heap).size == old(heap).size,
        final(heap).list@ == spec_heap_self_test(old(heap).list@),
        free.0 == crate::mem::heap::total_size(old(heap).list@),
        free.1 == crate::mem::heap::total_size(final(heap).list@),
{
    let before = crate::mem::heap::remaining_bytes(heap);
    let layout = crate::mem::heap::Layout { size: 64, align: 8 };
    match crate::mem::heap::HeapBox::new(heap, layout, [0u64; 8]) {
        Ok(boxed) => {
            let _ = boxed.release(heap);
        },
        Err(_) => {},
    }
    let manual = crate::mem::heap::Layout { size: 64, align: 16 };
    match crate::mem::heap::allocate(heap, manual) {
        Some(ptr) => {
            let _ = crate::mem::heap::deallocate(heap, ptr, manual);
        },
        None => {},
    }
    let after = crate::mem::heap::remaining_bytes(heap);
    (before, after)
}

/// What the hardware says when an interrupt comes in.
#[derive(Clone, Copy, Debug, PartialEq, Eq, Structural)]
pub struct InterruptInput {
    /// The address whose access faulted, for a page fault.
    pub fault_addr: u64,
    /// The byte at the keyboard's data port, for a keyboard interrupt.
    pub scancode: u8,
    /// Whether the process table is free to be taken.
    pub lock_free: bool,
}

/// What a handler did or found.
pub enum InterruptReport {
    /// A vector without a handler of its own: the vector and the error code.
    Unhandled(u64, u64),
    PageFault(PageFaultInfo),
    /// A fault of a task, and what is known of the task.
    Fault(FaultReport, Option<ProcessDump>),
    /// The disk's interrupt: the port to read to acknowledge it.
    Acknowledge(u16),
    /// A timer tick.
    Tick,
    /// A key: whether it gave a byte, so that readers were woken.
    Key(bool),
}

/// What taking an interrupt does, by the handler of its vector.
///
/// The timer counts a tick, asks for a reschedule, and preempts the current
/// process where that may be done: then the frame returns to the preempt
/// trampoline and the address that was interrupted is parked. The keyboard
/// takes in the scancode and, where it gave a byte, wakes who waits for the
/// keyboard. The other handlers report and change nothing.
pub open spec fn handled<D: BlockDevice>(
    before: Kernel<D>,
    after: Kernel<D>,
    frame: InterruptFrame,
    frame_after: InterruptFrame,
    input: InterruptInput,
    report: InterruptReport,
) -> bool {
    &&& after.pm == before.pm
    &&& after.heap == before.heap
    &&& after.mem == before.mem
    &&& after.env == before.env
    &&& after.pic == before.pic
    &&& after.interrupts == before.interrupts
    &&& match before.interrupts.handlers@[frame.int_no as int] {
        HandlerKind::Timer => report is Tick && after.devices == before.devices && after.timer.ticks
            == (if before.timer.ticks == u64::MAX {
            0
        } else {
            (before.timer.ticks + 1) as u64
        }) && after.timer.frequency_hz == before.timer.frequency_hz && after.sched == (Scheduler {
            table: ProcessTable { entries: after.sched.table.entries, ..before.sched.table },
            need_resched: true,
            ..before.sched
        }) && (match spec_preemptible(
            before.sched.table@,
            before.sched.current_pid,
            frame.rip,
            input.lock_free,
        ) {
            None => after.sched.table@ == before.sched.table@ && frame_after == frame,
            Some(index) => after.sched.table@ == before.sched.table@.update(
                index,
                Process { preempt_return: Some(frame.rip), ..before.sched.table@[index] },
            ) && frame_after == (InterruptFrame {
                rip: before.env.symbols.preempt_trampoline,
                ..frame
            }),
        }),
        HandlerKind::Keyboard => frame_after == frame && after.timer == before.timer && ({
            let gave = input.scancode & 0x80 == 0 && spec_translate_scancode(
                input.scancode,
                before.devices.keyboard.state.shift,
                before.devices.keyboard.state.caps_lock,
            ).2 is Some;
            &&& report matches InterruptReport::Key(pushed) && pushed == gave
            &&& key_taken(
                before.devices.keyboard.state,
                after.devices.keyboard.state,
                input.scancode,
                gave,
            )
            &&& after.devices.keyboard.initialized == before.devices.keyboard.initialized
            &&& after.devices.registry == before.devices.registry
            &&& after.devices.console == before.devices.console
            &&& after.devices.disk == before.devices.disk
            &&& after.devices.scratch == before.devices.scratch
            &&& after.devices.fat == before.devices.fat
            &&& after.sched == (Scheduler {
                table: ProcessTable { entries: after.sched.table.entries, ..before.sched.table },
                ..before.sched
            })
            &&& after.sched.table@ == (if gave {
                spec_woken_all(before.sched.table@, WaitChannel::KeyboardInput)
            } else {
                before.sched.table@
            })
        }),
        HandlerKind::PageFault => report matches InterruptReport::PageFault(info) && info.address
            == input.fault_addr && info.error_code == frame.err_code && after == before
            && frame_after == frame,
        HandlerKind::GeneralProtection | HandlerKind::InvalidOpcode => after == before
            && frame_after == frame && (report matches InterruptReport::Fault(fault, dump) && fault
            == (FaultReport {
            rip: frame.rip,
            cs: frame.cs,
            rflags: frame.rflags,
            rsp: frame.rsp,
            err_code: frame.err_code,
        }) && shows_current(before.sched, dump)),
        HandlerKind::AtaPrimary => report matches InterruptReport::Acknowledge(port) && port
            == 0x1F7 && after == before && frame_after == frame,
        HandlerKind::Default => report matches InterruptReport::Unhandled(vector, code) && vector
            == frame.int_no && code == frame.err_code && after == before && frame_after == frame,
    }
}

/// Runs the handler of the vector of `frame`.
pub fn handle<D: BlockDevice>(kernel: &mut Kernel<D>, frame: &mut InterruptFrame, input: InterruptInput) -> (report:
    InterruptReport)
    requires
        old(kernel).wf(),
        old(frame).int_no < IDT_ENTRIES,
    ensures
        final(kernel).wf(),
        handled(*old(kernel), *final(kernel), *old(frame), *final(frame), input, report),
{
    match dispatch(&kernel.interrupts, frame) {
        HandlerKind::Timer => {
            timer_handler(
                &mut kernel.timer,
                &mut kernel.sched,
                frame,
                kernel.env.symbols.preempt_trampoline,
                input.lock_free,
            );
            InterruptReport::Tick
        },
        HandlerKind::Keyboard => {
            let pushed = keyboard_handler(&mut kernel.devices.keyboard.state, input.scancode);
            if pushed {
                wake_channel(&mut kernel.sched, WaitChannel::KeyboardInput);
                assert(kernel.sched.table@ =~= spec_woken_all(
                    old(kernel).sched.table@,
                    WaitChannel::KeyboardInput,
                ));
            }
            InterruptReport::Key(pushed)
        },
        HandlerKind::PageFault => InterruptReport::PageFault(
            page_fault_handler(frame, input.fault_addr),
        ),
        HandlerKind::GeneralProtection => {
            let report = general_protection_handler(frame);
            InterruptReport::Fault(report, current_dump(&kernel.sched))
        },
        HandlerKind::InvalidOpcode => {
            let report = invalid_opcode_handler(frame);
            InterruptReport::Fault(report, current_dump(&kernel.sched))
        },
        HandlerKind::AtaPrimary => InterruptReport::Acknowledge(ata_primary_irq()),
        HandlerKind::Default => {
            let (vector, code) = default_handler(frame);
            InterruptReport::Unhandled(vector, code)
        },
    }
}

/// `dump` shows the current process, or is nothing where no process of the
/// table is current.
pub open spec fn shows_current(sched: Scheduler, dump: Option<ProcessDump>) -> bool {
    let index = spec_index_of(sched.table@, sched.current_pid);
    if sched.current_pid == 0 || index >= sched.table@.len() {
        dump is None
    } else {
        dump matches Some(shown) && dump_shows(shown, sched.table@[index])
    }
}

/// What is known of the current process, for the report of a fault.
fn current_dump(sched: &Scheduler) -> (dump: Option<ProcessDump>)
    ensures
        shows_current(*sched, dump),
{
    match current_pid(sched) {
        Some(pid) => match dump_process(sched, pid) {
            Ok(dump) => Some(dump),
            Err(_) => None,
        },
        None => None,
    }
}

/// Takes an exception of the processor: its handler runs.
pub fn isr_handler<D: BlockDevice>(kernel: &mut Kernel<D>, frame: &mut InterruptFrame, input: InterruptInput) -> (report:
    InterruptReport)
    requires
        old(kernel).wf(),
        old(frame).int_no < IDT_ENTRIES,
    ensures
        final(kernel).wf(),
        handled(*old(kernel), *final(kernel), *old(frame), *final(frame), input, report),
{
    handle(kernel, frame, input)
}

/// Takes an interrupt of a device: its handler runs, and the interrupt is
/// ended at the controllers afterwards. Returns what the handler reports
/// and the port writes that end the interrupt.
pub fn irq_handler<D: BlockDevice>(kernel: &mut Kernel<D>, frame: &mut InterruptFrame, input: InterruptInput) -> (res:
    (InterruptReport, Vec<PortWrite>))
    requires
        old(kernel).wf(),
        old(frame).int_no < IDT_ENTRIES,
    ensures
        final(kernel).wf(),
        handled(*old(kernel), *final(kernel), *old(frame), *final(frame), input, res.0),
        res.1@ == spec_eoi_writes(old(frame).int_no as u8),
{
    let vector = frame.int_no as u8;
    let report = handle(kernel, frame, input);
    (report, send_eoi(vector))
}

/// What the idle task does next.
#[derive(Clone, Copy, Debug, PartialEq, Eq, Structural)]
pub enum IdleStep {
    /// Another task got the processor.
    Switched,
    /// Nothing to do: the processor is to halt until the next interrupt.
    Halt,
}

/// One round of the idle task: where a reschedule was asked for, the
/// request is taken and an attempt is made to give the processor to another
/// task; otherwise, and where no task was found, the processor halts.
pub fn idle_task(sched: &mut Scheduler) -> (step: IdleStep)
    requires
        old(sched).wf(),
    ensures
        final(sched).wf(),
        !final(sched).need_resched,
        !old(sched).need_resched ==> step == IdleStep::Halt && *final(sched) == *old(sched),
        old(sched).need_resched ==> switch_outcome(
            old(sched).table@,
            Scheduler { need_resched: false, ..*old(sched) },
            *final(sched),
            step == IdleStep::Switched,
        ),
{
    if sched.need_resched {
        sched.need_resched = false;
        if schedule_internal(sched) {
            return IdleStep::Switched;
        }
    }
    IdleStep::Halt
}

/// Where a task lands that returns from its entry: it exits with -1.
pub fn process_exit(sched: &mut Scheduler) -> (switched: bool)
    requires
        old(sched).wf(),
        spec_current_index(old(sched).table@, old(sched).current_pid) is Some,
    ensures
        final(sched).wf(),
        switch_outcome(
            spec_exit_table(old(sched).table@, old(sched).current_pid, -1i32),
            *old(sched),
            *final(sched),
            switched,
        ),
{
    exit_current(sched, -1)
}

/// What one round of the shell did.
#[derive(Clone, Copy, Debug)]
pub struct ShellStep {
    /// What reading the keyboard gave.
    pub read: SysResult<usize>,
    /// What echoing to the console gave, where something was read.
    pub echoed: Option<SysResult<usize>>,
    /// Whether another task got the processor at the end of the round.
    pub switched: bool,
}

/// What one round of the shell does, by way of the kernel after the read
/// and the kernel after the echo: up to 64 bytes are read from the
/// keyboard; where something was read, just that is written to the
/// console; and the processor is given up.
pub open spec fn shell_round<D: BlockDevice>(
    before: Kernel<D>,
    after_read: Kernel<D>,
    got: Seq<u8>,
    after_echo: Kernel<D>,
    after: Kernel<D>,
    step: ShellStep,
) -> bool {
    &&& did_read(before, after_read, FD_STDIN, zeros(64), got, step.read)
    &&& match step.read {
        Ok(n) => if n > 0 {
            step.echoed matches Some(echo) && wrote(
                after_read,
                after_echo,
                FD_STDOUT,
                got.subrange(0, n as int),
                echo,
            )
        } else {
            step.echoed is None && after_echo == after_read
        },
        Err(_) => step.echoed is None && after_echo == after_read,
    }
    &&& yielded(after_echo, after, step.switched)
}

/// One round of the shell task: what was typed is read from the keyboard
/// and written to the console, and the processor is given up.
pub fn init_shell_task<D: BlockDevice>(kernel: &mut Kernel<D>) -> (step: ShellStep)
    requires
        old(kernel).wf(),
    ensures
        final(kernel).wf(),
        old(kernel).sched.current_pid == 0 ==> step.read == Err::<usize, SysError>(
            SysError::BadFileDescriptor,
        ) && step.echoed is None && final(kernel).devices == old(kernel).devices,
        step.echoed is Some <==> (step.read matches Ok(n) && n > 0),
        exists|after_read: Kernel<D>, got: Seq<u8>, after_echo: Kernel<D>| #[trigger]
            shell_round(*old(kernel), after_read, got, after_echo, *final(kernel), step),
{
    let mut input_buf: Vec<u8> = vec![0u8; 64];
    assert(input_buf@ =~= zeros(64));
    let read_result = read(kernel, FD_STDIN, input_buf.as_mut_slice());
    let ghost after_read = *kernel;
    let echoed = match read_result {
        Ok(count) => {
            if count == 0 {
                None
            } else {
                let mut typed: Vec<u8> = Vec::new();
                let mut i: usize = 0;
                while i < count
                    invariant
                        i <= count <= 64,
                        input_buf@.len() == 64,
                        typed@ == input_buf@.subrange(0, i as int),
                    decreases count - i,
                {
                    typed.push(input_buf[i]);
                    assert(typed@ =~= input_buf@.subrange(0, i + 1));
                    i += 1;
                }
                Some(crate::syscall::write(kernel, FD_STDOUT, typed.as_slice()))
            }
        },
        Err(_) => None,
    };
    let ghost after_echo = *kernel;
    let switched = crate::syscall::yield_now(kernel);
    let step = ShellStep { read: read_result, echoed, switched };
    assert(shell_round(*old(kernel), after_read, input_buf@, after_echo, *kernel, step));
    step
}

/// What the smoke checks of the file system found.
#[derive(Clone, Copy, Debug)]
pub struct SmokeReport {
    /// Bytes that `/dev/null` took.
    pub null_write: SysResult<usize>,
    /// Bytes that `/dev/zero` gave, and whether all were zero.
    pub zero_read: SysResult<usize>,
    pub zero_all_zero: bool,
    /// Bytes read from `/scratch` after a write and a seek to offset 2.
    pub scratch_read: SysResult<usize>,
    /// Bytes read from `/fat/HELLO.TXT`.
    pub fat_read: SysResult<usize>,
}

/// The processes are what they were, with descriptor tables that hold what
/// they held.
pub open spec fn same_processes(before: Scheduler, after: Scheduler) -> bool {
    &&& after == (Scheduler {
        table: ProcessTable { entries: after.table.entries, ..before.table },
        ..before
    })
    &&& after.table@.len() == before.table@.len()
    &&& forall|i: int|
        0 <= i < before.table@.len() ==> (#[trigger] after.table@[i]) == (Process {
            fds: after.table@[i].fds,
            ..before.table@[i]
        }) && after.table@[i].fds@ == before.table@[i].fds@
}

/// The devices are what they were, but for what the console shows and for
/// the disk, whose block size stays.
pub open spec fn same_devices<D: BlockDevice>(before: Devices<D>, after: Devices<D>) -> bool {
    &&& after.registry == before.registry
    &&& after.keyboard == before.keyboard
    &&& after.scratch == before.scratch
    &&& after.fat == before.fat
    &&& after.disk.spec_block_size() == before.disk.spec_block_size()
}

/// What a check of the character device `id` gives, where it would move
/// `count` bytes: a bad descriptor without a current process; no entry
/// where the device is not registered; a bad descriptor where the current
/// process is not in the table; no memory where the process has no free
/// descriptor; otherwise the `count` bytes.
pub open spec fn spec_device_check<D: BlockDevice>(
    kernel: Kernel<D>,
    id: CharDeviceId,
    count: usize,
) -> SysResult<usize> {
    let entries = kernel.sched.table@;
    let index = spec_index_of(entries, kernel.sched.current_pid);
    if kernel.sched.current_pid == 0 {
        Err(SysError::BadFileDescriptor)
    } else if !char_registered(kernel.devices.registry@, id) {
        Err(SysError::NoEntry)
    } else if index >= entries.len() {
        Err(SysError::BadFileDescriptor)
    } else if spec_first_free(entries[index].fds@) >= MAX_FDS {
        Err(SysError::NoMemory)
    } else {
        Ok(count)
    }
}

/// The free slot that a descriptor table says it has is free.
proof fn lemma_first_free_is_free(fds: Seq<Option<FileDescriptor>>)
    requires
        spec_first_free(fds) < fds.len(),
    ensures
        0 <= spec_first_free(fds),
        fds[spec_first_free(fds)] is None,
    decreases fds.len(),
{
    if fds.len() > 0 && fds[0] is Some {
        lemma_first_free_is_free(fds.drop_first());
    }
}

/// Opening a descriptor, using it without changing it, and closing it
/// leaves the processes as they were.
proof fn lemma_open_use_close(
    start: Scheduler,
    opened: Scheduler,
    used: Scheduler,
    closed: Scheduler,
    index: int,
    slot: int,
    descriptor: FileDescriptor,
)
    requires
        0 <= index < start.table@.len(),
        0 <= slot < start.table@[index].fds@.len(),
        start.table@[index].fds@[slot] is None,
        opened == (Scheduler {
            table: ProcessTable { entries: opened.table.entries, ..start.table },
            ..start
        }),
        opened.table@.len() == start.table@.len(),
        forall|i: int| 0 <= i < start.table@.len() && i != index ==> opened.table@[i] == start.table@[i],
        opened.table@[index] == (Process { fds: opened.table@[index].fds, ..start.table@[index] }),
        opened.table@[index].fds@ == start.table@[index].fds@.update(slot, Some(descriptor)),
        only_fd_changed(opened, used, index, slot, descriptor, descriptor),
        closed == (Scheduler {
            table: ProcessTable { entries: closed.table.entries, ..used.table },
            ..used
        }),
        closed.table@.len() == used.table@.len(),
        forall|i: int| 0 <= i < used.table@.len() && i != index ==> closed.table@[i] == used.table@[i],
        closed.table@[index] == (Process { fds: closed.table@[index].fds, ..used.table@[index] }),
        closed.table@[index].fds@ == used.table@[index].fds@.update(slot, None),
    ensures
        same_processes(start, closed),
{
    assert(closed.table@[index].fds@ =~= start.table@[index].fds@);
    assert forall|i: int| 0 <= i < start.table@.len() implies (#[trigger] closed.table@[i]) == (Process {
        fds: closed.table@[i].fds,
        ..start.table@[i]
    }) && closed.table@[i].fds@ == start.table@[i].fds@ by {
        if i != index {
            assert(closed.table@[i] == used.table@[i]);
            assert(used.table@[i] == opened.table@[i]);
            assert(opened.table@[i] == start.table@[i]);
        }
    }
}

/// What opening the path of a registered character device gives.
proof fn lemma_open_device<D: BlockDevice>(
    before: Kernel<D>,
    after: Kernel<D>,
    pid: Pid,
    path: Seq<u8>,
    id: CharDeviceId,
    res: SysResult<usize>,
)
    requires
        open_outcome(before, after, pid, path, res),
        pid == before.sched.current_pid,
        pid != 0,
        (id == CharDeviceId::Null && path == null_path()) || (id == CharDeviceId::Zero && path
            == zero_path()),
    ensures
        res is Err ==> res == spec_device_check(before, id, 0),
        res is Ok ==> spec_device_check(before, id, 0) is Ok && spec_install_fd(
            before.sched,
            after.sched,
            pid,
            FileDescriptor::Char(id),
            Ok(res->Ok_0),
        ),
{
    assert(path.subrange(0, 5)[1] != fat_prefix()[1]);
    assert(path.len() != scratch_path().len());
    assert(path.len() != console_path().len());
    assert(zero_path()[5] != null_path()[5]);
    assert(open_outcome_on(before, after, Seq::empty(), pid, path, res));
    lemma_index_of_bounds(before.sched.table@, pid);
    if spec_index_of(before.sched.table@, pid) < before.sched.table@.len() {
        lemma_first_free_bounds(before.sched.table@[spec_index_of(before.sched.table@, pid)].fds@);
    }
}

/// Checks the null device for the current process: it is opened, seven
/// bytes are written to it, and it is closed again.
pub fn null_device_check<D: BlockDevice>(kernel: &mut Kernel<D>) -> (res: SysResult<usize>)
    requires
        old(kernel).wf(),
    ensures
        final(kernel).wf(),
        only_io_changed(*old(kernel), *final(kernel)),
        final(kernel).mem == old(kernel).mem,
        same_processes(old(kernel).sched, final(kernel).sched),
        same_devices(old(kernel).devices, final(kernel).devices),
        final(kernel).devices.console == old(kernel).devices.console,
        res == spec_device_check(*old(kernel), CharDeviceId::Null, 7),
{
    let pid = match current_pid(&kernel.sched) {
        Some(pid) => pid,
        None => { return Err(SysError::BadFileDescriptor); },
    };
    let path: [u8; 9] = [0x2F, 0x64, 0x65, 0x76, 0x2F, 0x6E, 0x75, 0x6C, 0x6C];
    let ghost index = spec_index_of(kernel.sched.table@, pid);
    let ghost fds = kernel.sched.table@[index].fds@;
    proof {
        lemma_index_of_bounds(kernel.sched.table@, pid);
        lemma_first_free_bounds(fds);
        assert(path@ =~= null_path());
    }
    let opened_as = open_for(kernel, pid, path.as_slice());
    proof {
        lemma_open_device(*old(kernel), *kernel, pid, path@, CharDeviceId::Null, opened_as);
    }
    match opened_as {
        Ok(fd) => {
            let ghost opened = kernel.sched;
            proof {
                lemma_first_free_is_free(fds);
                lemma_index_of_same_pids(old(kernel).sched.table@, opened.table@, pid);
                assert(spec_fd_open(opened.table@, pid, fd));
            }
            let discard: [u8; 7] = [0x64, 0x69, 0x73, 0x63, 0x61, 0x72, 0x64];
            let written = crate::syscall::write(kernel, fd as u64, discard.as_slice());
            let ghost used = kernel.sched;
            proof {
                lemma_index_of_same_pids(opened.table@, used.table@, pid);
            }
            let _ = close(kernel, fd as u64);
            proof {
                lemma_open_use_close(
                    old(kernel).sched,
                    opened,
                    used,
                    kernel.sched,
                    index,
                    fd as int,
                    FileDescriptor::Char(CharDeviceId::Null),
                );
            }
            written
        },
        Err(e) => Err(e),
    }
}

/// Checks the zero device for the current process: it is opened, sixteen
/// bytes are read from it, and it is closed again. Returns what the read
/// gave, and whether every byte that was read is zero.
pub fn zero_device_check<D: BlockDevice>(kernel: &mut Kernel<D>) -> (res: (SysResult<usize>, bool))
    requires
        old(kernel).wf(),
    ensures
        final(kernel).wf(),
        only_io_changed(*old(kernel), *final(kernel)),
        final(kernel).mem == old(kernel).mem,
        same_processes(old(kernel).sched, final(kernel).sched),
        same_devices(old(kernel).devices, final(kernel).devices),
        final(kernel).devices.console == old(kernel).devices.console,
        res.0 == spec_device_check(*old(kernel), CharDeviceId::Zero, 16),
        res.1 == res.0 is Ok,
{
    let pid = match current_pid(&kernel.sched) {
        Some(pid) => pid,
        None => { return (Err(SysError::BadFileDescriptor), false); },
    };
    let path: [u8; 9] = [0x2F, 0x64, 0x65, 0x76, 0x2F, 0x7A, 0x65, 0x72, 0x6F];
    let ghost index = spec_index_of(kernel.sched.table@, pid);
    let ghost fds = kernel.sched.table@[index].fds@;
    proof {
        lemma_index_of_bounds(kernel.sched.table@, pid);
        lemma_first_free_bounds(fds);
        assert(path@ =~= zero_path());
    }
    let opened_as = open_for(kernel, pid, path.as_slice());
    proof {
        lemma_open_device(*old(kernel), *kernel, pid, path@, CharDeviceId::Zero, opened_as);
    }
    match opened_as {
        Ok(fd) => {
            let ghost opened = kernel.sched;
            proof {
                lemma_first_free_is_free(fds);
                lemma_index_of_same_pids(old(kernel).sched.table@, opened.table@, pid);
                assert(spec_fd_open(opened.table@, pid, fd));
            }
            let mut buf: Vec<u8> = vec![0xAAu8; 16];
            let got = read(kernel, fd as u64, buf.as_mut_slice());
            let ghost used = kernel.sched;
            proof {
                lemma_index_of_same_pids(opened.table@, used.table@, pid);
            }
            let all_zero = match got {
                Ok(count) => all_zero_bytes(buf.as_slice(), count),
                Err(_) => false,
            };
            let _ = close(kernel, fd as u64);
            proof {
                lemma_open_use_close(
                    old(kernel).sched,
                    opened,
                    used,
                    kernel.sched,
                    index,
                    fd as int,
                    FileDescriptor::Char(CharDeviceId::Zero),
                );
            }
            (got, all_zero)
        },
        Err(e) => (Err(e), false),
    }
}

/// Whether the first `count` bytes of `buf` are zero.
fn all_zero_bytes(buf: &[u8], count: usize) -> (yes: bool)
    requires
        count <= buf@.len(),
    ensures
        yes == forall|i: int| 0 <= i < count ==> buf@[i] == 0,
{
    let mut i: usize = 0;
    while i < count
        invariant
            i <= count <= buf@.len(),
            forall|k: int| 0 <= k < i ==> buf@[k] == 0,
        decreases count - i,
    {
        if buf[i] != 0 {
            return false;
        }
        i += 1;
    }
    true
}

/// Opens a path for the current process, as `open` does, with the
/// descriptor as the number that the other calls take.
fn smoke_open<D: BlockDevice>(kernel: &mut Kernel<D>, path: &str) -> (res: SysResult<u64>)
    requires
        old(kernel).wf(),
    ensures
        final(kernel).wf(),
        only_io_changed(*old(kernel), *final(kernel)),
        final(kernel).mem == old(kernel).mem,
        final(kernel).devices == old(kernel).devices,
        res matches Ok(fd) ==> fd < MAX_FDS,
        old(kernel).sched.current_pid == 0 ==> res is Err && *final(kernel) == *old(kernel),
        path.spec_bytes().len() == 0 ==> res == Err::<u64, SysError>(SysError::InvalidArgument)
            && *final(kernel) == *old(kernel),
        path.spec_bytes().len() > 0 && old(kernel).sched.current_pid == 0 ==> res == Err::<
            u64,
            SysError,
        >(SysError::BadFileDescriptor),
        path.spec_bytes().len() > 0 && old(kernel).sched.current_pid != 0 ==> open_outcome(
            *old(kernel),
            *final(kernel),
            old(kernel).sched.current_pid,
            spec_trim_nul(path.spec_bytes()),
            match res {
                Ok(fd) => Ok::<usize, SysError>(fd as usize),
                Err(e) => Err::<usize, SysError>(e),
            },
        ),
{
    match open(kernel, path) {
        Ok(fd) => Ok(fd as u64),
        Err(e) => Err(e),
    }
}

/// The bytes that the check of the scratch file writes: `seektest`.
pub open spec fn spec_seek_text() -> Seq<u8> {
    seq![0x73u8, 0x65, 0x65, 0x6B, 0x74, 0x65, 0x73, 0x74]
}

/// What the check of `/scratch` does, step by step, by way of the kernel
/// after each step: the file is opened; `seektest` is written; the offset
/// is set to 2; six bytes are read; and the file is closed. `res` is what
/// the read gave, or the error of the first step that failed. Without a
/// descriptor nothing follows the open.
pub open spec fn scratch_round<D: BlockDevice>(
    before: Kernel<D>,
    after_open: Kernel<D>,
    after_write: Kernel<D>,
    after_seek: Kernel<D>,
    after_read: Kernel<D>,
    after: Kernel<D>,
    fd: SysResult<u64>,
    written: SysResult<usize>,
    offset: SysResult<u64>,
    got: Seq<u8>,
    shut: SysResult<()>,
    res: SysResult<usize>,
) -> bool {
    &&& opened(before, after_open, "/scratch".spec_bytes(), fd)
    &&& match fd {
        Err(e) => res == Err::<usize, SysError>(e) && after == after_open,
        Ok(number) => {
            &&& wrote(after_open, after_write, number, spec_seek_text(), written)
            &&& match written {
                Err(e) => res == Err::<usize, SysError>(e) && after_read == after_write,
                Ok(_) => {
                    &&& sought(after_write, after_seek, number, 2, SeekWhence::Start, offset)
                    &&& match offset {
                        Err(e) => res == Err::<usize, SysError>(e) && after_read == after_seek,
                        Ok(_) => did_read(after_seek, after_read, number, zeros(6), got, res),
                    }
                },
            }
            &&& closed(after_read, after, number, shut)
        },
    }
}

/// What the check of `/scratch` does to the kernel, and what it gives.
pub open spec fn scratch_checked<D: BlockDevice>(
    before: Kernel<D>,
    after: Kernel<D>,
    res: SysResult<usize>,
) -> bool {
    exists|
        after_open: Kernel<D>,
        after_write: Kernel<D>,
        after_seek: Kernel<D>,
        after_read: Kernel<D>,
        fd: SysResult<u64>,
        written: SysResult<usize>,
        offset: SysResult<u64>,
        got: Seq<u8>,
        shut: SysResult<()>,
    | #[trigger]
        scratch_round(
            before,
            after_open,
            after_write,
            after_seek,
            after_read,
            after,
            fd,
            written,
            offset,
            got,
            shut,
            res,
        )
}

/// Checks the scratch file by its path, for the current process.
pub fn scratch_file_check<D: BlockDevice>(kernel: &mut Kernel<D>) -> (res: SysResult<usize>)
    requires
        old(kernel).wf(),
    ensures
        final(kernel).wf(),
        only_io_changed(*old(kernel), *final(kernel)),
        final(kernel).mem == old(kernel).mem,
        old(kernel).sched.current_pid == 0 ==> res is Err && *final(kernel) == *old(kernel),
        scratch_checked(*old(kernel), *final(kernel), res),
{
    let fd_res = smoke_open(kernel, "/scratch");
    let ghost after_open = *kernel;
    let fd = match fd_res {
        Ok(fd) => fd,
        Err(e) => {
            proof {
                let none = Ok::<usize, SysError>(0);
                assert(scratch_round(
                    *old(kernel),
                    after_open,
                    after_open,
                    after_open,
                    after_open,
                    *kernel,
                    fd_res,
                    none,
                    Ok::<u64, SysError>(0),
                    Seq::empty(),
                    Ok::<(), SysError>(()),
                    Err::<usize, SysError>(e),
                ));
            }
            return Err(e);
        },
    };
    let data: [u8; 8] = [0x73, 0x65, 0x65, 0x6B, 0x74, 0x65, 0x73, 0x74];
    assert(data@ =~= spec_seek_text());
    let written = crate::syscall::write(kernel, fd, data.as_slice());
    let ghost after_write = *kernel;
    let mut buf: Vec<u8> = vec![0u8; 6];
    assert(buf@ =~= zeros(6));
    let mut offset: SysResult<u64> = Ok(0);
    let ghost mut after_seek = *kernel;
    let outcome = match written {
        Err(e) => Err(e),
        Ok(_) => {
            offset = seek(kernel, fd, 2, SeekWhence::Start);
            proof {
                after_seek = *kernel;
            }
            match offset {
                Err(e) => Err(e),
                Ok(_) => read(kernel, fd, buf.as_mut_slice()),
            }
        },
    };
    let ghost after_read = *kernel;
    let shut = close(kernel, fd);
    proof {
        assert(scratch_round(
            *old(kernel),
            after_open,
            after_write,
            after_seek,
            after_read,
            *kernel,
            fd_res,
            written,
            offset,
            buf@,
            shut,
            outcome,
        ));
    }
    outcome
}

/// What the check of `/fat/HELLO.TXT` does, step by step, by way of the
/// kernel after each step: the file is opened; up to 64 bytes are read;
/// where that worked, the offset is set back to the start; and the file is
/// closed. `res` is what the read gave, or the error of the open.
pub open spec fn fat_round<D: BlockDevice>(
    before: Kernel<D>,
    after_open: Kernel<D>,
    after_read: Kernel<D>,
    after_seek: Kernel<D>,
    after: Kernel<D>,
    fd: SysResult<u64>,
    got: Seq<u8>,
    offset: SysResult<u64>,
    shut: SysResult<()>,
    res: SysResult<usize>,
) -> bool {
    &&& opened(before, after_open, "/fat/HELLO.TXT".spec_bytes(), fd)
    &&& match fd {
        Err(e) => res == Err::<usize, SysError>(e) && after == after_open,
        Ok(number) => {
            &&& did_read(after_open, after_read, number, zeros(64), got, res)
            &&& if res is Ok {
                sought(after_read, after_seek, number, 0, SeekWhence::Start, offset)
            } else {
                after_seek == after_read
            }
            &&& closed(after_seek, after, number, shut)
        },
    }
}

/// What the check of `/fat/HELLO.TXT` does to the kernel, and what it gives.
pub open spec fn fat_checked<D: BlockDevice>(
    before: Kernel<D>,
    after: Kernel<D>,
    res: SysResult<usize>,
) -> bool {
    exists|
        after_open: Kernel<D>,
        after_read: Kernel<D>,
        after_seek: Kernel<D>,
        fd: SysResult<u64>,
        got: Seq<u8>,
        offset: SysResult<u64>,
        shut: SysResult<()>,
    | #[trigger]
        fat_round(before, after_open, after_read, after_seek, after, fd, got, offset, shut, res)
}

/// Checks the file `HELLO.TXT` of the volume, for the current process.
pub fn fat_file_check<D: BlockDevice>(kernel: &mut Kernel<D>) -> (res: SysResult<usize>)
    requires
        old(kernel).wf(),
    ensures
        final(kernel).wf(),
        only_io_changed(*old(kernel), *final(kernel)),
        final(kernel).mem == old(kernel).mem,
        old(kernel).sched.current_pid == 0 ==> res is Err && *final(kernel) == *old(kernel),
        fat_checked(*old(kernel), *final(kernel), res),
{
    let fd_res = smoke_open(kernel, "/fat/HELLO.TXT");
    let ghost after_open = *kernel;
    let fd = match fd_res {
        Ok(fd) => fd,
        Err(e) => {
            proof {
                assert(fat_round(
                    *old(kernel),
                    after_open,
                    after_open,
                    after_open,
                    *kernel,
                    fd_res,
                    Seq::empty(),
                    Ok::<u64, SysError>(0),
                    Ok::<(), SysError>(()),
                    Err::<usize, SysError>(e),
                ));
            }
            return Err(e);
        },
    };
    let mut buf: Vec<u8> = vec![0u8; 64];
    assert(buf@ =~= zeros(64));
    let got = read(kernel, fd, buf.as_mut_slice());
    let ghost after_read = *kernel;
    let mut offset: SysResult<u64> = Ok(0);
    match got {
        Ok(_) => {
            offset = seek(kernel, fd, 0, SeekWhence::Start);
        },
        Err(_) => {},
    }
    let ghost after_seek = *kernel;
    let shut = close(kernel, fd);
    proof {
        assert(fat_round(
            *old(kernel),
            after_open,
            after_read,
            after_seek,
            *kernel,
            fd_res,
            buf@,
            offset,
            shut,
            got,
        ));
    }
    got
}

/// Runs the file system through its paces for the current process: a write
/// to `/dev/null`; a read from `/dev/zero`; a write to `/scratch`, a seek
/// to offset 2 and a read; and a read from `/fat/HELLO.TXT`. Every
/// descriptor that was opened is closed again. A step whose file cannot be
/// opened reports the error of the open.
pub fn vfs_smoke_checks<D: BlockDevice>(kernel: &mut Kernel<D>) -> (report: SmokeReport)
    requires
        old(kernel).wf(),
    ensures
        final(kernel).wf(),
        only_io_changed(*old(kernel), *final(kernel)),
        final(kernel).mem == old(kernel).mem,
        report.null_write == spec_device_check(*old(kernel), CharDeviceId::Null, 7),
        report.zero_read == spec_device_check(*old(kernel), CharDeviceId::Zero, 16),
        report.zero_all_zero == report.zero_read is Ok,
        old(kernel).sched.current_pid == 0 ==> report.scratch_read is Err && report.fat_read is Err,
        exists|after_devices: Kernel<D>, after_scratch: Kernel<D>| #[trigger]
            smoke_rounds(*old(kernel), after_devices, after_scratch, *final(kernel), report),
{
    let null_write = null_device_check(kernel);
    proof {
        lemma_same_processes_index(old(kernel).sched, kernel.sched);
        let index = spec_index_of(old(kernel).sched.table@, old(kernel).sched.current_pid);
        if 0 <= index < old(kernel).sched.table@.len() {
            assert(kernel.sched.table@[index].fds@ == old(kernel).sched.table@[index].fds@);
        }
        lemma_index_of_bounds(old(kernel).sched.table@, old(kernel).sched.current_pid);
        assert(spec_device_check(*kernel, CharDeviceId::Zero, 16) == spec_device_check(
            *old(kernel),
            CharDeviceId::Zero,
            16,
        ));
    }
    let ghost after_null = *kernel;
    let (zero_read, zero_all_zero) = zero_device_check(kernel);
    let ghost after_devices = *kernel;
    proof {
        assert(same_processes(old(kernel).sched, after_devices.sched)) by {
            assert forall|i: int| 0 <= i < old(kernel).sched.table@.len() implies (
            #[trigger] after_devices.sched.table@[i]) == (Process {
                fds: after_devices.sched.table@[i].fds,
                ..old(kernel).sched.table@[i]
            }) && after_devices.sched.table@[i].fds@ == old(kernel).sched.table@[i].fds@ by {
                assert(after_null.sched.table@[i] == (Process {
                    fds: after_null.sched.table@[i].fds,
                    ..old(kernel).sched.table@[i]
                }));
            }
        }
    }
    let scratch_read = scratch_file_check(kernel);
    let ghost after_scratch = *kernel;
    let fat_read = fat_file_check(kernel);
    let report = SmokeReport { null_write, zero_read, zero_all_zero, scratch_read, fat_read };
    assert(smoke_rounds(*old(kernel), after_devices, after_scratch, *kernel, report));
    report
}

/// What the smoke checks do, by way of the kernel after the two device
/// checks and the kernel after the check of the scratch file: the device
/// checks leave the processes and devices as they were, but for the disk;
/// then the scratch file is checked, then the file of the volume.
pub open spec fn smoke_rounds<D: BlockDevice>(
    before: Kernel<D>,
    after_devices: Kernel<D>,
    after_scratch: Kernel<D>,
    after: Kernel<D>,
    report: SmokeReport,
) -> bool {
    &&& same_processes(before.sched, after_devices.sched)
    &&& same_devices(before.devices, after_devices.devices)
    &&& after_devices.devices.console == before.devices.console
    &&& only_io_changed(before, after_devices)
    &&& after_devices.mem == before.mem
    &&& scratch_checked(after_devices, after_scratch, report.scratch_read)
    &&& fat_checked(after_scratch, after, report.fat_read)
}

/// Processes that are what they were give every check what they gave.
proof fn lemma_same_processes_index(before: Scheduler, after: Scheduler)
    requires
        same_processes(before, after),
    ensures
        forall|pid: Pid| spec_index_of(after.table@, pid) == spec_index_of(before.table@, pid),
{
    assert forall|pid: Pid| spec_index_of(after.table@, pid) == spec_index_of(before.table@, pid) by {
        lemma_index_of_same_pids(after.table@, before.table@, pid);
    }
}

/// The tag at the start of what the check of the scratch file writes.
pub open spec fn spec_smoke_tag() -> Seq<u8> {
    seq![0x56u8, 0x46, 0x53, 0x2D, 0x53, 0x4D, 0x4F, 0x4B, 0x45]
}

/// The byte at place `i` of what the check of the scratch file writes: the
/// tag, then a pattern that depends on the place.
pub open spec fn spec_smoke_byte(i: int) -> u8 {
    if i < 9 {
        spec_smoke_tag()[i]
    } else {
        ((((i - 9) % 256) * 17 + 0x3C) % 256) as u8
    }
}

/// The first `len` bytes of the pattern.
pub open spec fn spec_smoke_pattern(len: nat) -> Seq<u8> {
    Seq::new(len, |i: int| spec_smoke_byte(i))
}

fn smoke_byte(i: usize) -> (byte: u8)
    ensures
        byte == spec_smoke_byte(i as int),
{
    if i < 9 {
        let tag: [u8; 9] = [0x56, 0x46, 0x53, 0x2D, 0x53, 0x4D, 0x4F, 0x4B, 0x45];
        tag[i]
    } else {
        let index: u32 = ((i - 9) % 256) as u32;
        ((index * 17 + 0x3C) % 256) as u8
    }
}

/// Fills a buffer of `len` bytes with the pattern.
pub fn smoke_pattern(len: usize) -> (bytes: Vec<u8>)
    ensures
        bytes@ == spec_smoke_pattern(len as nat),
{
    let mut bytes: Vec<u8> = Vec::new();
    let mut i: usize = 0;
    while i < len
        invariant
            i <= len,
            bytes@.len() == i,
            forall|k: int| 0 <= k < i ==> #[trigger] bytes@[k] == spec_smoke_byte(k),
        decreases len - i,
    {
        bytes.push(smoke_byte(i));
        i += 1;
    }
    assert(bytes@ =~= spec_smoke_pattern(len as nat));
    bytes
}

/// The file handle behind descriptor `fd` of the process `pid`, where the
/// descriptor is open on a file.
pub open spec fn spec_vfs_handle(sched: Scheduler, pid: Pid, fd: usize) -> Option<VfsHandle> {
    if spec_fd_open(sched.table@, pid, fd) {
        match sched.table@[spec_index_of(sched.table@, pid)].fds@[fd as int] {
            Some(FileDescriptor::Vfs(handle)) => Some(handle),
            _ => None,
        }
    } else {
        None
    }
}

/// Whether the check of the scratch file passes, on a disk that holds
/// `storage`: there is a scratch file and a current process; the sectors
/// of the disk are no larger than 512 bytes; the descriptor of the scratch
/// file is open on a file; and that file is a scratch file whose sector
/// takes the pattern. On a disk with sectors of no bytes there is nothing
/// to write or read, and any file will do.
pub open spec fn spec_scratch_smoke<D: BlockDevice>(kernel: Kernel<D>, storage: Seq<u8>) -> bool {
    let block = kernel.devices.disk.spec_block_size();
    &&& kernel.devices.scratch is Some
    &&& kernel.sched.current_pid != 0
    &&& block <= 512
    &&& spec_vfs_handle(kernel.sched, kernel.sched.current_pid, SCRATCH_FD) matches Some(handle)
    &&& block == 0 || (handle.file matches OpenFile::Scratch(file) && spec_scratch_write(
        storage,
        block,
        file.lba,
        0,
        spec_smoke_pattern(block as nat),
    ).1 is Ok)
}

/// What a seek to the start of the file behind descriptor `fd` does: it
/// works where the descriptor is open on a file, and fails otherwise.
proof fn lemma_seek_to_start(before: Scheduler, after: Scheduler, block: usize, pid: Pid, fd: usize, res: SysResult<u64>)
    requires
        fd_seek_outcome(before, after, block, pid, fd as u64, SeekFrom::Start(0), res),
        block <= 512,
        fd < MAX_FDS,
    ensures
        after.current_pid == before.current_pid,
        match spec_vfs_handle(before, pid, fd) {
            None => res is Err && spec_vfs_handle(after, pid, fd) is None,
            Some(handle) => res == Ok::<u64, SysError>(0) && spec_vfs_handle(after, pid, fd) == Some(
                VfsHandle { file: handle.file, offset: 0 },
            ),
        },
{
    lemma_index_of_same_pids(before.table@, after.table@, pid);
    if spec_fd_open(before.table@, pid, fd) {
        let index = spec_index_of(before.table@, pid);
        let (held, moved, raw) = choose|held: FileDescriptor, moved: FileDescriptor, raw: Result<u64, FileIoError>|
            only_fd_changed(before, after, index, fd as int, held, moved) && #[trigger] seek_outcome(
                held,
                moved,
                block,
                SeekFrom::Start(0),
                raw,
            ) && res == (match raw {
                Ok(offset) => Ok::<u64, SysError>(offset),
                Err(e) => Err::<u64, SysError>(spec_map_file_io_error(e)),
            });
        assert(after.table@[index].fds@[fd as int] == Some(moved));
    }
}

/// What a write through descriptor `fd` does where the descriptor is open
/// on a file and the bytes of the disk are known: what the file's write
/// says.
proof fn lemma_write_to_file<D: BlockDevice>(
    before: Scheduler,
    after: Scheduler,
    devices: Devices<D>,
    devices_after: Devices<D>,
    pid: Pid,
    fd: usize,
    data: Seq<u8>,
    res: SysResult<usize>,
    handle: VfsHandle,
    storage: Seq<u8>,
)
    requires
        fd_write_outcome(before, after, devices, devices_after, pid, fd as u64, data, res),
        fd < MAX_FDS,
        spec_vfs_handle(before, pid, fd) == Some(handle),
        devices.disk.storage() == Some(storage),
    ensures
        after.current_pid == before.current_pid,
        same_devices(devices, devices_after),
        ({
            let (stored, result) = handle.file.spec_write(
                storage,
                devices.disk.spec_block_size(),
                handle.offset,
                data,
            );
            &&& devices_after.disk.storage() == Some(stored)
            &&& result matches Ok(n) ==> res == Ok::<usize, SysError>(n)
            &&& result is Err ==> res is Err
            &&& spec_vfs_handle(after, pid, fd) matches Some(moved) && moved.file == handle.file
        }),
{
    lemma_index_of_same_pids(before.table@, after.table@, pid);
    let index = spec_index_of(before.table@, pid);
    let (held, moved, raw) = choose|held: FileDescriptor, moved: FileDescriptor, raw: Result<usize, FileIoError>|
        only_fd_changed(before, after, index, fd as int, held, moved) && #[trigger] write_outcome(
            held,
            moved,
            devices,
            devices_after,
            data,
            raw,
        ) && res == spec_io_result(raw);
    assert(after.table@[index].fds@[fd as int] == Some(moved));
}

/// What a read through descriptor `fd` does where the descriptor is open
/// on a file and the bytes of the disk are known: what the file's read
/// says.
proof fn lemma_read_from_file<D: BlockDevice>(
    before: Scheduler,
    after: Scheduler,
    devices: Devices<D>,
    devices_after: Devices<D>,
    pid: Pid,
    fd: usize,
    buf: Seq<u8>,
    buf_after: Seq<u8>,
    res: SysResult<usize>,
    handle: VfsHandle,
    storage: Seq<u8>,
)
    requires
        fd_read_outcome(before, after, devices, devices_after, pid, fd as u64, buf, buf_after, res),
        fd < MAX_FDS,
        spec_vfs_handle(before, pid, fd) == Some(handle),
        handle.wf(),
        devices.disk.storage() == Some(storage),
    ensures
        after.current_pid == before.current_pid,
        spec_vfs_handle(after, pid, fd) matches Some(moved) && moved.file == handle.file,
        match handle.file.spec_read(storage, devices.disk.spec_block_size(), handle.offset, buf.len()) {
            Err(_) => res is Err,
            Ok(bytes) => res == Ok::<usize, SysError>(bytes.len() as usize) && res->Ok_0
                == bytes.len() && buf_after.subrange(0, bytes.len() as int) == bytes,
        },
{
    lemma_index_of_same_pids(before.table@, after.table@, pid);
    let index = spec_index_of(before.table@, pid);
    let (held, moved, raw) = choose|held: FileDescriptor, moved: FileDescriptor, raw: Result<usize, FileIoError>|
        only_fd_changed(before, after, index, fd as int, held, moved) && #[trigger] read_outcome(
            held,
            moved,
            devices,
            devices_after,
            buf,
            buf_after,
            raw,
        ) && res == spec_io_result(raw);
    assert(after.table@[index].fds@[fd as int] == Some(moved));
}

/// Checks the scratch file through the descriptor that every process has
/// for it: a sector of the pattern is written at its start and read back.
/// Returns whether all of it went through and came back as it was written.
/// Without a scratch file, without a current process, and on a disk whose
/// sectors are larger than 512 bytes, the check fails at once. Where the
/// bytes of the disk are known, the check passes exactly where the
/// descriptor is open on a scratch file whose sector lies on the disk.
pub fn scratch_smoke_test<D: BlockDevice>(kernel: &mut Kernel<D>) -> (ok: bool)
    requires
        old(kernel).wf(),
    ensures
        final(kernel).wf(),
        only_io_changed(*old(kernel), *final(kernel)),
        (old(kernel).devices.scratch is None || old(kernel).sched.current_pid == 0 || old(kernel).devices.disk.spec_block_size() > 512) ==> !ok && *final(kernel) == *old(kernel),
        old(kernel).devices.disk.storage() matches Some(storage) ==> ok == spec_scratch_smoke(
            *old(kernel),
            storage,
        ),
{
    let file = match kernel.devices.scratch {
        Some(file) => file,
        None => { return false; },
    };
    let pid = match current_pid(&kernel.sched) {
        Some(pid) => pid,
        None => { return false; },
    };
    let sector = file.bytes_per_sector(&kernel.devices.disk);
    if sector > 512 {
        return false;
    }
    let pattern = smoke_pattern(sector);
    let mut back: Vec<u8> = vec![0u8; sector];
    let ghost known = kernel.devices.disk.storage();
    let ghost start = spec_vfs_handle(kernel.sched, pid, SCRATCH_FD);
    let first = seek(kernel, FD_SCRATCH, 0, SeekWhence::Start);
    proof {
        lemma_seek_to_start(old(kernel).sched, kernel.sched, sector, pid, SCRATCH_FD, first);
    }
    match first {
        Ok(_) => {},
        Err(_) => { return false; },
    }
    let ghost sought = *kernel;
    let written = crate::syscall::write(kernel, FD_SCRATCH, pattern.as_slice());
    proof {
        if sector > 0 && known is Some {
            lemma_write_to_file(
                sought.sched,
                kernel.sched,
                sought.devices,
                kernel.devices,
                pid,
                SCRATCH_FD,
                pattern@,
                written,
                spec_vfs_handle(sought.sched, pid, SCRATCH_FD)->0,
                known->0,
            );
        }
    }
    match written {
        Ok(count) => {
            if count != sector {
                return false;
            }
        },
        Err(_) => { return false; },
    }
    let ghost wrote = *kernel;
    let second = seek(kernel, FD_SCRATCH, 0, SeekWhence::Start);
    proof {
        lemma_seek_to_start(wrote.sched, kernel.sched, sector, pid, SCRATCH_FD, second);
    }
    match second {
        Ok(_) => {},
        Err(_) => { return false; },
    }
    let ghost ready = *kernel;
    let ghost blank = back@;
    let got = read(kernel, FD_SCRATCH, back.as_mut_slice());
    proof {
        if sector > 0 && known is Some {
            let handle = spec_vfs_handle(ready.sched, pid, SCRATCH_FD)->0;
            let lba = start->0.file->Scratch_0.lba;
            lemma_scratch_round_trip(known->0, sector, lba, 0, pattern@);
            lemma_read_from_file(
                ready.sched,
                kernel.sched,
                ready.devices,
                kernel.devices,
                pid,
                SCRATCH_FD,
                blank,
                back@,
                got,
                handle,
                ready.devices.disk.storage()->0,
            );
            assert(back@ =~= back@.subrange(0, sector as int));
        }
    }
    match got {
        Ok(count) => {
            if count != sector {
                return false;
            }
        },
        Err(_) => { return false; },
    }
    let _ = seek(kernel, FD_SCRATCH, 0, SeekWhence::Start);
    proof {
        if sector == 0 {
            assert(pattern@ =~= back@);
        }
    }
    crate::bytes::bytes_equal(pattern.as_slice(), back.as_slice())
}

} // verus!
