//! Opening and closing files for a process, and looking into the table.

use vstd::prelude::*;
use vstd::string::StringSliceAdditionalSpecFns;
use crate::bytes::bytes_equal;
use crate::devices::Devices;
use crate::drivers::{BlockDevice, CharDeviceId, DriverSlot};
use crate::fs::fat::{open_file_bytes, spec_open_file, FatError, FatFile};
use crate::mem::heap::Layout;
use crate::process::fd::{FileDescriptor, FileIoError, OpenFile, VfsHandle};
use crate::process::pcb::{spec_first_free, Process};
use crate::process::regions::OwnedRegion;
use crate::process::sched::{current_pid, lemma_same_pids_wf, Scheduler};
use crate::process::table::{spec_index_of, ProcessTable};
use crate::process::types::{
    AddressSpace, Context, Pid, ProcessError, ProcessState, UserStack, WaitChannel, MAX_FDS,
};
use crate::user::Credentials;

verus! {

/// `/fat/`
pub open spec fn fat_prefix() -> Seq<u8> {
    seq![0x2Fu8, 0x66u8, 0x61u8, 0x74u8, 0x2Fu8]
}

/// `/scratch`
pub open spec fn scratch_path() -> Seq<u8> {
    seq![0x2Fu8, 0x73u8, 0x63u8, 0x72u8, 0x61u8, 0x74u8, 0x63u8, 0x68u8]
}

/// `/dev/console`
pub open spec fn console_path() -> Seq<u8> {
    seq![
        0x2Fu8,
        0x64u8,
        0x65u8,
        0x76u8,
        0x2Fu8,
        0x63u8,
        0x6Fu8,
        0x6Eu8,
        0x73u8,
        0x6Fu8,
        0x6Cu8,
        0x65u8,
    ]
}

/// `/dev/null`
pub open spec fn null_path() -> Seq<u8> {
    seq![0x2Fu8, 0x64u8, 0x65u8, 0x76u8, 0x2Fu8, 0x6Eu8, 0x75u8, 0x6Cu8, 0x6Cu8]
}

/// `/dev/zero`
pub open spec fn zero_path() -> Seq<u8> {
    seq![0x2Fu8, 0x64u8, 0x65u8, 0x76u8, 0x2Fu8, 0x7Au8, 0x65u8, 0x72u8, 0x6Fu8]
}

/// Whether the character device `id` is registered.
pub open spec fn char_registered(slots: Seq<DriverSlot>, id: CharDeviceId) -> bool {
    exists|i: int| 0 <= i < slots.len() && #[trigger] slots[i] == DriverSlot::Char(id)
}

/// What a failure of the volume means when a path is opened.
pub open spec fn spec_map_open_error(err: FatError) -> ProcessError {
    match err {
        FatError::Io => ProcessError::AllocationFailed,
        _ => ProcessError::PathNotFound,
    }
}

/// The descriptor that `path` opens.
///
/// `/fat/<name>` opens a file of the mounted volume; `/scratch` the scratch
/// file, where one is mounted; `/dev/console` the console; `/dev/null` and
/// `/dev/zero` the devices of that name, where they are registered. No
/// other path opens anything.
pub open spec fn spec_resolve_path<D: BlockDevice>(devices: Devices<D>, storage: Seq<u8>, path: Seq<u8>) -> Result<
    FileDescriptor,
    ProcessError,
> {
    if path.len() >= 5 && path.subrange(0, 5) == fat_prefix() {
        match spec_open_file(
            devices.fat,
            storage,
            devices.disk.spec_block_size(),
            path.subrange(5, path.len() as int),
        ) {
            Err(e) => Err(spec_map_open_error(e)),
            Ok(file) => Ok(FileDescriptor::Vfs(VfsHandle { file: OpenFile::Fat(file), offset: 0 })),
        }
    } else if path == scratch_path() {
        match devices.scratch {
            Some(file) => Ok(
                FileDescriptor::Vfs(VfsHandle { file: OpenFile::Scratch(file), offset: 0 }),
            ),
            None => Err(ProcessError::PathNotFound),
        }
    } else if path == console_path() {
        Ok(FileDescriptor::Char(CharDeviceId::Console))
    } else if path == null_path() {
        if char_registered(devices.registry@, CharDeviceId::Null) {
            Ok(FileDescriptor::Char(CharDeviceId::Null))
        } else {
            Err(ProcessError::PathNotFound)
        }
    } else if path == zero_path() {
        if char_registered(devices.registry@, CharDeviceId::Zero) {
            Ok(FileDescriptor::Char(CharDeviceId::Zero))
        } else {
            Err(ProcessError::PathNotFound)
        }
    } else {
        Err(ProcessError::PathNotFound)
    }
}

/// Tells whether the character device `id` is registered.
pub fn is_char_registered<D: BlockDevice>(devices: &Devices<D>, id: CharDeviceId) -> (yes: bool)
    ensures
        yes == char_registered(devices.registry@, id),
{
    let mut i: usize = 0;
    while i < devices.registry.slots.len()
        invariant
            i <= devices.registry@.len(),
            forall|j: int| 0 <= j < i ==> #[trigger] devices.registry@[j] != DriverSlot::Char(id),
        decreases devices.registry@.len() - i,
    {
        match devices.registry.slots[i].as_char() {
            Some(found) => {
                if found == id {
                    return true;
                }
            },
            None => {},
        }
        i += 1;
    }
    false
}

/// Works out what `path` opens.
pub fn resolve_path<D: BlockDevice>(devices: &Devices<D>, path: &[u8]) -> (res: Result<
    FileDescriptor,
    ProcessError,
>)
    requires
        devices.wf(),
    ensures
        res matches Ok(descriptor) ==> descriptor.wf(),
        devices.disk.storage() matches Some(storage) ==> res == spec_resolve_path(
            *devices,
            storage,
            path@,
        ),
        !(path@.len() >= 5 && path@.subrange(0, 5) == fat_prefix()) ==> res == spec_resolve_path(
            *devices,
            Seq::empty(),
            path@,
        ),
{
    let len = path.len();
    if len >= 5 && path[0] == 0x2F && path[1] == 0x66 && path[2] == 0x61 && path[3] == 0x74
        && path[4] == 0x2F {
        assert(path@.subrange(0, 5) =~= fat_prefix());
        let mut name: Vec<u8> = Vec::new();
        let mut i: usize = 5;
        while i < len
            invariant
                5 <= i <= len,
                len == path@.len(),
                name@ == path@.subrange(5, i as int),
            decreases len - i,
        {
            name.push(path[i]);
            assert(path@.subrange(5, i + 1) =~= path@.subrange(5, i as int).push(path@[i as int]));
            i += 1;
        }
        return match open_file_bytes(&devices.fat, &devices.disk, name.as_slice()) {
            Ok(file) => Ok(FileDescriptor::Vfs(VfsHandle::new(OpenFile::Fat(file)))),
            Err(FatError::Io) => Err(ProcessError::AllocationFailed),
            Err(_) => Err(ProcessError::PathNotFound),
        };
    }
    proof {
        if len >= 5 {
            let head = path@.subrange(0, 5);
            assert(head[0] == path@[0] && head[1] == path@[1] && head[2] == path@[2] && head[3]
                == path@[3] && head[4] == path@[4]);
        }
    }
    let scratch: [u8; 8] = [0x2F, 0x73, 0x63, 0x72, 0x61, 0x74, 0x63, 0x68];
    let console: [u8; 12] = [0x2F, 0x64, 0x65, 0x76, 0x2F, 0x63, 0x6F, 0x6E, 0x73, 0x6F, 0x6C, 0x65];
    let null: [u8; 9] = [0x2F, 0x64, 0x65, 0x76, 0x2F, 0x6E, 0x75, 0x6C, 0x6C];
    let zero: [u8; 9] = [0x2F, 0x64, 0x65, 0x76, 0x2F, 0x7A, 0x65, 0x72, 0x6F];
    assert(scratch@ =~= scratch_path());
    assert(console@ =~= console_path());
    assert(null@ =~= null_path());
    assert(zero@ =~= zero_path());
    if bytes_equal(path, scratch.as_slice()) {
        match devices.scratch {
            Some(file) => Ok(FileDescriptor::Vfs(VfsHandle::new(OpenFile::Scratch(file)))),
            None => Err(ProcessError::PathNotFound),
        }
    } else if bytes_equal(path, console.as_slice()) {
        Ok(FileDescriptor::Char(CharDeviceId::Console))
    } else if bytes_equal(path, null.as_slice()) {
        if is_char_registered(devices, CharDeviceId::Null) {
            Ok(FileDescriptor::Char(CharDeviceId::Null))
        } else {
            Err(ProcessError::PathNotFound)
        }
    } else if bytes_equal(path, zero.as_slice()) {
        if is_char_registered(devices, CharDeviceId::Zero) {
            Ok(FileDescriptor::Char(CharDeviceId::Zero))
        } else {
            Err(ProcessError::PathNotFound)
        }
    } else {
        Err(ProcessError::PathNotFound)
    }
}

/// What putting `descriptor` into the first free slot of the process `pid`
/// does to the table, and the slot's index.
pub open spec fn spec_install_fd(
    before: Scheduler,
    after: Scheduler,
    pid: Pid,
    descriptor: FileDescriptor,
    res: Result<usize, ProcessError>,
) -> bool {
    let entries = before.table@;
    let index = spec_index_of(entries, pid);
    if index >= entries.len() {
        res == Err::<usize, ProcessError>(ProcessError::ProcessNotFound) && after == before
    } else {
        let slot = spec_first_free(entries[index].fds@);
        &&& after == (Scheduler {
            table: ProcessTable { entries: after.table.entries, ..before.table },
            ..before
        })
        &&& after.table@.len() == entries.len()
        &&& forall|i: int| 0 <= i < entries.len() && i != index ==> after.table@[i] == entries[i]
        &&& after.table@[index] == (Process { fds: after.table@[index].fds, ..entries[index] })
        &&& if slot >= MAX_FDS {
            res == Err::<usize, ProcessError>(ProcessError::NoFreeFileDescriptors)
                && after.table@[index] == entries[index]
        } else {
            res is Ok && res->Ok_0 == slot && after.table@[index].fds@ == entries[index].fds@.update(
                slot,
                Some(descriptor),
            )
        }
    }
}

/// Opens `path` for the process `pid` and returns the descriptor's number.
/// The path is resolved first: a path that opens nothing fails whoever asks.
pub fn open_path<D: BlockDevice>(sched: &mut Scheduler, devices: &Devices<D>, pid: Pid, path: &str) -> (res:
    Result<usize, ProcessError>)
    requires
        old(sched).wf(),
        devices.wf(),
    ensures
        final(sched).wf(),
        res matches Ok(fd) ==> fd < MAX_FDS,
        devices.disk.storage() matches Some(storage) ==> match spec_resolve_path(
            *devices,
            storage,
            path.spec_bytes(),
        ) {
            Err(e) => res == Err::<usize, ProcessError>(e) && *final(sched) == *old(sched),
            Ok(descriptor) => spec_install_fd(*old(sched), *final(sched), pid, descriptor, res),
        },
        !(path.spec_bytes().len() >= 5 && path.spec_bytes().subrange(0, 5) == fat_prefix())
            ==> match spec_resolve_path(*devices, Seq::empty(), path.spec_bytes()) {
            Err(e) => res == Err::<usize, ProcessError>(e) && *final(sched) == *old(sched),
            Ok(descriptor) => spec_install_fd(*old(sched), *final(sched), pid, descriptor, res),
        },
{
    open_path_bytes(sched, devices, pid, path.as_bytes())
}

/// Opens the path `path` for the process `pid`.
pub fn open_path_bytes<D: BlockDevice>(
    sched: &mut Scheduler,
    devices: &Devices<D>,
    pid: Pid,
    path: &[u8],
) -> (res: Result<usize, ProcessError>)
    requires
        old(sched).wf(),
        devices.wf(),
    ensures
        final(sched).wf(),
        res matches Ok(fd) ==> fd < MAX_FDS,
        devices.disk.storage() matches Some(storage) ==> match spec_resolve_path(
            *devices,
            storage,
            path@,
        ) {
            Err(e) => res == Err::<usize, ProcessError>(e) && *final(sched) == *old(sched),
            Ok(descriptor) => spec_install_fd(*old(sched), *final(sched), pid, descriptor, res),
        },
        !(path@.len() >= 5 && path@.subrange(0, 5) == fat_prefix()) ==> match spec_resolve_path(
            *devices,
            Seq::empty(),
            path@,
        ) {
            Err(e) => res == Err::<usize, ProcessError>(e) && *final(sched) == *old(sched),
            Ok(descriptor) => spec_install_fd(*old(sched), *final(sched), pid, descriptor, res),
        },
{
    let descriptor = match resolve_path(devices, path) {
        Ok(descriptor) => descriptor,
        Err(e) => { return Err(e); },
    };
    let index = match sched.table.find_index_by_pid(pid) {
        Some(index) => index,
        None => { return Err(ProcessError::ProcessNotFound); },
    };
    assert(sched.table@[index as int].wf());
    let res = sched.table.entries[index].allocate_fd_slot(descriptor);
    proof {
        lemma_first_free_bounds(old(sched).table@[index as int].fds@);
        lemma_fds_change_keeps_wf(*old(sched), *sched);
    }
    res
}

/// The first free slot of a table is not negative and not past its end.
pub proof fn lemma_first_free_bounds(fds: Seq<Option<FileDescriptor>>)
    ensures
        0 <= spec_first_free(fds) <= fds.len(),
    decreases fds.len(),
{
    if fds.len() > 0 && fds[0] is Some {
        lemma_first_free_bounds(fds.drop_first());
    }
}

/// A scheduler in which only descriptor tables changed is still well formed.
pub proof fn lemma_fds_change_keeps_wf(before: Scheduler, after: Scheduler)
    requires
        before.wf(),
        after == (Scheduler {
            table: ProcessTable { entries: after.table.entries, ..before.table },
            ..before
        }),
        after.table@.len() == before.table@.len(),
        forall|i: int|
            0 <= i < before.table@.len() ==> #[trigger] after.table@[i] == (Process {
                fds: after.table@[i].fds,
                ..before.table@[i]
            }) && after.table@[i].fds@.len() == MAX_FDS,
    ensures
        after.wf(),
{
    assert forall|i: int| 0 <= i < before.table@.len() implies (#[trigger] after.table@[i]).pid
        == before.table@[i].pid && after.table@[i].is_idle == before.table@[i].is_idle
        && after.table@[i].wf() && (after.table@[i].state == ProcessState::Running
        ==> before.table@[i].state == ProcessState::Running) by {
        assert(before.table@[i].wf());
        assert(after.table@[i] == (Process { fds: after.table@[i].fds, ..before.table@[i] }));
    }
    lemma_same_pids_wf(before, after);
}

/// Whether descriptor `fd` of the process `pid` is open.
pub open spec fn spec_fd_open(entries: Seq<Process>, pid: Pid, fd: usize) -> bool {
    &&& spec_index_of(entries, pid) < entries.len()
    &&& fd < MAX_FDS
    &&& entries[spec_index_of(entries, pid)].fds@.len() == MAX_FDS
    &&& entries[spec_index_of(entries, pid)].fds@[fd as int] is Some
}

/// Closes descriptor `fd` of the process `pid`: the slot is free again, and
/// what was open is flushed. A flush that fails does not fail the close.
pub fn close_fd<D: BlockDevice>(sched: &mut Scheduler, devices: &mut Devices<D>, pid: Pid, fd: usize) -> (res:
    Result<(), ProcessError>)
    requires
        old(sched).wf(),
        old(devices).wf(),
    ensures
        final(sched).wf(),
        final(devices).wf(),
        final(devices).registry == old(devices).registry,
        final(devices).console == old(devices).console,
        final(devices).keyboard == old(devices).keyboard,
        final(devices).scratch == old(devices).scratch,
        final(devices).fat == old(devices).fat,
        final(devices).disk.spec_block_size() == old(devices).disk.spec_block_size(),
        final(devices).disk.storage() == old(devices).disk.storage(),
        ({
            let entries = old(sched).table@;
            let index = spec_index_of(entries, pid);
            if index >= entries.len() {
                res == Err::<(), ProcessError>(ProcessError::ProcessNotFound) && *final(sched) == *old(sched)
            } else if !spec_fd_open(entries, pid, fd) {
                res == Err::<(), ProcessError>(ProcessError::InvalidFileDescriptor) && *final(sched)
                    == *old(sched)
            } else {
                &&& res is Ok
                &&& *final(sched) == (Scheduler {
                    table: ProcessTable { entries: final(sched).table.entries, ..old(sched).table },
                    ..*old(sched)
                })
                &&& final(sched).table@.len() == entries.len()
                &&& forall|i: int|
                    0 <= i < entries.len() && i != index ==> final(sched).table@[i] == entries[i]
                &&& final(sched).table@[index] == (Process {
                    fds: final(sched).table@[index].fds,
                    ..entries[index]
                })
                &&& final(sched).table@[index].fds@ == entries[index].fds@.update(fd as int, None)
            }
        }),
{
    let index = match sched.table.find_index_by_pid(pid) {
        Some(index) => index,
        None => { return Err(ProcessError::ProcessNotFound); },
    };
    assert(sched.table@[index as int].wf());
    if sched.table.entries[index].fd(fd).is_none() {
        return Err(ProcessError::InvalidFileDescriptor);
    }
    let mut descriptor = match sched.table.entries[index].release_fd_slot(fd) {
        Ok(descriptor) => descriptor,
        Err(e) => { return Err(e); },
    };
    proof {
        lemma_fds_change_keeps_wf(*old(sched), *sched);
    }
    let _ = descriptor.flush(devices);
    Ok(())
}

/// Hands out descriptor `fd` of the process `pid`, to be worked on in place.
pub fn with_fd_mut(sched: &mut Scheduler, pid: Pid, fd: usize) -> (res: Result<
    &mut FileDescriptor,
    ProcessError,
>)
    requires
        old(sched).wf(),
    ensures
        spec_index_of(old(sched).table@, pid) >= old(sched).table@.len() ==> res is Err
            && res->Err_0 == ProcessError::ProcessNotFound && *final(sched) == *old(sched),
        spec_index_of(old(sched).table@, pid) < old(sched).table@.len() && !spec_fd_open(
            old(sched).table@,
            pid,
            fd,
        ) ==> res is Err && res->Err_0 == ProcessError::InvalidFileDescriptor && *final(sched)
            == *old(sched),
        spec_fd_open(old(sched).table@, pid, fd) ==> ({
            let entries = old(sched).table@;
            let index = spec_index_of(entries, pid);
            &&& res is Ok
            &&& *res->Ok_0 == entries[index].fds@[fd as int]->0
            &&& *final(sched) == (Scheduler {
                table: ProcessTable { entries: final(sched).table.entries, ..old(sched).table },
                ..*old(sched)
            })
            &&& final(sched).table@.len() == entries.len()
            &&& forall|i: int|
                0 <= i < entries.len() && i != index ==> final(sched).table@[i] == entries[i]
            &&& final(sched).table@[index] == (Process {
                fds: final(sched).table@[index].fds,
                ..entries[index]
            })
            &&& final(sched).table@[index].fds@ == entries[index].fds@.update(
                fd as int,
                Some(*final(res->Ok_0)),
            )
        }),
{
    let index = match sched.table.find_index_by_pid(pid) {
        Some(index) => index,
        None => { return Err(ProcessError::ProcessNotFound); },
    };
    assert(sched.table@[index as int].wf());
    if fd >= MAX_FDS {
        return Err(ProcessError::InvalidFileDescriptor);
    }
    if sched.table.entries[index].fds[fd].is_none() {
        return Err(ProcessError::InvalidFileDescriptor);
    }
    match &mut sched.table.entries[index].fds[fd] {
        Some(descriptor) => Ok(descriptor),
        None => Err(ProcessError::InvalidFileDescriptor),
    }
}

/// Hands out the process `pid`, to be changed in place.
pub fn with_process_mut(sched: &mut Scheduler, pid: Pid) -> (res: Result<&mut Process, ProcessError>)
    ensures
        spec_index_of(old(sched).table@, pid) >= old(sched).table@.len() ==> res is Err
            && res->Err_0 == ProcessError::ProcessNotFound && *final(sched) == *old(sched),
        spec_index_of(old(sched).table@, pid) < old(sched).table@.len() ==> ({
            let entries = old(sched).table@;
            let index = spec_index_of(entries, pid);
            &&& res is Ok
            &&& *res->Ok_0 == entries[index]
            &&& *final(sched) == (Scheduler {
                table: ProcessTable { entries: final(sched).table.entries, ..old(sched).table },
                ..*old(sched)
            })
            &&& final(sched).table@ == entries.update(index, *final(res->Ok_0))
        }),
{
    match sched.table.find_index_by_pid(pid) {
        Some(index) => Ok(&mut sched.table.entries[index]),
        None => Err(ProcessError::ProcessNotFound),
    }
}

/// The name of a process state.
pub fn state_name(state: ProcessState) -> (name: &'static str)
    ensures
        name@ == (match state {
            ProcessState::Ready => "Ready"@,
            ProcessState::Running => "Running"@,
            ProcessState::Blocked => "Blocked"@,
            ProcessState::Zombie => "Zombie"@,
        }),
{
    match state {
        ProcessState::Ready => "Ready",
        ProcessState::Running => "Running",
        ProcessState::Blocked => "Blocked",
        ProcessState::Zombie => "Zombie",
    }
}

/// All that a dump of a process shows.
#[derive(Clone, Debug)]
pub struct ProcessDump {
    pub pid: Pid,
    pub name: &'static str,
    pub state: ProcessState,
    pub parent: Option<Pid>,
    pub credentials: Credentials,
    pub address_space: AddressSpace,
    pub user_stack: Option<UserStack>,
    pub user_entry: Option<u64>,
    pub wait_channel: Option<WaitChannel>,
    pub exit_code: Option<i32>,
    pub is_idle: bool,
    pub preempt_return: Option<u64>,
    pub cpu_slices: u64,
    pub stack_ptr: u64,
    pub context: Context,
    pub fds: Vec<Option<FileDescriptor>>,
    pub regions: Vec<OwnedRegion>,
}

/// `dump` shows `process`.
pub open spec fn dump_shows(dump: ProcessDump, process: Process) -> bool {
    &&& dump.pid == process.pid
    &&& dump.name == process.name
    &&& dump.state == process.state
    &&& dump.parent == process.parent
    &&& dump.credentials == process.credentials
    &&& dump.address_space == process.address_space
    &&& dump.user_stack == process.user_stack
    &&& dump.user_entry == process.user_entry
    &&& dump.wait_channel == process.wait_channel
    &&& dump.exit_code == process.exit_code
    &&& dump.is_idle == process.is_idle
    &&& dump.preempt_return == process.preempt_return
    &&& dump.cpu_slices == process.cpu_slices
    &&& dump.stack_ptr == process.stack_ptr
    &&& dump.context == process.context
    &&& dump.fds@ == process.fds@
    &&& dump.regions@ == process.regions@
}

fn dump_process_inner(process: &Process) -> (dump: ProcessDump)
    ensures
        dump_shows(dump, *process),
{
    let mut fds: Vec<Option<FileDescriptor>> = Vec::new();
    let mut i: usize = 0;
    while i < process.fds.len()
        invariant
            i <= process.fds@.len(),
            fds@ == process.fds@.subrange(0, i as int),
        decreases process.fds@.len() - i,
    {
        fds.push(process.fds[i]);
        assert(process.fds@.subrange(0, i + 1) =~= process.fds@.subrange(0, i as int).push(
            process.fds@[i as int],
        ));
        i += 1;
    }
    assert(process.fds@.subrange(0, process.fds@.len() as int) =~= process.fds@);
    let mut regions: Vec<OwnedRegion> = Vec::new();
    let mut i: usize = 0;
    while i < process.regions.regions.len()
        invariant
            i <= process.regions@.len(),
            regions@ == process.regions@.subrange(0, i as int),
        decreases process.regions@.len() - i,
    {
        regions.push(process.regions.regions[i]);
        assert(process.regions@.subrange(0, i + 1) =~= process.regions@.subrange(0, i as int).push(
            process.regions@[i as int],
        ));
        i += 1;
    }
    assert(process.regions@.subrange(0, process.regions@.len() as int) =~= process.regions@);
    ProcessDump {
        pid: process.pid,
        name: process.name,
        state: process.state,
        parent: process.parent,
        credentials: process.credentials,
        address_space: process.address_space,
        user_stack: process.user_stack,
        user_entry: process.user_entry,
        wait_channel: process.wait_channel,
        exit_code: process.exit_code,
        is_idle: process.is_idle,
        preempt_return: process.preempt_return,
        cpu_slices: process.cpu_slices,
        stack_ptr: process.stack_ptr,
        context: process.context,
        fds,
        regions,
    }
}

/// What is known of the process `pid`, to be written to the log.
pub fn dump_process(sched: &Scheduler, pid: Pid) -> (res: Result<ProcessDump, ProcessError>)
    ensures
        spec_index_of(sched.table@, pid) >= sched.table@.len() ==> res is Err && res->Err_0
            == ProcessError::ProcessNotFound,
        spec_index_of(sched.table@, pid) < sched.table@.len() ==> res is Ok && dump_shows(
            res->Ok_0,
            sched.table@[spec_index_of(sched.table@, pid)],
        ),
{
    match sched.table.get(pid) {
        Some(process) => Ok(dump_process_inner(process)),
        None => Err(ProcessError::ProcessNotFound),
    }
}

/// What is known of the current process.
pub fn dump_current_process(sched: &Scheduler) -> (res: Result<ProcessDump, ProcessError>)
    ensures
        sched.current_pid == 0 || spec_index_of(sched.table@, sched.current_pid)
            >= sched.table@.len() ==> res is Err && res->Err_0 == ProcessError::ProcessNotFound,
        sched.current_pid != 0 && spec_index_of(sched.table@, sched.current_pid)
            < sched.table@.len() ==> res is Ok && dump_shows(
            res->Ok_0,
            sched.table@[spec_index_of(sched.table@, sched.current_pid)],
        ),
{
    match current_pid(sched) {
        Some(pid) => dump_process(sched, pid),
        None => Err(ProcessError::ProcessNotFound),
    }
}

/// What is known of every process, in the order of the table.
pub fn dump_all_processes(sched: &Scheduler) -> (dumps: Vec<ProcessDump>)
    ensures
        dumps@.len() == sched.table@.len(),
        forall|i: int| 0 <= i < dumps@.len() ==> dump_shows(#[trigger] dumps@[i], sched.table@[i]),
{
    let mut dumps: Vec<ProcessDump> = Vec::new();
    let mut i: usize = 0;
    while i < sched.table.entries.len()
        invariant
            i <= sched.table@.len(),
            dumps@.len() == i,
            forall|j: int| 0 <= j < i ==> dump_shows(#[trigger] dumps@[j], sched.table@[j]),
        decreases sched.table@.len() - i,
    {
        dumps.push(dump_process_inner(&sched.table.entries[i]));
        i += 1;
    }
    dumps
}

} // verus!
