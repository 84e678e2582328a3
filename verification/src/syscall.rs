//! The system calls: what a task may ask of the kernel, and what it gets back.
//!
//! A call comes in as a frame of registers and goes out as one number: the
//! result, or one of seven numbers at the very top of the range, one for
//! each kind of error.

use vstd::prelude::*;
use vstd::string::StringSliceAdditionalSpecFns;
use crate::arch::paging::spec_translate;
use crate::devices::Devices;
use crate::drivers::{BlockDevice, DriverError};
use crate::kernel::Kernel;
use crate::process::api::current_address_space;
use crate::process::fd::{
    read_outcome, seek_outcome, write_outcome, FileDescriptor, FileIoError,
};
use crate::process::files::{
    close_fd, lemma_fds_change_keeps_wf, open_path_bytes, spec_fd_open, spec_install_fd,
    spec_resolve_path, with_fd_mut,
};
use crate::process::pcb::Process;
use crate::process::sched::{
    current_pid, exit_current, lemma_index_of_bounds, spec_current_index, spec_exit_table,
    switch_outcome, Scheduler,
};
use crate::process::table::{spec_index_of, ProcessTable};
use crate::process::types::{
    AddressSpace, AddressSpaceKind, Pid, ProcessError, SeekFrom, WaitChannel, MAX_FDS,
};
use crate::process::usercopy::{
    copy_from_user, copy_to_user, ensure_user_range, read_user_buffer, spec_copy_out,
    spec_user_bytes, spec_user_range_ok,
};
use crate::utf8::{is_valid_utf8, spec_valid_utf8};
use crate::vfs::VfsError;

verus! {

pub const NR_READ: u64 = 0;

pub const NR_WRITE: u64 = 1;

pub const NR_OPEN: u64 = 2;

pub const NR_CLOSE: u64 = 3;

pub const NR_SEEK: u64 = 8;

pub const NR_YIELD: u64 = 24;

pub const NR_EXIT: u64 = 60;

pub const FD_STDIN: u64 = 0;

pub const FD_STDOUT: u64 = 1;

pub const FD_STDERR: u64 = 2;

pub const FD_SCRATCH: u64 = 3;

pub const ERR_BADF: u64 = 0xFFFF_FFFF_FFFF_FFFF;

pub const ERR_FAULT: u64 = 0xFFFF_FFFF_FFFF_FFFE;

pub const ERR_NOSYS: u64 = 0xFFFF_FFFF_FFFF_FFFD;

pub const ERR_INVAL: u64 = 0xFFFF_FFFF_FFFF_FFFC;

pub const ERR_NOENT: u64 = 0xFFFF_FFFF_FFFF_FFFB;

pub const ERR_NOMEM: u64 = 0xFFFF_FFFF_FFFF_FFFA;

pub const ERR_IO: u64 = 0xFFFF_FFFF_FFFF_FFF9;

pub const IA32_EFER: u32 = 0xC000_0080;

pub const IA32_STAR: u32 = 0xC000_0081;

pub const IA32_LSTAR: u32 = 0xC000_0082;

pub const IA32_FMASK: u32 = 0xC000_0084;

/// From where a seek counts.
#[derive(Debug, Copy, Clone, PartialEq, Eq, Structural)]
pub enum SeekWhence {
    Start,
    Cur,
    End,
}

impl SeekWhence {
    /// The number that stands for `self` in a system call.
    pub fn as_raw(self) -> (raw: u64)
        ensures
            raw == (match self {
                SeekWhence::Start => 0u64,
                SeekWhence::Cur => 1u64,
                SeekWhence::End => 2u64,
            }),
    {
        match self {
            SeekWhence::Start => 0,
            SeekWhence::Cur => 1,
            SeekWhence::End => 2,
        }
    }
}

/// Why a system call failed.
#[derive(Debug, Copy, Clone, PartialEq, Eq, Structural)]
pub enum SysError {
    BadFileDescriptor,
    Fault,
    NoSys,
    InvalidArgument,
    NoEntry,
    NoMemory,
    Io,
}

pub type SysResult<T> = Result<T, SysError>;

/// The registers of a system call, as the entry stub pushes them.
#[derive(Debug, Copy, Clone, PartialEq, Eq, Structural)]
pub struct SyscallFrame {
    pub r9: u64,
    pub r8: u64,
    pub r10: u64,
    pub rdx: u64,
    pub rsi: u64,
    pub rdi: u64,
    pub rax: u64,
    pub rip: u64,
    pub rflags: u64,
}

impl SyscallFrame {
    pub fn empty() -> (frame: SyscallFrame)
        ensures
            frame == (SyscallFrame {
                r9: 0,
                r8: 0,
                r10: 0,
                rdx: 0,
                rsi: 0,
                rdi: 0,
                rax: 0,
                rip: 0,
                rflags: 0,
            }),
    {
        SyscallFrame { r9: 0, r8: 0, r10: 0, rdx: 0, rsi: 0, rdi: 0, rax: 0, rip: 0, rflags: 0 }
    }
}

/// The number that stands for `err`.
pub open spec fn spec_encode_error(err: SysError) -> u64 {
    match err {
        SysError::BadFileDescriptor => ERR_BADF,
        SysError::Fault => ERR_FAULT,
        SysError::NoSys => ERR_NOSYS,
        SysError::InvalidArgument => ERR_INVAL,
        SysError::NoEntry => ERR_NOENT,
        SysError::NoMemory => ERR_NOMEM,
        SysError::Io => ERR_IO,
    }
}

/// What the number that came back from a system call means: an error for
/// the seven highest numbers, the result for any other.
pub open spec fn spec_decode_ret(value: u64) -> SysResult<u64> {
    if value == ERR_BADF {
        Err(SysError::BadFileDescriptor)
    } else if value == ERR_FAULT {
        Err(SysError::Fault)
    } else if value == ERR_NOSYS {
        Err(SysError::NoSys)
    } else if value == ERR_INVAL {
        Err(SysError::InvalidArgument)
    } else if value == ERR_NOENT {
        Err(SysError::NoEntry)
    } else if value == ERR_NOMEM {
        Err(SysError::NoMemory)
    } else if value == ERR_IO {
        Err(SysError::Io)
    } else {
        Ok(value)
    }
}

/// The number that a result goes out as.
pub open spec fn spec_encode(res: SysResult<u64>) -> u64 {
    match res {
        Ok(value) => value,
        Err(e) => spec_encode_error(e),
    }
}

/// Tells the result of a system call from the number that came back.
pub fn decode_ret(value: u64) -> (res: SysResult<u64>)
    ensures
        res == spec_decode_ret(value),
{
    match value {
        ERR_BADF => Err(SysError::BadFileDescriptor),
        ERR_FAULT => Err(SysError::Fault),
        ERR_NOSYS => Err(SysError::NoSys),
        ERR_INVAL => Err(SysError::InvalidArgument),
        ERR_NOENT => Err(SysError::NoEntry),
        ERR_NOMEM => Err(SysError::NoMemory),
        ERR_IO => Err(SysError::Io),
        other => Ok(other),
    }
}

/// The number that stands for `err`. It is decoded as `err` again.
pub fn encode_error(err: SysError) -> (code: u64)
    ensures
        code == spec_encode_error(err),
        spec_decode_ret(code) == Err::<u64, SysError>(err),
{
    match err {
        SysError::BadFileDescriptor => ERR_BADF,
        SysError::Fault => ERR_FAULT,
        SysError::NoSys => ERR_NOSYS,
        SysError::InvalidArgument => ERR_INVAL,
        SysError::NoEntry => ERR_NOENT,
        SysError::NoMemory => ERR_NOMEM,
        SysError::Io => ERR_IO,
    }
}

/// Where a seek asks to go. An offset from the start of the file must not
/// be negative as a signed number; offsets from the present position and
/// from the end are signed.
pub open spec fn spec_decode_seek(offset: u64, whence: u64) -> SysResult<SeekFrom> {
    if whence == 0 {
        if offset > i64::MAX {
            Err(SysError::InvalidArgument)
        } else {
            Ok(SeekFrom::Start(offset))
        }
    } else if whence == 1 {
        Ok(SeekFrom::Current(offset as i64))
    } else if whence == 2 {
        Ok(SeekFrom::End(offset as i64))
    } else {
        Err(SysError::InvalidArgument)
    }
}

/// Reads the arguments of a seek.
pub fn decode_seek(offset: u64, whence: u64) -> (res: SysResult<SeekFrom>)
    ensures
        res == spec_decode_seek(offset, whence),
{
    match whence {
        0 => {
            if offset > i64::MAX as u64 {
                Err(SysError::InvalidArgument)
            } else {
                Ok(SeekFrom::Start(offset))
            }
        },
        1 => Ok(SeekFrom::Current(offset as i64)),
        2 => Ok(SeekFrom::End(offset as i64)),
        _ => Err(SysError::InvalidArgument),
    }
}

/// What a failure of a device or file means to the caller of a system call.
pub open spec fn spec_map_file_io_error(err: FileIoError) -> SysError {
    match err {
        FileIoError::Driver(DriverError::Unsupported) => SysError::InvalidArgument,
        FileIoError::Driver(DriverError::IoError) => SysError::Io,
        FileIoError::Driver(DriverError::RegistryFull) => SysError::NoMemory,
        FileIoError::Driver(DriverError::InitFailed) => SysError::Io,
        FileIoError::Vfs(VfsError::Unsupported) => SysError::InvalidArgument,
        FileIoError::Vfs(VfsError::InvalidOffset) => SysError::InvalidArgument,
        FileIoError::Vfs(VfsError::Io) => SysError::Io,
    }
}

pub fn map_file_io_error(err: FileIoError) -> (res: SysError)
    ensures
        res == spec_map_file_io_error(err),
{
    match err {
        FileIoError::Driver(DriverError::Unsupported) => SysError::InvalidArgument,
        FileIoError::Driver(DriverError::IoError) => SysError::Io,
        FileIoError::Driver(DriverError::RegistryFull) => SysError::NoMemory,
        FileIoError::Driver(DriverError::InitFailed) => SysError::Io,
        FileIoError::Vfs(VfsError::Unsupported) => SysError::InvalidArgument,
        FileIoError::Vfs(VfsError::InvalidOffset) => SysError::InvalidArgument,
        FileIoError::Vfs(VfsError::Io) => SysError::Io,
    }
}

/// What the outcome of a read or write means to the caller of a system call.
pub open spec fn spec_io_result(raw: Result<usize, FileIoError>) -> SysResult<usize> {
    match raw {
        Ok(n) => Ok(n),
        Err(e) => Err(spec_map_file_io_error(e)),
    }
}

/// What a failure to open means to the caller of a system call.
pub open spec fn spec_map_open_error(err: ProcessError) -> SysError {
    match err {
        ProcessError::NoFreeFileDescriptors => SysError::NoMemory,
        ProcessError::PathNotFound => SysError::NoEntry,
        _ => SysError::BadFileDescriptor,
    }
}

/// The scheduler changed at most in the descriptor `fd` of the process in
/// slot `index`: from `before` to `after`.
pub open spec fn only_fd_changed(
    old_sched: Scheduler,
    new_sched: Scheduler,
    index: int,
    fd: int,
    before: FileDescriptor,
    after: FileDescriptor,
) -> bool {
    let entries = old_sched.table@;
    &&& new_sched == (Scheduler {
        table: ProcessTable { entries: new_sched.table.entries, ..old_sched.table },
        ..old_sched
    })
    &&& new_sched.table@.len() == entries.len()
    &&& forall|i: int| 0 <= i < entries.len() && i != index ==> new_sched.table@[i] == entries[i]
    &&& new_sched.table@[index] == (Process { fds: new_sched.table@[index].fds, ..entries[index] })
    &&& entries[index].fds@[fd] == Some(before)
    &&& new_sched.table@[index].fds@ == entries[index].fds@.update(fd, Some(after))
}

/// What writing `data` to descriptor `fd` of the process `pid` does, and
/// what comes back. A descriptor that is not open is a bad descriptor.
pub open spec fn fd_write_outcome<D: BlockDevice>(
    old_sched: Scheduler,
    new_sched: Scheduler,
    devices: Devices<D>,
    devices_after: Devices<D>,
    pid: Pid,
    fd: u64,
    data: Seq<u8>,
    res: SysResult<usize>,
) -> bool {
    if fd >= MAX_FDS || !spec_fd_open(old_sched.table@, pid, fd as usize) {
        res == Err::<usize, SysError>(SysError::BadFileDescriptor) && devices_after == devices
            && new_sched.table@ == old_sched.table@ && new_sched.current_pid
            == old_sched.current_pid
    } else {
        let index = spec_index_of(old_sched.table@, pid);
        exists|before: FileDescriptor, after: FileDescriptor, raw: Result<usize, FileIoError>|
            #![trigger write_outcome(before, after, devices, devices_after, data, raw)]
            only_fd_changed(old_sched, new_sched, index, fd as int, before, after) && write_outcome(
                before,
                after,
                devices,
                devices_after,
                data,
                raw,
            ) && res == spec_io_result(raw)
    }
}

/// What reading from descriptor `fd` of the process `pid` into a buffer
/// does, and what comes back.
pub open spec fn fd_read_outcome<D: BlockDevice>(
    old_sched: Scheduler,
    new_sched: Scheduler,
    devices: Devices<D>,
    devices_after: Devices<D>,
    pid: Pid,
    fd: u64,
    buf: Seq<u8>,
    buf_after: Seq<u8>,
    res: SysResult<usize>,
) -> bool {
    if fd >= MAX_FDS || !spec_fd_open(old_sched.table@, pid, fd as usize) {
        res == Err::<usize, SysError>(SysError::BadFileDescriptor) && devices_after == devices
            && new_sched.table@ == old_sched.table@ && new_sched.current_pid
            == old_sched.current_pid && buf_after == buf
    } else {
        let index = spec_index_of(old_sched.table@, pid);
        exists|before: FileDescriptor, after: FileDescriptor, raw: Result<usize, FileIoError>|
            #![trigger read_outcome(before, after, devices, devices_after, buf, buf_after, raw)]
            only_fd_changed(old_sched, new_sched, index, fd as int, before, after) && read_outcome(
                before,
                after,
                devices,
                devices_after,
                buf,
                buf_after,
                raw,
            ) && res == spec_io_result(raw)
    }
}

/// What seeking on descriptor `fd` of the process `pid` does, and what
/// comes back.
pub open spec fn fd_seek_outcome(
    old_sched: Scheduler,
    new_sched: Scheduler,
    block_size: usize,
    pid: Pid,
    fd: u64,
    pos: SeekFrom,
    res: SysResult<u64>,
) -> bool {
    if fd >= MAX_FDS || !spec_fd_open(old_sched.table@, pid, fd as usize) {
        res == Err::<u64, SysError>(SysError::BadFileDescriptor) && new_sched.table@
            == old_sched.table@ && new_sched.current_pid == old_sched.current_pid
    } else {
        let index = spec_index_of(old_sched.table@, pid);
        exists|before: FileDescriptor, after: FileDescriptor, raw: Result<u64, FileIoError>|
            #![trigger seek_outcome(before, after, block_size, pos, raw)]
            only_fd_changed(old_sched, new_sched, index, fd as int, before, after) && seek_outcome(
                before,
                after,
                block_size,
                pos,
                raw,
            ) && res == (match raw {
                Ok(offset) => Ok::<u64, SysError>(offset),
                Err(e) => Err::<u64, SysError>(spec_map_file_io_error(e)),
            })
    }
}

/// Writes `bytes` to descriptor `fd` of the process `pid`.
pub fn fd_write<D: BlockDevice>(kernel: &mut Kernel<D>, pid: Pid, fd: u64, bytes: &[u8]) -> (res:
    SysResult<usize>)
    requires
        old(kernel).wf(),
    ensures
        final(kernel).wf(),
        final(kernel).pm == old(kernel).pm,
        final(kernel).heap == old(kernel).heap,
        final(kernel).mem == old(kernel).mem,
        final(kernel).env == old(kernel).env,
        final(kernel).timer == old(kernel).timer,
        final(kernel).pic == old(kernel).pic,
        final(kernel).interrupts == old(kernel).interrupts,
        fd_write_outcome(
            old(kernel).sched,
            final(kernel).sched,
            old(kernel).devices,
            final(kernel).devices,
            pid,
            fd,
            bytes@,
            res,
        ),
{
    if fd >= MAX_FDS as u64 {
        return Err(SysError::BadFileDescriptor);
    }
    proof {
        lemma_index_of_bounds(kernel.sched.table@, pid);
    }
    let descriptor = match with_fd_mut(&mut kernel.sched, pid, fd as usize) {
        Ok(descriptor) => descriptor,
        Err(_) => { return Err(SysError::BadFileDescriptor); },
    };
    let ghost before = *descriptor;
    let raw = descriptor.write(&mut kernel.devices, bytes);
    let ghost after = *descriptor;
    proof {
        let index = spec_index_of(old(kernel).sched.table@, pid);
        assert(old(kernel).sched.table@[index].wf());
        lemma_fds_change_keeps_wf(old(kernel).sched, kernel.sched);
        assert(only_fd_changed(old(kernel).sched, kernel.sched, index, fd as int, before, after));
        assert(write_outcome(before, after, old(kernel).devices, kernel.devices, bytes@, raw));
    }
    match raw {
        Ok(n) => Ok(n),
        Err(e) => Err(map_file_io_error(e)),
    }
}

/// Reads from descriptor `fd` of the process `pid` into `buf`.
pub fn fd_read<D: BlockDevice>(kernel: &mut Kernel<D>, pid: Pid, fd: u64, buf: &mut [u8]) -> (res:
    SysResult<usize>)
    requires
        old(kernel).wf(),
    ensures
        final(kernel).wf(),
        final(buf)@.len() == old(buf)@.len(),
        final(kernel).pm == old(kernel).pm,
        final(kernel).heap == old(kernel).heap,
        final(kernel).mem == old(kernel).mem,
        final(kernel).env == old(kernel).env,
        final(kernel).timer == old(kernel).timer,
        final(kernel).pic == old(kernel).pic,
        final(kernel).interrupts == old(kernel).interrupts,
        fd_read_outcome(
            old(kernel).sched,
            final(kernel).sched,
            old(kernel).devices,
            final(kernel).devices,
            pid,
            fd,
            old(buf)@,
            final(buf)@,
            res,
        ),
        res matches Ok(n) ==> n <= old(buf)@.len(),
{
    if fd >= MAX_FDS as u64 {
        return Err(SysError::BadFileDescriptor);
    }
    proof {
        lemma_index_of_bounds(kernel.sched.table@, pid);
    }
    let descriptor = match with_fd_mut(&mut kernel.sched, pid, fd as usize) {
        Ok(descriptor) => descriptor,
        Err(_) => { return Err(SysError::BadFileDescriptor); },
    };
    let ghost before = *descriptor;
    let raw = descriptor.read(&mut kernel.devices, buf);
    let ghost after = *descriptor;
    proof {
        let index = spec_index_of(old(kernel).sched.table@, pid);
        assert(old(kernel).sched.table@[index].wf());
        lemma_fds_change_keeps_wf(old(kernel).sched, kernel.sched);
        assert(only_fd_changed(old(kernel).sched, kernel.sched, index, fd as int, before, after));
        assert(read_outcome(
            before,
            after,
            old(kernel).devices,
            kernel.devices,
            old(buf)@,
            buf@,
            raw,
        ));
    }
    match raw {
        Ok(n) => Ok(n),
        Err(e) => Err(map_file_io_error(e)),
    }
}

/// Seeks on descriptor `fd` of the process `pid`.
pub fn fd_seek<D: BlockDevice>(kernel: &mut Kernel<D>, pid: Pid, fd: u64, pos: SeekFrom) -> (res:
    SysResult<u64>)
    requires
        old(kernel).wf(),
    ensures
        final(kernel).wf(),
        final(kernel).pm == old(kernel).pm,
        final(kernel).heap == old(kernel).heap,
        final(kernel).mem == old(kernel).mem,
        final(kernel).devices == old(kernel).devices,
        final(kernel).env == old(kernel).env,
        final(kernel).timer == old(kernel).timer,
        final(kernel).pic == old(kernel).pic,
        final(kernel).interrupts == old(kernel).interrupts,
        fd_seek_outcome(
            old(kernel).sched,
            final(kernel).sched,
            old(kernel).devices.disk.spec_block_size(),
            pid,
            fd,
            pos,
            res,
        ),
{
    if fd >= MAX_FDS as u64 {
        return Err(SysError::BadFileDescriptor);
    }
    proof {
        lemma_index_of_bounds(kernel.sched.table@, pid);
    }
    let descriptor = match with_fd_mut(&mut kernel.sched, pid, fd as usize) {
        Ok(descriptor) => descriptor,
        Err(_) => { return Err(SysError::BadFileDescriptor); },
    };
    let ghost before = *descriptor;
    let raw = descriptor.seek(&kernel.devices, pos);
    let ghost after = *descriptor;
    proof {
        let index = spec_index_of(old(kernel).sched.table@, pid);
        assert(old(kernel).sched.table@[index].wf());
        lemma_fds_change_keeps_wf(old(kernel).sched, kernel.sched);
        assert(only_fd_changed(old(kernel).sched, kernel.sched, index, fd as int, before, after));
        assert(seek_outcome(
            before,
            after,
            old(kernel).devices.disk.spec_block_size(),
            pos,
            raw,
        ));
    }
    match raw {
        Ok(offset) => Ok(offset),
        Err(e) => Err(map_file_io_error(e)),
    }
}

/// The process that makes a system call, and its address space.
pub open spec fn spec_caller<D: BlockDevice>(kernel: Kernel<D>) -> Option<(Pid, AddressSpace)> {
    let entries = kernel.sched.table@;
    let pid = kernel.sched.current_pid;
    if pid != 0 && spec_index_of(entries, pid) < entries.len() {
        Some((pid, entries[spec_index_of(entries, pid)].address_space))
    } else {
        None
    }
}

/// Whether `len` bytes at `ptr` cannot belong to the caller: in a user's
/// address space they must lie below the kernel's half, and in any they
/// must not run past the end of the address space.
pub open spec fn spec_bad_buffer(space: AddressSpace, ptr: u64, len: u64) -> bool {
    (space.kind == AddressSpaceKind::User && !spec_user_range_ok(ptr, len as nat)) || ptr + len
        > u64::MAX + 1 || len > usize::MAX
}

/// Nothing of the kernel changed but the descriptor tables and the devices.
pub open spec fn only_io_changed<D: BlockDevice>(before: Kernel<D>, after: Kernel<D>) -> bool {
    &&& after.pm == before.pm
    &&& after.heap == before.heap
    &&& after.env == before.env
    &&& after.timer == before.timer
    &&& after.pic == before.pic
    &&& after.interrupts == before.interrupts
}

fn caller<D: BlockDevice>(kernel: &Kernel<D>) -> (res: Option<(Pid, AddressSpace)>)
    ensures
        res == spec_caller(*kernel),
{
    let pid = match current_pid(&kernel.sched) {
        Some(pid) => pid,
        None => { return None; },
    };
    match current_address_space(&kernel.sched) {
        Some(space) => Some((pid, space)),
        None => None,
    }
}

/// What the system call `write(fd, buf, len)` does to the kernel, and what it
/// returns.
pub open spec fn sys_write_does<D: BlockDevice>(before: Kernel<D>, after: Kernel<D>, fd: u64, buf_ptr: u64, len: u64, ret: u64) -> bool {
    &&& only_io_changed(before, after)
    &&& after.mem == before.mem
    &&& len == 0 ==> ret == 0 && after == before
    &&& len > 0 && buf_ptr == 0 ==> ret == ERR_FAULT && after == before
    &&& len > 0 && buf_ptr != 0 ==> match spec_caller(before) {
        None => ret == ERR_BADF && after == before,
        Some((pid, space)) => if spec_bad_buffer(space, buf_ptr, len) {
            ret == ERR_FAULT && after == before
        } else {
            match spec_user_bytes(before.mem@, space.cr3, buf_ptr, len as nat) {
                None => ret == ERR_FAULT && after == before,
                Some(bytes) => exists|res: SysResult<usize>|
                    #![trigger fd_write_outcome(before.sched, after.sched, before.devices, after.devices, pid, fd, bytes, res)]
                    fd_write_outcome(
                        before.sched,
                        after.sched,
                        before.devices,
                        after.devices,
                        pid,
                        fd,
                        bytes,
                        res,
                    ) && ret == (match res {
                        Ok(n) => n as u64,
                        Err(e) => spec_encode_error(e),
                    }),
            }
        },
    }
}

/// The system call `write(fd, buf, len)`: writes `len` bytes at `buf_ptr` of
/// the caller's memory to the descriptor, and returns how many were written.
///
/// Nothing is written for a length of zero. A null buffer, a buffer that
/// cannot belong to the caller, and a buffer on a page that is not mapped
/// are a fault. Without a calling process the descriptor is bad.
pub fn sys_write<D: BlockDevice>(kernel: &mut Kernel<D>, fd: u64, buf_ptr: u64, len: u64) -> (ret: u64)
    requires
        old(kernel).wf(),
    ensures
        final(kernel).wf(),
        sys_write_does(*old(kernel), *final(kernel), fd, buf_ptr, len, ret),
{
    if len == 0 {
        return 0;
    }
    if buf_ptr == 0 {
        return ERR_FAULT;
    }
    let (pid, space) = match caller(kernel) {
        Some(found) => found,
        None => { return ERR_BADF; },
    };
    if len > usize::MAX as u64 {
        return ERR_FAULT;
    }
    let data = match read_user_buffer(&kernel.mem, &space, buf_ptr, len as usize) {
        Ok(data) => data,
        Err(_) => { return ERR_FAULT; },
    };
    match fd_write(kernel, pid, fd, data.as_slice()) {
        Ok(count) => count as u64,
        Err(err) => encode_error(err),
    }
}

/// What the system call `read(fd, buf, len)` does to the kernel, and what it
/// returns.
pub open spec fn sys_read_does<D: BlockDevice>(before: Kernel<D>, after: Kernel<D>, fd: u64, buf_ptr: u64, len: u64, ret: u64) -> bool {
    &&& only_io_changed(before, after)
    &&& len == 0 ==> ret == 0 && after == before
    &&& len > 0 && buf_ptr == 0 ==> ret == ERR_FAULT && after == before
    &&& len > 0 && buf_ptr != 0 ==> match spec_caller(before) {
        None => ret == ERR_BADF && after == before,
        Some((pid, space)) => if spec_bad_buffer(space, buf_ptr, len) {
            ret == ERR_FAULT && after == before
        } else {
            exists|res: SysResult<usize>, read: Seq<u8>|
                #![trigger fd_read_outcome(before.sched, after.sched, before.devices, after.devices, pid, fd, zeros(len as nat), read, res)]
                fd_read_outcome(
                    before.sched,
                    after.sched,
                    before.devices,
                    after.devices,
                    pid,
                    fd,
                    zeros(len as nat),
                    read,
                    res,
                ) && (match res {
                    Err(e) => ret == spec_encode_error(e) && after.mem@ == before.mem@,
                    Ok(n) => {
                        let (mem, copied) = spec_copy_out(
                            before.mem@,
                            space.cr3,
                            buf_ptr,
                            read.subrange(0, n as int),
                        );
                        after.mem@ == mem && ret == (if copied is Ok {
                            n as u64
                        } else {
                            ERR_FAULT
                        })
                    },
                })
        },
    }
}

/// The system call `read(fd, buf, len)`: reads up to `len` bytes from the
/// descriptor into the caller's memory at `buf_ptr`, and returns how many
/// were read.
///
/// Nothing is read for a length of zero. A null buffer and a buffer that
/// cannot belong to the caller are a fault, and nothing is read. What was
/// read is copied to the caller's memory: a page that is not mapped is a
/// fault then, and what was read is lost.
pub fn sys_read<D: BlockDevice>(kernel: &mut Kernel<D>, fd: u64, buf_ptr: u64, len: u64) -> (ret: u64)
    requires
        old(kernel).wf(),
    ensures
        final(kernel).wf(),
        sys_read_does(*old(kernel), *final(kernel), fd, buf_ptr, len, ret),
{
    if len == 0 {
        return 0;
    }
    if buf_ptr == 0 {
        return ERR_FAULT;
    }
    let (pid, space) = match caller(kernel) {
        Some(found) => found,
        None => { return ERR_BADF; },
    };
    if len > usize::MAX as u64 {
        return ERR_FAULT;
    }
    match space.kind() {
        AddressSpaceKind::User => {
            if ensure_user_range(buf_ptr, len as usize).is_err() {
                return ERR_FAULT;
            }
        },
        AddressSpaceKind::Kernel => {
            if buf_ptr.checked_add(len - 1).is_none() {
                return ERR_FAULT;
            }
        },
    }
    let mut buffer: Vec<u8> = vec![0u8; len as usize];
    assert(buffer@ =~= zeros(len as nat));
    let res = fd_read(kernel, pid, fd, buffer.as_mut_slice());
    let ghost read = buffer@;
    let ghost mid = *kernel;
    match res {
        Ok(count) => {
            buffer.truncate(count);
            assert(buffer@ =~= read.subrange(0, count as int));
            match copy_to_user(&mut kernel.mem, &space, buf_ptr, buffer.as_slice()) {
                Ok(()) => count as u64,
                Err(_) => ERR_FAULT,
            }
        },
        Err(err) => encode_error(err),
    }
}

/// `len` zero bytes: the buffer that a read fills.
pub open spec fn zeros(len: nat) -> Seq<u8> {
    Seq::new(len, |i: int| 0u8)
}

/// The bytes of `bytes` before the first zero byte.
pub open spec fn spec_trim_nul(bytes: Seq<u8>) -> Seq<u8> {
    bytes.subrange(0, crate::fs::fat::index_of(bytes, 0))
}

fn trim_nul(bytes: &[u8]) -> (end: usize)
    ensures
        end <= bytes@.len(),
        bytes@.subrange(0, end as int) == spec_trim_nul(bytes@),
{
    let mut end: usize = 0;
    assert(bytes@.subrange(0, bytes@.len() as int) =~= bytes@);
    while end < bytes.len() && bytes[end] != 0
        invariant
            end <= bytes@.len(),
            crate::fs::fat::index_of(bytes@, 0) == end + crate::fs::fat::index_of(
                bytes@.subrange(end as int, bytes@.len() as int),
                0,
            ),
        decreases bytes@.len() - end,
    {
        assert(bytes@.subrange(end as int, bytes@.len() as int).drop_first() =~= bytes@.subrange(
            end + 1,
            bytes@.len() as int,
        ));
        end += 1;
    }
    end
}

/// What opening the path `path` for the process `pid` gives the caller of a
/// system call, where `storage` is what the disk holds.
pub open spec fn open_outcome_on<D: BlockDevice>(
    before: Kernel<D>,
    after: Kernel<D>,
    storage: Seq<u8>,
    pid: Pid,
    path: Seq<u8>,
    res: SysResult<usize>,
) -> bool {
    match spec_resolve_path(before.devices, storage, path) {
        Err(e) => res == Err::<usize, SysError>(spec_map_open_error(e)) && after.sched == before.sched,
        Ok(descriptor) => exists|raw: Result<usize, ProcessError>|
            #![trigger spec_install_fd(before.sched, after.sched, pid, descriptor, raw)]
            spec_install_fd(before.sched, after.sched, pid, descriptor, raw) && res == (match raw {
                Ok(fd) => Ok::<usize, SysError>(fd),
                Err(e) => Err::<usize, SysError>(spec_map_open_error(e)),
            }),
    }
}

/// Whether `path` names a file of the volume by a name that is no short
/// name: it begins with `/fat/`, and what follows has a byte that has no
/// place in a short name, a part that is too long, or more than one dot.
pub open spec fn spec_bad_fat_name(path: Seq<u8>) -> bool {
    &&& path.len() >= 5
    &&& path.subrange(0, 5) == crate::process::files::fat_prefix()
    &&& crate::fs::fat::spec_format_short_name(path.subrange(5, path.len() as int)) is None
}

/// Tells whether `path` names a file of the volume by a name that is no
/// short name.
pub fn bad_fat_name(path: &[u8]) -> (bad: bool)
    ensures
        bad == spec_bad_fat_name(path@),
{
    if path.len() < 5 {
        return false;
    }
    if !(path[0] == 0x2F && path[1] == 0x66 && path[2] == 0x61 && path[3] == 0x74 && path[4]
        == 0x2F) {
        assert(path@.subrange(0, 5)[0] == path@[0] && path@.subrange(0, 5)[1] == path@[1]
            && path@.subrange(0, 5)[2] == path@[2] && path@.subrange(0, 5)[3] == path@[3]
            && path@.subrange(0, 5)[4] == path@[4]);
        return false;
    }
    assert(path@.subrange(0, 5) =~= crate::process::files::fat_prefix());
    let mut name: Vec<u8> = Vec::new();
    let mut i: usize = 5;
    while i < path.len()
        invariant
            5 <= i <= path@.len(),
            name@ == path@.subrange(5, i as int),
        decreases path@.len() - i,
    {
        name.push(path[i]);
        assert(name@ =~= path@.subrange(5, i + 1));
        i += 1;
    }
    crate::fs::fat::format_short_name_bytes(name.as_slice()).is_none()
}

/// What opening the path `path` for the process `pid` gives the caller of a
/// system call: a name under `/fat/` that is no short name is an invalid
/// argument, and nothing changes. Of any other path on the volume this says
/// something only where what the disk holds is known.
pub open spec fn open_outcome<D: BlockDevice>(
    before: Kernel<D>,
    after: Kernel<D>,
    pid: Pid,
    path: Seq<u8>,
    res: SysResult<usize>,
) -> bool {
    if spec_bad_fat_name(path) {
        res == Err::<usize, SysError>(SysError::InvalidArgument) && after == before
    } else {
        open_outcome_named(before, after, pid, path, res)
    }
}

/// What opening the path `path` for the process `pid` gives the caller of a
/// system call, for a path that is not refused for its name.
pub open spec fn open_outcome_named<D: BlockDevice>(
    before: Kernel<D>,
    after: Kernel<D>,
    pid: Pid,
    path: Seq<u8>,
    res: SysResult<usize>,
) -> bool {
    &&& before.devices.disk.storage() matches Some(storage) ==> open_outcome_on(
        before,
        after,
        storage,
        pid,
        path,
        res,
    )
    &&& !(path.len() >= 5 && path.subrange(0, 5) == crate::process::files::fat_prefix())
        ==> open_outcome_on(before, after, Seq::empty(), pid, path, res)
}

/// Opens the path `path` for the process `pid`.
pub fn open_for<D: BlockDevice>(kernel: &mut Kernel<D>, pid: Pid, path: &[u8]) -> (res: SysResult<usize>)
    requires
        old(kernel).wf(),
    ensures
        final(kernel).wf(),
        only_io_changed(*old(kernel), *final(kernel)),
        final(kernel).mem == old(kernel).mem,
        final(kernel).devices == old(kernel).devices,
        res matches Ok(fd) ==> fd < MAX_FDS,
        open_outcome(*old(kernel), *final(kernel), pid, path@, res),
{
    if bad_fat_name(path) {
        return Err(SysError::InvalidArgument);
    }
    let raw = open_path_bytes(&mut kernel.sched, &kernel.devices, pid, path);
    let res = match raw {
        Ok(fd) => Ok(fd),
        Err(ProcessError::NoFreeFileDescriptors) => Err(SysError::NoMemory),
        Err(ProcessError::PathNotFound) => Err(SysError::NoEntry),
        Err(ProcessError::InvalidFileDescriptor) => Err(SysError::BadFileDescriptor),
        Err(_) => Err(SysError::BadFileDescriptor),
    };
    proof {
        assert(res == (match raw {
            Ok(fd) => Ok::<usize, SysError>(fd),
            Err(e) => Err::<usize, SysError>(spec_map_open_error(e)),
        }));
        if old(kernel).devices.disk.storage() is Some {
            let storage = old(kernel).devices.disk.storage()->0;
            let resolved = spec_resolve_path(old(kernel).devices, storage, path@);
            if resolved is Ok {
                assert(spec_install_fd(old(kernel).sched, kernel.sched, pid, resolved->Ok_0, raw));
            }
            assert(open_outcome_on(*old(kernel), *kernel, storage, pid, path@, res));
        }
        if !(path@.len() >= 5 && path@.subrange(0, 5) == crate::process::files::fat_prefix()) {
            let resolved = spec_resolve_path(old(kernel).devices, Seq::empty(), path@);
            if resolved is Ok {
                assert(spec_install_fd(old(kernel).sched, kernel.sched, pid, resolved->Ok_0, raw));
            }
            assert(open_outcome_on(*old(kernel), *kernel, Seq::empty(), pid, path@, res));
        }
    }
    res
}

/// What the system call `open(path, len, flags)` does to the kernel, and what
/// it returns.
pub open spec fn sys_open_does<D: BlockDevice>(before: Kernel<D>, after: Kernel<D>, path_ptr: u64, path_len: u64, flags: u64, ret: u64) -> bool {
    &&& only_io_changed(before, after)
    &&& after.mem == before.mem
    &&& after.devices == before.devices
    &&& path_ptr == 0 || path_len == 0 ==> ret == ERR_INVAL && after == before
    &&& path_ptr != 0 && path_len != 0 ==> match spec_caller(before) {
        None => ret == ERR_BADF && after == before,
        Some((pid, space)) => if spec_bad_buffer(space, path_ptr, path_len) {
            ret == ERR_FAULT && after == before
        } else {
            match spec_user_bytes(before.mem@, space.cr3, path_ptr, path_len as nat) {
                None => ret == ERR_FAULT && after == before,
                Some(bytes) => if !spec_valid_utf8(spec_trim_nul(bytes)) {
                    ret == ERR_INVAL && after == before
                } else {
                    exists|res: SysResult<usize>|
                        #![trigger open_outcome(before, after, pid, spec_trim_nul(bytes), res)]
                        open_outcome(
                            before,
                            after,
                            pid,
                            spec_trim_nul(bytes),
                            res,
                        ) && ret == (match res {
                            Ok(fd) => fd as u64,
                            Err(e) => spec_encode_error(e),
                        })
                },
            }
        },
    }
}

/// The system call `open(path, len, flags)`: opens the path of `path_len`
/// bytes at `path_ptr` of the caller's memory, and returns the number of the
/// new descriptor.
///
/// A null pointer and a length of zero are invalid. The path ends at its
/// first zero byte, and must be UTF-8. A name under `/fat/` that is no
/// short name is invalid too. The flags are not looked at.
pub fn sys_open<D: BlockDevice>(kernel: &mut Kernel<D>, path_ptr: u64, path_len: u64, flags: u64) -> (ret:
    u64)
    requires
        old(kernel).wf(),
    ensures
        final(kernel).wf(),
        sys_open_does(*old(kernel), *final(kernel), path_ptr, path_len, flags, ret),
{
    let _ = flags;
    if path_ptr == 0 || path_len == 0 {
        return ERR_INVAL;
    }
    let (pid, space) = match caller(kernel) {
        Some(found) => found,
        None => { return ERR_BADF; },
    };
    if path_len > usize::MAX as u64 {
        return ERR_FAULT;
    }
    let mut path = match read_user_buffer(&kernel.mem, &space, path_ptr, path_len as usize) {
        Ok(path) => path,
        Err(_) => { return ERR_FAULT; },
    };
    let end = trim_nul(path.as_slice());
    let ghost whole = path@;
    path.truncate(end);
    assert(path@ =~= spec_trim_nul(whole));
    if !is_valid_utf8(path.as_slice()) {
        return ERR_INVAL;
    }
    match open_for(kernel, pid, path.as_slice()) {
        Ok(fd) => fd as u64,
        Err(err) => encode_error(err),
    }
}

/// What closing descriptor `fd` of the current process does: where it was
/// open, its slot is free and nothing else of the processes changed; where
/// it was not, nothing changed. What was open is flushed: what the disk
/// holds stays as it is.
pub open spec fn close_outcome<D: BlockDevice>(
    before: Kernel<D>,
    after: Kernel<D>,
    fd: u64,
    closed: bool,
) -> bool {
    let entries = before.sched.table@;
    let pid = before.sched.current_pid;
    &&& after.devices.registry == before.devices.registry
    &&& after.devices.console == before.devices.console
    &&& after.devices.keyboard == before.devices.keyboard
    &&& after.devices.scratch == before.devices.scratch
    &&& after.devices.fat == before.devices.fat
    &&& after.devices.disk.spec_block_size() == before.devices.disk.spec_block_size()
    &&& after.devices.disk.storage() == before.devices.disk.storage()
    &&& closed == (pid != 0 && fd < MAX_FDS && spec_fd_open(entries, pid, fd as usize))
    &&& if closed {
        let index = spec_index_of(entries, pid);
        &&& after.sched == (Scheduler {
            table: ProcessTable { entries: after.sched.table.entries, ..before.sched.table },
            ..before.sched
        })
        &&& after.sched.table@.len() == entries.len()
        &&& forall|i: int| 0 <= i < entries.len() && i != index ==> after.sched.table@[i] == entries[i]
        &&& after.sched.table@[index] == (Process {
            fds: after.sched.table@[index].fds,
            ..entries[index]
        })
        &&& after.sched.table@[index].fds@ == entries[index].fds@.update(fd as int, None)
    } else {
        after.sched == before.sched
    }
}

/// What the system call `close(fd)` does to the kernel, and what it returns.
pub open spec fn sys_close_does<D: BlockDevice>(before: Kernel<D>, after: Kernel<D>, fd: u64, ret: u64) -> bool {
    &&& only_io_changed(before, after)
    &&& after.mem == before.mem
    &&& after.devices.disk.storage() == before.devices.disk.storage()
    &&& close_outcome(before, after, fd, ret == 0)
    &&& ({
        let entries = before.sched.table@;
        let pid = before.sched.current_pid;
        if pid != 0 && fd < MAX_FDS && spec_fd_open(entries, pid, fd as usize) {
            let index = spec_index_of(entries, pid);
            &&& ret == 0
            &&& after.sched.table@.len() == entries.len()
            &&& forall|i: int|
                0 <= i < entries.len() && i != index ==> after.sched.table@[i]
                    == entries[i]
            &&& after.sched.table@[index].fds@ == entries[index].fds@.update(
                fd as int,
                None,
            )
        } else {
            ret == ERR_BADF && after.sched.table@ == entries
        }
    })
}

/// The system call `close(fd)`: frees the descriptor, and returns 0. A
/// descriptor that is not open, and a call without a calling process, is a
/// bad descriptor.
pub fn sys_close<D: BlockDevice>(kernel: &mut Kernel<D>, fd: u64) -> (ret: u64)
    requires
        old(kernel).wf(),
    ensures
        final(kernel).wf(),
        sys_close_does(*old(kernel), *final(kernel), fd, ret),
{
    let current = match current_pid(&kernel.sched) {
        Some(pid) => pid,
        None => { return ERR_BADF; },
    };
    if fd >= MAX_FDS as u64 {
        return ERR_BADF;
    }
    proof {
        lemma_index_of_bounds(kernel.sched.table@, current);
    }
    match close_fd(&mut kernel.sched, &mut kernel.devices, current, fd as usize) {
        Ok(()) => 0,
        Err(ProcessError::InvalidFileDescriptor) => encode_error(SysError::BadFileDescriptor),
        Err(_) => encode_error(SysError::BadFileDescriptor),
    }
}

/// What the system call `seek(fd, offset, whence)` does to the kernel, and
/// what it returns.
pub open spec fn sys_seek_does<D: BlockDevice>(before: Kernel<D>, after: Kernel<D>, fd: u64, offset: u64, whence: u64, ret: u64) -> bool {
    &&& only_io_changed(before, after)
    &&& after.mem == before.mem
    &&& after.devices == before.devices
    &&& before.sched.current_pid == 0 ==> ret == ERR_BADF && after == before
    &&& before.sched.current_pid != 0 ==> match spec_decode_seek(offset, whence) {
        Err(e) => ret == spec_encode_error(e) && after == before,
        Ok(pos) => exists|res: SysResult<u64>|
            #![trigger fd_seek_outcome(before.sched, after.sched, before.devices.disk.spec_block_size(), before.sched.current_pid, fd, pos, res)]
            fd_seek_outcome(
                before.sched,
                after.sched,
                before.devices.disk.spec_block_size(),
                before.sched.current_pid,
                fd,
                pos,
                res,
            ) && ret == spec_encode(res),
    }
}

/// The system call `seek(fd, offset, whence)`: moves the offset of the
/// descriptor, and returns the new offset. `whence` is 0 to count from the
/// start, 1 from the present offset, 2 from the end; any other is invalid.
pub fn sys_seek<D: BlockDevice>(kernel: &mut Kernel<D>, fd: u64, offset: u64, whence: u64) -> (ret: u64)
    requires
        old(kernel).wf(),
    ensures
        final(kernel).wf(),
        sys_seek_does(*old(kernel), *final(kernel), fd, offset, whence, ret),
{
    let current = match current_pid(&kernel.sched) {
        Some(pid) => pid,
        None => { return ERR_BADF; },
    };
    let seek_from = match decode_seek(offset, whence) {
        Ok(seek) => seek,
        Err(err) => { return encode_error(err); },
    };
    match fd_seek(kernel, current, fd, seek_from) {
        Ok(new_offset) => new_offset,
        Err(err) => encode_error(err),
    }
}

/// What the system call `yield()` does to the kernel, and what it returns.
pub open spec fn sys_yield_does<D: BlockDevice>(before: Kernel<D>, after: Kernel<D>, ret: u64) -> bool {
    &&& only_io_changed(before, after)
    &&& after.mem == before.mem
    &&& after.devices == before.devices
    &&& ret == 0
    &&& exists|switched: bool|
        #![trigger switch_outcome(before.sched.table@, before.sched, after.sched, switched)]
        switch_outcome(
            before.sched.table@,
            before.sched,
            after.sched,
            switched,
        )
}

/// The system call `yield`: gives up the processor, and returns 0.
pub fn sys_yield<D: BlockDevice>(kernel: &mut Kernel<D>) -> (ret: u64)
    requires
        old(kernel).wf(),
    ensures
        final(kernel).wf(),
        sys_yield_does(*old(kernel), *final(kernel), ret),
{
    let switched = crate::process::sched::yield_now(&mut kernel.sched);
    assert(switch_outcome(old(kernel).sched.table@, old(kernel).sched, kernel.sched, switched));
    0
}

/// The exit code that the low 32 bits of `code` stand for.
pub open spec fn spec_status(code: u64) -> i32 {
    let low = code % 0x1_0000_0000;
    if low >= 0x8000_0000 {
        (low - 0x1_0000_0000) as i32
    } else {
        low as i32
    }
}

/// What the system call `exit(code)` does to the kernel, and what it returns.
pub open spec fn sys_exit_does<D: BlockDevice>(before: Kernel<D>, after: Kernel<D>, code: u64, ret: u64) -> bool {
    &&& only_io_changed(before, after)
    &&& after.mem == before.mem
    &&& after.devices == before.devices
    &&& ret == 0
    &&& spec_current_index(before.sched.table@, before.sched.current_pid) is None
        ==> after == before
    &&& spec_current_index(before.sched.table@, before.sched.current_pid) is Some
        ==> exists|switched: bool|
        #![trigger switch_outcome(spec_exit_table(before.sched.table@, before.sched.current_pid, spec_status(code)), before.sched, after.sched, switched)]
        switch_outcome(
            spec_exit_table(
                before.sched.table@,
                before.sched.current_pid,
                spec_status(code),
            ),
            before.sched,
            after.sched,
            switched,
        )
}

/// The system call `exit(code)`: ends the calling process with the low 32
/// bits of `code` as its exit code, and gives the processor to another
/// task. Without a calling process nothing happens.
pub fn sys_exit<D: BlockDevice>(kernel: &mut Kernel<D>, code: u64) -> (ret: u64)
    requires
        old(kernel).wf(),
    ensures
        final(kernel).wf(),
        sys_exit_does(*old(kernel), *final(kernel), code, ret),
{
    let low = code % 0x1_0000_0000;
    let status: i32 = if low >= 0x8000_0000 {
        (low as i64 - 0x1_0000_0000i64) as i32
    } else {
        low as i32
    };
    let found = match current_pid(&kernel.sched) {
        Some(pid) => kernel.sched.table.find_index_by_pid(pid).is_some(),
        None => false,
    };
    if !found {
        return 0;
    }
    let switched = exit_current(&mut kernel.sched, status);
    proof {
        assert(status == spec_status(code));
        assert(switch_outcome(
            spec_exit_table(old(kernel).sched.table@, old(kernel).sched.current_pid, status),
            old(kernel).sched,
            kernel.sched,
            switched,
        ));
    }
    0
}

/// Carries out the system call that `frame` asks for: the number of the
/// call is in `rax`, its arguments are in `rdi`, `rsi` and `rdx`. A number
/// that names no call is answered with `ERR_NOSYS`.
pub fn dispatch<D: BlockDevice>(kernel: &mut Kernel<D>, frame: &mut SyscallFrame) -> (ret: u64)
    requires
        old(kernel).wf(),
    ensures
        final(kernel).wf(),
        only_io_changed(*old(kernel), *final(kernel)),
        *final(frame) == *old(frame),
        !(old(frame).rax == NR_READ || old(frame).rax == NR_WRITE || old(frame).rax == NR_OPEN || old(frame).rax
            == NR_CLOSE || old(frame).rax == NR_SEEK || old(frame).rax == NR_YIELD || old(frame).rax == NR_EXIT)
            ==> ret == ERR_NOSYS && *final(kernel) == *old(kernel),
        old(frame).rax == NR_READ ==> sys_read_does(*old(kernel), *final(kernel), old(frame).rdi, old(frame).rsi, old(frame).rdx, ret),
        old(frame).rax == NR_WRITE ==> sys_write_does(*old(kernel), *final(kernel), old(frame).rdi, old(frame).rsi, old(frame).rdx, ret),
        old(frame).rax == NR_OPEN ==> sys_open_does(*old(kernel), *final(kernel), old(frame).rdi, old(frame).rsi, old(frame).rdx, ret),
        old(frame).rax == NR_CLOSE ==> sys_close_does(*old(kernel), *final(kernel), old(frame).rdi, ret),
        old(frame).rax == NR_SEEK ==> sys_seek_does(*old(kernel), *final(kernel), old(frame).rdi, old(frame).rsi, old(frame).rdx, ret),
        old(frame).rax == NR_YIELD ==> sys_yield_does(*old(kernel), *final(kernel), ret),
        old(frame).rax == NR_EXIT ==> sys_exit_does(*old(kernel), *final(kernel), old(frame).rdi, ret),
        old(frame).rax == NR_YIELD || old(frame).rax == NR_EXIT ==> ret == 0,
        old(frame).rax == NR_WRITE && old(frame).rdx == 0 ==> ret == 0 && *final(kernel) == *old(kernel),
        old(frame).rax == NR_READ && old(frame).rdx == 0 ==> ret == 0 && *final(kernel) == *old(kernel),
        (old(frame).rax == NR_READ || old(frame).rax == NR_WRITE) && old(frame).rdx != 0 && old(frame).rsi == 0 ==> ret
            == ERR_FAULT && *final(kernel) == *old(kernel),
        old(frame).rax == NR_OPEN && (old(frame).rdi == 0 || old(frame).rsi == 0) ==> ret == ERR_INVAL && *final(kernel) == *old(kernel),
{
    match frame.rax {
        NR_READ => sys_read(kernel, frame.rdi, frame.rsi, frame.rdx),
        NR_WRITE => sys_write(kernel, frame.rdi, frame.rsi, frame.rdx),
        NR_OPEN => sys_open(kernel, frame.rdi, frame.rsi, frame.rdx),
        NR_CLOSE => sys_close(kernel, frame.rdi),
        NR_SEEK => sys_seek(kernel, frame.rdi, frame.rsi, frame.rdx),
        NR_YIELD => sys_yield(kernel),
        NR_EXIT => sys_exit(kernel, frame.rdi),
        _ => ERR_NOSYS,
    }
}

/// The entry of the system calls from the assembly stub.
pub fn syscall_trampoline<D: BlockDevice>(kernel: &mut Kernel<D>, frame: &mut SyscallFrame) -> (ret:
    u64)
    requires
        old(kernel).wf(),
    ensures
        final(kernel).wf(),
        only_io_changed(*old(kernel), *final(kernel)),
        *final(frame) == *old(frame),
        !(old(frame).rax == NR_READ || old(frame).rax == NR_WRITE || old(frame).rax == NR_OPEN || old(frame).rax
            == NR_CLOSE || old(frame).rax == NR_SEEK || old(frame).rax == NR_YIELD || old(frame).rax == NR_EXIT)
            ==> ret == ERR_NOSYS && *final(kernel) == *old(kernel),
        old(frame).rax == NR_READ ==> sys_read_does(*old(kernel), *final(kernel), old(frame).rdi, old(frame).rsi, old(frame).rdx, ret),
        old(frame).rax == NR_WRITE ==> sys_write_does(*old(kernel), *final(kernel), old(frame).rdi, old(frame).rsi, old(frame).rdx, ret),
        old(frame).rax == NR_OPEN ==> sys_open_does(*old(kernel), *final(kernel), old(frame).rdi, old(frame).rsi, old(frame).rdx, ret),
        old(frame).rax == NR_CLOSE ==> sys_close_does(*old(kernel), *final(kernel), old(frame).rdi, ret),
        old(frame).rax == NR_SEEK ==> sys_seek_does(*old(kernel), *final(kernel), old(frame).rdi, old(frame).rsi, old(frame).rdx, ret),
        old(frame).rax == NR_YIELD ==> sys_yield_does(*old(kernel), *final(kernel), ret),
        old(frame).rax == NR_EXIT ==> sys_exit_does(*old(kernel), *final(kernel), old(frame).rdi, ret),
{
    dispatch(kernel, frame)
}

/// What a write of `data` to descriptor `fd` by the current process does
/// to the kernel, and what it gives: nothing is written of no bytes;
/// without a current process the descriptor is bad; otherwise the write
/// goes through the descriptor.
pub open spec fn wrote<D: BlockDevice>(
    before: Kernel<D>,
    after: Kernel<D>,
    fd: u64,
    data: Seq<u8>,
    res: SysResult<usize>,
) -> bool {
    &&& only_io_changed(before, after)
    &&& after.mem == before.mem
    &&& if data.len() == 0 {
        res == Ok::<usize, SysError>(0) && after == before
    } else if before.sched.current_pid == 0 {
        res == Err::<usize, SysError>(SysError::BadFileDescriptor) && after == before
    } else {
        fd_write_outcome(
            before.sched,
            after.sched,
            before.devices,
            after.devices,
            before.sched.current_pid,
            fd,
            data,
            res,
        )
    }
}

/// What a read from descriptor `fd` by the current process into a buffer
/// that holds `buf` does to the kernel and to the buffer, and what it
/// gives.
pub open spec fn did_read<D: BlockDevice>(
    before: Kernel<D>,
    after: Kernel<D>,
    fd: u64,
    buf: Seq<u8>,
    buf_after: Seq<u8>,
    res: SysResult<usize>,
) -> bool {
    &&& only_io_changed(before, after)
    &&& after.mem == before.mem
    &&& buf_after.len() == buf.len()
    &&& res matches Ok(n) ==> n <= buf.len()
    &&& if buf.len() == 0 {
        res == Ok::<usize, SysError>(0) && after == before && buf_after == buf
    } else if before.sched.current_pid == 0 {
        res == Err::<usize, SysError>(SysError::BadFileDescriptor) && after == before && buf_after
            == buf
    } else {
        fd_read_outcome(
            before.sched,
            after.sched,
            before.devices,
            after.devices,
            before.sched.current_pid,
            fd,
            buf,
            buf_after,
            res,
        )
    }
}

/// What a seek on descriptor `fd` by the current process does to the
/// kernel, and what it gives.
pub open spec fn sought<D: BlockDevice>(
    before: Kernel<D>,
    after: Kernel<D>,
    fd: u64,
    offset: i64,
    whence: SeekWhence,
    res: SysResult<u64>,
) -> bool {
    &&& only_io_changed(before, after)
    &&& after.mem == before.mem
    &&& after.devices == before.devices
    &&& if before.sched.current_pid == 0 {
        res == Err::<u64, SysError>(SysError::BadFileDescriptor) && after == before
    } else {
        match spec_seek_from(offset, whence) {
            Err(e) => res == Err::<u64, SysError>(e) && after == before,
            Ok(pos) => fd_seek_outcome(
                before.sched,
                after.sched,
                before.devices.disk.spec_block_size(),
                before.sched.current_pid,
                fd,
                pos,
                res,
            ),
        }
    }
}

/// What opening `path` by the current process does to the kernel, and the
/// descriptor that it gives.
pub open spec fn opened<D: BlockDevice>(
    before: Kernel<D>,
    after: Kernel<D>,
    path: Seq<u8>,
    res: SysResult<u64>,
) -> bool {
    &&& only_io_changed(before, after)
    &&& after.mem == before.mem
    &&& after.devices == before.devices
    &&& res matches Ok(fd) ==> fd < MAX_FDS
    &&& if path.len() == 0 {
        res == Err::<u64, SysError>(SysError::InvalidArgument) && after == before
    } else if before.sched.current_pid == 0 {
        res == Err::<u64, SysError>(SysError::BadFileDescriptor) && after == before
    } else {
        open_outcome(
            before,
            after,
            before.sched.current_pid,
            spec_trim_nul(path),
            match res {
                Ok(fd) => Ok::<usize, SysError>(fd as usize),
                Err(e) => Err::<usize, SysError>(e),
            },
        )
    }
}

/// What closing descriptor `fd` by the current process does to the kernel,
/// and what it gives.
pub open spec fn closed<D: BlockDevice>(
    before: Kernel<D>,
    after: Kernel<D>,
    fd: u64,
    res: SysResult<()>,
) -> bool {
    &&& only_io_changed(before, after)
    &&& after.mem == before.mem
    &&& close_outcome(before, after, fd, res is Ok)
    &&& res matches Err(e) ==> e == SysError::BadFileDescriptor
}

/// What giving up the processor does to the kernel: one attempt to change
/// the running task.
pub open spec fn yielded<D: BlockDevice>(before: Kernel<D>, after: Kernel<D>, switched: bool) -> bool {
    &&& only_io_changed(before, after)
    &&& after.mem == before.mem
    &&& after.devices == before.devices
    &&& switch_outcome(before.sched.table@, before.sched, after.sched, switched)
}

/// Writes `bytes` to descriptor `fd` of the current process, for a task of
/// the kernel.
pub fn write<D: BlockDevice>(kernel: &mut Kernel<D>, fd: u64, bytes: &[u8]) -> (res: SysResult<usize>)
    requires
        old(kernel).wf(),
    ensures
        final(kernel).wf(),
        only_io_changed(*old(kernel), *final(kernel)),
        final(kernel).mem == old(kernel).mem,
        bytes@.len() == 0 ==> res == Ok::<usize, SysError>(0) && *final(kernel) == *old(kernel),
        bytes@.len() > 0 && old(kernel).sched.current_pid == 0 ==> res == Err::<usize, SysError>(
            SysError::BadFileDescriptor,
        ) && *final(kernel) == *old(kernel),
        bytes@.len() > 0 && old(kernel).sched.current_pid != 0 ==> fd_write_outcome(
            old(kernel).sched,
            final(kernel).sched,
            old(kernel).devices,
            final(kernel).devices,
            old(kernel).sched.current_pid,
            fd,
            bytes@,
            res,
        ),
{
    if bytes.len() == 0 {
        return Ok(0);
    }
    let pid = match current_pid(&kernel.sched) {
        Some(pid) => pid,
        None => { return Err(SysError::BadFileDescriptor); },
    };
    fd_write(kernel, pid, fd, bytes)
}

/// Reads from descriptor `fd` of the current process into `buf`, for a task
/// of the kernel.
pub fn read<D: BlockDevice>(kernel: &mut Kernel<D>, fd: u64, buf: &mut [u8]) -> (res: SysResult<usize>)
    requires
        old(kernel).wf(),
    ensures
        final(kernel).wf(),
        final(buf)@.len() == old(buf)@.len(),
        only_io_changed(*old(kernel), *final(kernel)),
        final(kernel).mem == old(kernel).mem,
        res matches Ok(n) ==> n <= old(buf)@.len(),
        old(buf)@.len() == 0 ==> res == Ok::<usize, SysError>(0) && *final(kernel) == *old(kernel)
            && final(buf)@ == old(buf)@,
        old(buf)@.len() > 0 && old(kernel).sched.current_pid == 0 ==> res == Err::<usize, SysError>(
            SysError::BadFileDescriptor,
        ) && *final(kernel) == *old(kernel) && final(buf)@ == old(buf)@,
        old(buf)@.len() > 0 && old(kernel).sched.current_pid != 0 ==> fd_read_outcome(
            old(kernel).sched,
            final(kernel).sched,
            old(kernel).devices,
            final(kernel).devices,
            old(kernel).sched.current_pid,
            fd,
            old(buf)@,
            final(buf)@,
            res,
        ),
{
    if buf.len() == 0 {
        return Ok(0);
    }
    let pid = match current_pid(&kernel.sched) {
        Some(pid) => pid,
        None => { return Err(SysError::BadFileDescriptor); },
    };
    fd_read(kernel, pid, fd, buf)
}

/// Opens `path` for the current process, for a task of the kernel.
pub fn open<D: BlockDevice>(kernel: &mut Kernel<D>, path: &str) -> (res: SysResult<usize>)
    requires
        old(kernel).wf(),
    ensures
        final(kernel).wf(),
        only_io_changed(*old(kernel), *final(kernel)),
        final(kernel).mem == old(kernel).mem,
        final(kernel).devices == old(kernel).devices,
        res matches Ok(fd) ==> fd < MAX_FDS,
        path.spec_bytes().len() == 0 ==> res == Err::<usize, SysError>(SysError::InvalidArgument)
            && *final(kernel) == *old(kernel),
        path.spec_bytes().len() > 0 && old(kernel).sched.current_pid == 0 ==> res == Err::<
            usize,
            SysError,
        >(SysError::BadFileDescriptor) && *final(kernel) == *old(kernel),
        path.spec_bytes().len() > 0 && old(kernel).sched.current_pid != 0 ==> open_outcome(
            *old(kernel),
            *final(kernel),
            old(kernel).sched.current_pid,
            spec_trim_nul(path.spec_bytes()),
            res,
        ),
{
    let bytes = path.as_bytes();
    if bytes.len() == 0 {
        return Err(SysError::InvalidArgument);
    }
    let pid = match current_pid(&kernel.sched) {
        Some(pid) => pid,
        None => { return Err(SysError::BadFileDescriptor); },
    };
    let end = trim_nul(bytes);
    let mut trimmed: Vec<u8> = Vec::new();
    let mut i: usize = 0;
    while i < end
        invariant
            i <= end <= bytes@.len(),
            trimmed@ == bytes@.subrange(0, i as int),
        decreases end - i,
    {
        trimmed.push(bytes[i]);
        assert(bytes@.subrange(0, i + 1) =~= bytes@.subrange(0, i as int).push(bytes@[i as int]));
        i += 1;
    }
    open_for(kernel, pid, trimmed.as_slice())
}

/// Closes descriptor `fd` of the current process, for a task of the kernel.
pub fn close<D: BlockDevice>(kernel: &mut Kernel<D>, fd: u64) -> (res: SysResult<()>)
    requires
        old(kernel).wf(),
    ensures
        final(kernel).wf(),
        only_io_changed(*old(kernel), *final(kernel)),
        final(kernel).mem == old(kernel).mem,
        close_outcome(*old(kernel), *final(kernel), fd, res is Ok),
        ({
            let entries = old(kernel).sched.table@;
            let pid = old(kernel).sched.current_pid;
            if pid != 0 && fd < MAX_FDS && spec_fd_open(entries, pid, fd as usize) {
                let index = spec_index_of(entries, pid);
                &&& res is Ok
                &&& final(kernel).sched.table@.len() == entries.len()
                &&& final(kernel).sched.table@[index].fds@ == entries[index].fds@.update(
                    fd as int,
                    None,
                )
            } else {
                res == Err::<(), SysError>(SysError::BadFileDescriptor) && final(kernel).sched.table@ == entries
            }
        }),
{
    match decode_ret(sys_close(kernel, fd)) {
        Ok(_) => Ok(()),
        Err(e) => {
            proof {
                assert(e == SysError::BadFileDescriptor);
            }
            Err(e)
        },
    }
}

/// Moves the offset of descriptor `fd` of the current process, for a task
/// of the kernel.
pub fn seek<D: BlockDevice>(kernel: &mut Kernel<D>, fd: u64, offset: i64, whence: SeekWhence) -> (res:
    SysResult<u64>)
    requires
        old(kernel).wf(),
    ensures
        final(kernel).wf(),
        only_io_changed(*old(kernel), *final(kernel)),
        final(kernel).mem == old(kernel).mem,
        final(kernel).devices == old(kernel).devices,
        old(kernel).sched.current_pid == 0 ==> res == Err::<u64, SysError>(
            SysError::BadFileDescriptor,
        ) && *final(kernel) == *old(kernel),
        old(kernel).sched.current_pid != 0 ==> match spec_seek_from(offset, whence) {
            Err(e) => res == Err::<u64, SysError>(e) && *final(kernel) == *old(kernel),
            Ok(pos) => fd_seek_outcome(
                old(kernel).sched,
                final(kernel).sched,
                old(kernel).devices.disk.spec_block_size(),
                old(kernel).sched.current_pid,
                fd,
                pos,
                res,
            ),
        },
{
    let current = match current_pid(&kernel.sched) {
        Some(pid) => pid,
        None => { return Err(SysError::BadFileDescriptor); },
    };
    let pos = match whence {
        SeekWhence::Start => {
            if offset < 0 {
                return Err(SysError::InvalidArgument);
            }
            SeekFrom::Start(offset as u64)
        },
        SeekWhence::Cur => SeekFrom::Current(offset),
        SeekWhence::End => SeekFrom::End(offset),
    };
    fd_seek(kernel, current, fd, pos)
}

/// Where a seek by `offset` from `whence` asks to go. An offset from the
/// start must not be negative.
pub open spec fn spec_seek_from(offset: i64, whence: SeekWhence) -> SysResult<SeekFrom> {
    match whence {
        SeekWhence::Start => if offset < 0 {
            Err(SysError::InvalidArgument)
        } else {
            Ok(SeekFrom::Start(offset as u64))
        },
        SeekWhence::Cur => Ok(SeekFrom::Current(offset)),
        SeekWhence::End => Ok(SeekFrom::End(offset)),
    }
}

/// Gives up the processor, for a task of the kernel. Tells whether another
/// task got it.
pub fn yield_now<D: BlockDevice>(kernel: &mut Kernel<D>) -> (switched: bool)
    requires
        old(kernel).wf(),
    ensures
        final(kernel).wf(),
        only_io_changed(*old(kernel), *final(kernel)),
        final(kernel).mem == old(kernel).mem,
        final(kernel).devices == old(kernel).devices,
        switch_outcome(old(kernel).sched.table@, old(kernel).sched, final(kernel).sched, switched),
{
    crate::process::sched::yield_now(&mut kernel.sched)
}

/// Ends the current process with `status`, for a task of the kernel. Tells
/// whether another task got the processor.
pub fn exit<D: BlockDevice>(kernel: &mut Kernel<D>, status: i32) -> (switched: bool)
    requires
        old(kernel).wf(),
        spec_current_index(old(kernel).sched.table@, old(kernel).sched.current_pid) is Some,
    ensures
        final(kernel).wf(),
        only_io_changed(*old(kernel), *final(kernel)),
        final(kernel).mem == old(kernel).mem,
        final(kernel).devices == old(kernel).devices,
        switch_outcome(
            spec_exit_table(old(kernel).sched.table@, old(kernel).sched.current_pid, status),
            old(kernel).sched,
            final(kernel).sched,
            switched,
        ),
{
    exit_current(&mut kernel.sched, status)
}

/// One write to a model-specific register.
#[derive(Debug, Copy, Clone, PartialEq, Eq, Structural)]
pub struct MsrWrite {
    pub msr: u32,
    pub value: u64,
}

/// The register writes that switch the system calls on.
pub open spec fn spec_init_writes(efer: u64, syscall_entry: u64) -> Seq<MsrWrite> {
    seq![
        MsrWrite { msr: IA32_EFER, value: efer | 1 },
        MsrWrite { msr: IA32_STAR, value: (0x08u64 << 48) | (0x1Bu64 << 32) },
        MsrWrite { msr: IA32_LSTAR, value: syscall_entry },
        MsrWrite { msr: IA32_FMASK, value: 0x300 },
    ]
}

/// The register writes that switch the system calls on: the `syscall`
/// instruction is enabled; the selectors for entry and return are set, the
/// kernel's code segment and the base of the user's; `syscall_entry` is the
/// entry; and the trap and interrupt flags are cleared on entry. `efer` is
/// what the extended feature register holds.
pub fn init(efer: u64, syscall_entry: u64) -> (writes: Vec<MsrWrite>)
    ensures
        writes@ == spec_init_writes(efer, syscall_entry),
{
    let mut writes: Vec<MsrWrite> = Vec::new();
    writes.push(MsrWrite { msr: IA32_EFER, value: efer | 1 });
    writes.push(MsrWrite { msr: IA32_STAR, value: (0x08u64 << 48) | (0x1Bu64 << 32) });
    writes.push(MsrWrite { msr: IA32_LSTAR, value: syscall_entry });
    writes.push(MsrWrite { msr: IA32_FMASK, value: 0x300 });
    writes
}

} // verus!
