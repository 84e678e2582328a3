//! File descriptors: a character device, or a file with an offset.

use vstd::prelude::*;
use vstd::std_specs::convert::FromSpecImpl;
use crate::devices::Devices;
use crate::drivers::console::spec_write;
use crate::drivers::{BlockDevice, CharDeviceId, DriverError};
use crate::fs::fat::FatFile;
use crate::process::types::SeekFrom;
use crate::vfs::ata::{spec_scratch_read, spec_scratch_write, AtaScratchFile, SCRATCH_BYTES};
use crate::vfs::{VfsError, VfsFile, VfsResult};

verus! {

/// A file that is open: the scratch file, or a file of the FAT volume.
#[derive(Debug, Copy, Clone)]
pub enum OpenFile {
    Scratch(AtaScratchFile),
    Fat(FatFile),
}

impl OpenFile {
    pub open spec fn wf(&self) -> bool {
        self matches OpenFile::Fat(file) ==> file.wf()
    }

    /// The bytes that reading `len` bytes at `offset` gives.
    pub open spec fn spec_read(&self, storage: Seq<u8>, block_size: usize, offset: u64, len: nat) -> Result<
        Seq<u8>,
        VfsError,
    > {
        match self {
            OpenFile::Scratch(file) => spec_scratch_read(storage, block_size, file.lba, offset, len),
            OpenFile::Fat(file) => file.spec_read_at(storage, block_size, offset, len),
        }
    }

    /// What the device holds after `data` was written at `offset`, and what
    /// the write returns.
    pub open spec fn spec_write(&self, storage: Seq<u8>, block_size: usize, offset: u64, data: Seq<u8>) -> (
        Seq<u8>,
        Result<usize, VfsError>,
    ) {
        match self {
            OpenFile::Scratch(file) => spec_scratch_write(storage, block_size, file.lba, offset, data),
            OpenFile::Fat(_) => (storage, Err(VfsError::Unsupported)),
        }
    }

    /// The size of the file.
    pub open spec fn spec_size(&self, block_size: usize) -> Result<u64, VfsError> {
        match self {
            OpenFile::Scratch(_) => if block_size <= SCRATCH_BYTES {
                Ok(block_size as u64)
            } else {
                Err(VfsError::Unsupported)
            },
            OpenFile::Fat(file) => Ok(file.size as u64),
        }
    }
}

impl OpenFile {
    /// The name of the file.
    pub open spec fn spec_name(&self) -> Seq<char> {
        match self {
            OpenFile::Scratch(file) => file.name@,
            OpenFile::Fat(_) => "fat-file"@,
        }
    }
}

impl VfsFile for OpenFile {
    /// The name of the file: that of the scratch file, or the one name that
    /// the files of the volume go by.
    fn name(&self) -> (name: &'static str)
        ensures
            name@ == self.spec_name(),
    {
        match self {
            OpenFile::Scratch(file) => file.name(),
            OpenFile::Fat(file) => file.name(),
        }
    }

    fn read_at<D: BlockDevice>(&self, device: &D, offset: u64, buf: &mut [u8]) -> (res: VfsResult<
        usize,
    >)
        ensures
            self.wf() ==> (device.storage() matches Some(storage) ==> match self.spec_read(
                storage,
                device.spec_block_size(),
                offset,
                old(buf)@.len(),
            ) {
                Err(e) => res == Err::<usize, VfsError>(e),
                Ok(bytes) => res is Ok && res->Ok_0 == bytes.len() && final(buf)@.subrange(0, bytes.len() as int) == bytes,
            }),
    {
        match self {
            OpenFile::Scratch(file) => {
                let res = file.read_at(device, offset, buf);
                proof {
                    if device.storage() is Some {
                        let r = spec_scratch_read(
                            device.storage()->0,
                            device.spec_block_size(),
                            file.lba,
                            offset,
                            old(buf)@.len(),
                        );
                        if r is Ok {
                            if r->Ok_0.len() > 0 {
                                assert(buf@.subrange(0, r->Ok_0.len() as int) =~= r->Ok_0);
                            } else {
                                assert(buf@.subrange(0, 0) =~= r->Ok_0);
                            }
                        }
                    }
                }
                res
            },
            OpenFile::Fat(file) => file.read_at(device, offset, buf),
        }
    }

    fn write_at<D: BlockDevice>(&self, device: &mut D, offset: u64, buf: &[u8]) -> (res: VfsResult<
        usize,
    >)
        ensures
            old(device).storage() matches Some(storage) ==> ({
                let (after, result) = self.spec_write(
                    storage,
                    old(device).spec_block_size(),
                    offset,
                    buf@,
                );
                final(device).storage() == Some(after) && res == result
            }),
    {
        match self {
            OpenFile::Scratch(file) => file.write_at(device, offset, buf),
            OpenFile::Fat(file) => file.write_at(device, offset, buf),
        }
    }

    /// Flushes the file: the scratch file flushes the disk, a file of the
    /// volume has nothing to flush. A disk that fails to flush is an I/O
    /// failure.
    fn flush<D: BlockDevice>(&self, device: &mut D) -> (res: VfsResult<()>)
        ensures
            old(device).storage() is Some ==> res is Ok,
            *self is Fat ==> res is Ok && *final(device) == *old(device),
            res matches Err(e) ==> e == VfsError::Io,
    {
        match self {
            OpenFile::Scratch(file) => file.flush(device),
            OpenFile::Fat(file) => file.flush(device),
        }
    }

    fn size<D: BlockDevice>(&self, device: &D) -> (res: VfsResult<u64>)
        ensures
            res == self.spec_size(device.spec_block_size()),
    {
        match self {
            OpenFile::Scratch(file) => file.size(device),
            OpenFile::Fat(file) => file.size(device),
        }
    }
}

/// An open file and the offset at which it is read and written next.
#[derive(Debug, Copy, Clone)]
pub struct VfsHandle {
    pub file: OpenFile,
    pub offset: u64,
}

/// Where a seek lands in a file of `size` bytes, from `offset`. A place
/// before the start of the file or past its end is refused.
pub open spec fn spec_seek(offset: u64, size: u64, pos: SeekFrom) -> Result<u64, VfsError> {
    let target: int = match pos {
        SeekFrom::Start(p) => p as int,
        SeekFrom::Current(delta) => offset + delta,
        SeekFrom::End(delta) => size + delta,
    };
    if target < 0 || target > size {
        Err(VfsError::InvalidOffset)
    } else {
        Ok(target as u64)
    }
}

/// An offset moved on by `count` bytes, held at the largest offset.
pub open spec fn spec_advance(offset: u64, count: usize) -> u64 {
    if offset + count > u64::MAX {
        u64::MAX
    } else {
        (offset + count) as u64
    }
}

impl VfsHandle {
    pub open spec fn wf(&self) -> bool {
        self.file.wf()
    }

    /// A handle at the start of `file`.
    pub fn new(file: OpenFile) -> (handle: VfsHandle)
        ensures
            handle.file == file,
            handle.offset == 0,
    {
        VfsHandle { file, offset: 0 }
    }

    /// Reads at the offset and moves it on by what was read.
    pub fn read<D: BlockDevice>(&mut self, device: &D, buf: &mut [u8]) -> (res: Result<
        usize,
        VfsError,
    >)
        ensures
            final(self).file == old(self).file,
            final(buf)@.len() == old(buf)@.len(),
            res matches Ok(n) ==> n <= old(buf)@.len(),
            res matches Ok(n) ==> final(buf)@.subrange(n as int, old(buf)@.len() as int) == old(buf)@.subrange(n as int, old(buf)@.len() as int),
            res matches Ok(n) ==> final(self).offset == spec_advance(old(self).offset, n),
            res is Err ==> final(self).offset == old(self).offset,
            old(self).wf() ==> (device.storage() matches Some(storage) ==> match old(self).file.spec_read(storage, device.spec_block_size(), old(self).offset, old(buf)@.len()) {
                Err(e) => res == Err::<usize, VfsError>(e),
                Ok(bytes) => res is Ok && res->Ok_0 == bytes.len() && final(buf)@.subrange(0, bytes.len() as int) == bytes,
            }),
    {
        let count = match self.file.read_at(device, self.offset, buf) {
            Ok(count) => count,
            Err(e) => { return Err(e); },
        };
        self.offset = self.offset.saturating_add(count as u64);
        Ok(count)
    }

    /// Writes at the offset and moves it on by what was written.
    pub fn write<D: BlockDevice>(&mut self, device: &mut D, buf: &[u8]) -> (res: Result<
        usize,
        VfsError,
    >)
        ensures
            final(self).file == old(self).file,
            final(device).spec_block_size() == old(device).spec_block_size(),
            final(device).storage() is Some <==> old(device).storage() is Some,
            res matches Ok(n) ==> final(self).offset == spec_advance(old(self).offset, n),
            res is Err ==> final(self).offset == old(self).offset,
            old(device).storage() matches Some(storage) ==> ({
                let (after, result) = old(self).file.spec_write(
                    storage,
                    old(device).spec_block_size(),
                    old(self).offset,
                    buf@,
                );
                final(device).storage() == Some(after) && res == result
            }),
    {
        let count = match self.file.write_at(device, self.offset, buf) {
            Ok(count) => count,
            Err(e) => { return Err(e); },
        };
        self.offset = self.offset.saturating_add(count as u64);
        Ok(count)
    }

    /// Flushes the file behind the handle. A file of the volume has nothing
    /// to flush; a disk that fails to flush is an I/O failure.
    pub fn flush<D: BlockDevice>(&self, device: &mut D) -> (res: Result<(), VfsError>)
        ensures
            final(device).spec_block_size() == old(device).spec_block_size(),
            final(device).storage() == old(device).storage(),
            old(device).storage() is Some ==> res is Ok,
            self.file is Fat ==> res is Ok && *final(device) == *old(device),
            res matches Err(e) ==> e == VfsError::Io,
    {
        self.file.flush(device)
    }

    /// Moves the offset.
    pub fn seek<D: BlockDevice>(&mut self, device: &D, pos: SeekFrom) -> (res: Result<u64, VfsError>)
        ensures
            final(self).file == old(self).file,
            match old(self).file.spec_size(device.spec_block_size()) {
                Err(e) => res == Err::<u64, VfsError>(e) && final(self).offset == old(self).offset,
                Ok(size) => res == spec_seek(old(self).offset, size, pos) && final(self).offset == (
                match res {
                    Ok(offset) => offset,
                    Err(_) => old(self).offset,
                }),
            },
    {
        let size = match self.file.size(device) {
            Ok(size) => size,
            Err(e) => { return Err(e); },
        };
        let target: i128 = match pos {
            SeekFrom::Start(p) => p as i128,
            SeekFrom::Current(delta) => self.offset as i128 + delta as i128,
            SeekFrom::End(delta) => size as i128 + delta as i128,
        };
        if target < 0 || target > size as i128 {
            return Err(VfsError::InvalidOffset);
        }
        let new_offset = target as u64;
        self.offset = new_offset;
        Ok(new_offset)
    }
}

/// Why a read or write through a descriptor failed: in the device, or in the file.
#[derive(Debug, Copy, Clone, PartialEq, Eq, Structural)]
pub enum FileIoError {
    Driver(DriverError),
    Vfs(VfsError),
}

impl From<DriverError> for FileIoError {
    fn from(err: DriverError) -> (res: FileIoError) {
        FileIoError::Driver(err)
    }
}

impl FromSpecImpl<DriverError> for FileIoError {
    open spec fn obeys_from_spec() -> bool {
        true
    }

    open spec fn from_spec(err: DriverError) -> FileIoError {
        FileIoError::Driver(err)
    }
}

impl From<VfsError> for FileIoError {
    fn from(err: VfsError) -> (res: FileIoError) {
        FileIoError::Vfs(err)
    }
}

impl FromSpecImpl<VfsError> for FileIoError {
    open spec fn obeys_from_spec() -> bool {
        true
    }

    open spec fn from_spec(err: VfsError) -> FileIoError {
        FileIoError::Vfs(err)
    }
}

/// What a process reads and writes through: a character device, which has
/// no position, or a file with its offset.
#[derive(Debug, Copy, Clone)]
pub enum FileDescriptor {
    Char(CharDeviceId),
    Vfs(VfsHandle),
}

impl FileDescriptor {
    pub open spec fn wf(&self) -> bool {
        self matches FileDescriptor::Vfs(handle) ==> handle.wf()
    }

    pub fn as_char(&self) -> (id: Option<CharDeviceId>)
        ensures
            id == (match *self {
                FileDescriptor::Char(id) => Some(id),
                FileDescriptor::Vfs(_) => None,
            }),
    {
        match self {
            FileDescriptor::Char(device) => Some(*device),
            FileDescriptor::Vfs(_) => None,
        }
    }

    /// Writes `buf` to the device, or to the file at its offset.
    pub fn write<D: BlockDevice>(&mut self, devices: &mut Devices<D>, buf: &[u8]) -> (res: Result<
        usize,
        FileIoError,
    >)
        requires
            old(devices).wf(),
        ensures
            final(devices).wf(),
            write_outcome(*old(self), *final(self), *old(devices), *final(devices), buf@, res),
    {
        match self {
            FileDescriptor::Char(device) => match devices.char_write(*device, buf) {
                Ok(n) => Ok(n),
                Err(e) => Err(FileIoError::Driver(e)),
            },
            FileDescriptor::Vfs(handle) => match handle.write(&mut devices.disk, buf) {
                Ok(n) => Ok(n),
                Err(e) => Err(FileIoError::Vfs(e)),
            },
        }
    }

    /// Reads into `buf` from the device, or from the file at its offset.
    pub fn read<D: BlockDevice>(&mut self, devices: &mut Devices<D>, buf: &mut [u8]) -> (res: Result<
        usize,
        FileIoError,
    >)
        requires
            old(devices).wf(),
        ensures
            final(devices).wf(),
            final(buf)@.len() == old(buf)@.len(),
            res matches Ok(n) ==> n <= old(buf)@.len(),
            read_outcome(
                *old(self),
                *final(self),
                *old(devices),
                *final(devices),
                old(buf)@,
                final(buf)@,
                res,
            ),
    {
        match self {
            FileDescriptor::Char(device) => match devices.char_read(*device, buf) {
                Ok(n) => Ok(n),
                Err(e) => Err(FileIoError::Driver(e)),
            },
            FileDescriptor::Vfs(handle) => match handle.read(&devices.disk, buf) {
                Ok(n) => Ok(n),
                Err(e) => Err(FileIoError::Vfs(e)),
            },
        }
    }

    /// Flushes the file behind the descriptor. A device has nothing to flush.
    pub fn flush<D: BlockDevice>(&mut self, devices: &mut Devices<D>) -> (res: Result<(), FileIoError>)
        requires
            old(devices).wf(),
        ensures
            final(devices).wf(),
            *final(self) == *old(self),
            final(devices).registry == old(devices).registry,
            final(devices).console == old(devices).console,
            final(devices).keyboard == old(devices).keyboard,
            final(devices).scratch == old(devices).scratch,
            final(devices).fat == old(devices).fat,
            final(devices).disk.spec_block_size() == old(devices).disk.spec_block_size(),
            final(devices).disk.storage() == old(devices).disk.storage(),
            *old(self) is Char ==> res is Ok && final(devices).disk == old(devices).disk,
            (*old(self) matches FileDescriptor::Vfs(handle) && handle.file is Fat) ==> res is Ok
                && final(devices).disk == old(devices).disk,
            old(devices).disk.storage() is Some ==> res is Ok,
            res matches Err(e) ==> e == FileIoError::Vfs(VfsError::Io),
    {
        match self {
            FileDescriptor::Char(_) => Ok(()),
            FileDescriptor::Vfs(handle) => match handle.flush(&mut devices.disk) {
                Ok(()) => Ok(()),
                Err(e) => Err(FileIoError::Vfs(e)),
            },
        }
    }

    /// Moves the offset of the file behind the descriptor. A device has no
    /// offset: seeking on one is not supported.
    pub fn seek<D: BlockDevice>(&mut self, devices: &Devices<D>, pos: SeekFrom) -> (res: Result<
        u64,
        FileIoError,
    >)
        ensures
            seek_outcome(*old(self), *final(self), devices.disk.spec_block_size(), pos, res),
    {
        match self {
            FileDescriptor::Char(_) => Err(FileIoError::Driver(DriverError::Unsupported)),
            FileDescriptor::Vfs(handle) => match handle.seek(&devices.disk, pos) {
                Ok(offset) => Ok(offset),
                Err(e) => Err(FileIoError::Vfs(e)),
            },
        }
    }
}

/// What a write of `data` through a descriptor does to the descriptor and
/// to the devices, and what it returns.
///
/// A character device takes the bytes: the console shows them, the null and
/// zero devices swallow them, the keyboard refuses. A file is written at the
/// descriptor's offset, which moves on by what was written.
pub open spec fn write_outcome<D: BlockDevice>(
    before: FileDescriptor,
    after: FileDescriptor,
    devices: Devices<D>,
    devices_after: Devices<D>,
    data: Seq<u8>,
    res: Result<usize, FileIoError>,
) -> bool {
    &&& devices_after.registry == devices.registry
    &&& devices_after.keyboard == devices.keyboard
    &&& devices_after.scratch == devices.scratch
    &&& devices_after.fat == devices.fat
    &&& devices_after.disk.spec_block_size() == devices.disk.spec_block_size()
    &&& match before {
        FileDescriptor::Char(id) => after == before && devices_after.disk == devices.disk && (match id {
            CharDeviceId::Console => res == Ok::<usize, FileIoError>(data.len() as usize)
                && devices_after.console@ == spec_write(
                devices.console@,
                data,
                devices.console.state.attr,
            ) && devices_after.console.state.attr == devices.console.state.attr
                && devices_after.console.screen.cursor == devices.console.screen.cursor
                && devices_after.console.screen.pending == devices.console.screen.pending,
            CharDeviceId::Null | CharDeviceId::Zero => res == Ok::<usize, FileIoError>(
                data.len() as usize,
            ) && devices_after.console == devices.console,
            CharDeviceId::Keyboard => res == Err::<usize, FileIoError>(
                FileIoError::Driver(DriverError::Unsupported),
            ) && devices_after.console == devices.console,
        }),
        FileDescriptor::Vfs(handle) => after matches FileDescriptor::Vfs(moved)
            && devices_after.console == devices.console && moved.file == handle.file && (
        res matches Ok(n) ==> moved.offset == spec_advance(handle.offset, n)) && (res is Err
            ==> moved.offset == handle.offset) && (devices.disk.storage() matches Some(storage)
            ==> ({
            let (stored, result) = handle.file.spec_write(
                storage,
                devices.disk.spec_block_size(),
                handle.offset,
                data,
            );
            devices_after.disk.storage() == Some(stored) && match result {
                Ok(n) => res == Ok::<usize, FileIoError>(n),
                Err(e) => res == Err::<usize, FileIoError>(FileIoError::Vfs(e)),
            }
        })),
    }
}

/// What a read through a descriptor does to the descriptor, to the devices
/// and to the buffer, and what it returns.
///
/// The console and the null device have nothing to read; the zero device
/// fills the buffer with zeros; the keyboard hands out the oldest byte that
/// waits, if one does. A file is read at the descriptor's offset, which
/// moves on by what was read.
pub open spec fn read_outcome<D: BlockDevice>(
    before: FileDescriptor,
    after: FileDescriptor,
    devices: Devices<D>,
    devices_after: Devices<D>,
    buf: Seq<u8>,
    buf_after: Seq<u8>,
    res: Result<usize, FileIoError>,
) -> bool {
    &&& devices_after.registry == devices.registry
    &&& devices_after.console == devices.console
    &&& devices_after.scratch == devices.scratch
    &&& devices_after.fat == devices.fat
    &&& devices_after.disk == devices.disk
    &&& devices_after.keyboard.initialized == devices.keyboard.initialized
    &&& devices_after.keyboard.state.shift == devices.keyboard.state.shift
    &&& devices_after.keyboard.state.caps_lock == devices.keyboard.state.caps_lock
    &&& match before {
        FileDescriptor::Char(id) => after == before && (match id {
            CharDeviceId::Console | CharDeviceId::Null => res == Ok::<usize, FileIoError>(0)
                && buf_after == buf && devices_after.keyboard == devices.keyboard,
            CharDeviceId::Zero => res == Ok::<usize, FileIoError>(buf.len() as usize)
                && devices_after.keyboard == devices.keyboard && forall|i: int|
                0 <= i < buf_after.len() ==> buf_after[i] == 0,
            CharDeviceId::Keyboard => if buf.len() > 0 && devices.keyboard.state@.len() > 0 {
                res == Ok::<usize, FileIoError>(1) && devices_after.keyboard.state@
                    == devices.keyboard.state@.drop_first() && buf_after == buf.update(
                    0,
                    devices.keyboard.state@[0],
                )
            } else {
                res == Ok::<usize, FileIoError>(0) && devices_after.keyboard.state@
                    == devices.keyboard.state@ && buf_after == buf
            },
        }),
        FileDescriptor::Vfs(handle) => after matches FileDescriptor::Vfs(moved)
            && devices_after.keyboard == devices.keyboard && moved.file == handle.file && (
        res matches Ok(n) ==> n <= buf.len() && buf_after.subrange(n as int, buf.len() as int)
            == buf.subrange(n as int, buf.len() as int)) && (
        res matches Ok(n) ==> moved.offset == spec_advance(handle.offset, n)) && (res is Err
            ==> moved.offset == handle.offset) && (handle.wf() ==> (
        devices.disk.storage() matches Some(storage) ==> match handle.file.spec_read(
            storage,
            devices.disk.spec_block_size(),
            handle.offset,
            buf.len(),
        ) {
            Err(e) => res == Err::<usize, FileIoError>(FileIoError::Vfs(e)),
            Ok(bytes) => res is Ok && res->Ok_0 == bytes.len() && buf_after.subrange(
                0,
                bytes.len() as int,
            ) == bytes,
        })),
    }
}

/// What a seek through a descriptor does to the descriptor, and what it returns.
pub open spec fn seek_outcome(
    before: FileDescriptor,
    after: FileDescriptor,
    block_size: usize,
    pos: SeekFrom,
    res: Result<u64, FileIoError>,
) -> bool {
    match before {
        FileDescriptor::Char(_) => res == Err::<u64, FileIoError>(
            FileIoError::Driver(DriverError::Unsupported),
        ) && after == before,
        FileDescriptor::Vfs(handle) => after matches FileDescriptor::Vfs(moved) && moved.file
            == handle.file && (match handle.file.spec_size(block_size) {
            Err(e) => res == Err::<u64, FileIoError>(FileIoError::Vfs(e)) && moved.offset
                == handle.offset,
            Ok(size) => match spec_seek(handle.offset, size, pos) {
                Ok(offset) => res == Ok::<u64, FileIoError>(offset) && moved.offset == offset,
                Err(e) => res == Err::<u64, FileIoError>(FileIoError::Vfs(e)) && moved.offset
                    == handle.offset,
            },
        }),
    }
}

} // verus!
