//! The scratch file: one sector of a block device, read and written in place.

use vstd::prelude::*;
use crate::drivers::{spec_read_blocks, spec_write_blocks, BlockDevice, DriverError};
use crate::vfs::{VfsError, VfsFile, VfsResult};

verus! {

/// The largest sector that the scratch file handles.
pub const SCRATCH_BYTES: usize = 512;

/// A file over the sector at `lba`.
#[derive(Copy, Clone, Debug)]
pub struct AtaScratchFile {
    pub lba: u64,
    pub name: &'static str,
}

/// What is decided about an access of `len` bytes at `offset` before the
/// device is asked: an oversized sector is not supported, an empty access
/// does nothing, an offset past the sector is invalid, and an access that
/// crosses the sector's end is not supported. `None` where the device decides.
pub open spec fn spec_scratch_check(sector_size: usize, offset: u64, len: nat) -> Option<
    Result<usize, VfsError>,
> {
    if sector_size > SCRATCH_BYTES {
        Some(Err(VfsError::Unsupported))
    } else if len == 0 {
        Some(Ok(0))
    } else if offset >= sector_size {
        Some(Err(VfsError::InvalidOffset))
    } else if offset + len > sector_size {
        Some(Err(VfsError::Unsupported))
    } else {
        None
    }
}

/// The bytes that reading `len` bytes at `offset` gives, from the sector at
/// `lba` of a device that holds `storage`.
pub open spec fn spec_scratch_read(
    storage: Seq<u8>,
    sector_size: usize,
    lba: u64,
    offset: u64,
    len: nat,
) -> Result<Seq<u8>, VfsError> {
    match spec_scratch_check(sector_size, offset, len) {
        Some(Ok(_)) => Ok(Seq::empty()),
        Some(Err(e)) => Err(e),
        None => match spec_read_blocks(storage, sector_size, lba, sector_size as nat) {
            Err(_) => Err(VfsError::Io),
            Ok(sector) => Ok(sector.subrange(offset as int, offset + len)),
        },
    }
}

/// What the device holds after `data` was written at `offset` of the sector
/// at `lba`, and what the write returns. The bytes around `data` stay.
pub open spec fn spec_scratch_write(
    storage: Seq<u8>,
    sector_size: usize,
    lba: u64,
    offset: u64,
    data: Seq<u8>,
) -> (Seq<u8>, Result<usize, VfsError>) {
    match spec_scratch_check(sector_size, offset, data.len()) {
        Some(decided) => (storage, decided),
        None => match spec_read_blocks(storage, sector_size, lba, sector_size as nat) {
            Err(_) => (storage, Err(VfsError::Io)),
            Ok(sector) => {
                let changed = sector.subrange(0, offset as int) + data + sector.subrange(
                    offset + data.len(),
                    sector_size as int,
                );
                match spec_write_blocks(storage, sector_size, lba, changed) {
                    Err(_) => (storage, Err(VfsError::Io)),
                    Ok(after) => (after, Ok(data.len() as usize)),
                }
            },
        },
    }
}

/// What was written to the scratch file is read back from it.
pub proof fn lemma_scratch_round_trip(
    storage: Seq<u8>,
    sector_size: usize,
    lba: u64,
    offset: u64,
    data: Seq<u8>,
)
    requires
        spec_scratch_write(storage, sector_size, lba, offset, data).1 is Ok,
    ensures
        spec_scratch_read(
            spec_scratch_write(storage, sector_size, lba, offset, data).0,
            sector_size,
            lba,
            offset,
            data.len(),
        ) == Ok::<Seq<u8>, VfsError>(data),
{
    if data.len() > 0 {
        let sector = spec_read_blocks(storage, sector_size, lba, sector_size as nat)->Ok_0;
        let changed = sector.subrange(0, offset as int) + data + sector.subrange(
            offset + data.len(),
            sector_size as int,
        );
        let after = spec_write_blocks(storage, sector_size, lba, changed)->Ok_0;
        let start = lba * sector_size;
        assert(after.len() == storage.len());
        let again = spec_read_blocks(after, sector_size, lba, sector_size as nat)->Ok_0;
        assert(again =~= changed);
        assert(again.subrange(offset as int, offset + data.len()) =~= data);
    } else {
        assert(data =~= Seq::<u8>::empty());
    }
}

/// A write that reaches past the sector's end is never carried out.
pub proof fn lemma_scratch_write_past_end(
    storage: Seq<u8>,
    sector_size: usize,
    lba: u64,
    offset: u64,
    data: Seq<u8>,
)
    requires
        sector_size <= SCRATCH_BYTES,
        data.len() > 0,
        offset + data.len() > sector_size,
    ensures
        spec_scratch_write(storage, sector_size, lba, offset, data).0 == storage,
        offset < sector_size ==> spec_scratch_write(storage, sector_size, lba, offset, data).1
            == Err::<usize, VfsError>(VfsError::Unsupported),
        offset >= sector_size ==> spec_scratch_write(storage, sector_size, lba, offset, data).1
            == Err::<usize, VfsError>(VfsError::InvalidOffset),
{
}

impl AtaScratchFile {
    pub fn new(lba: u64, name: &'static str) -> (file: AtaScratchFile)
        ensures
            file.lba == lba,
            file.name == name,
    {
        AtaScratchFile { lba, name }
    }

    /// Makes the scratch file over the sector at `lba`.
    pub fn init(lba: u64, name: &'static str) -> (file: Option<AtaScratchFile>)
        ensures
            file == Some(AtaScratchFile { lba, name }),
    {
        Some(Self::new(lba, name))
    }

    /// Bytes of the sector behind the file.
    pub fn bytes_per_sector<D: BlockDevice>(&self, device: &D) -> (size: usize)
        ensures
            size == device.spec_block_size(),
    {
        self.sector_size(device)
    }

    fn sector_size<D: BlockDevice>(&self, device: &D) -> (size: usize)
        ensures
            size == device.spec_block_size(),
    {
        device.block_size()
    }

    fn ensure_scratch_capacity<D: BlockDevice>(&self, device: &D) -> (res: VfsResult<()>)
        ensures
            res is Ok <==> device.spec_block_size() <= SCRATCH_BYTES,
            res matches Err(e) ==> e == VfsError::Unsupported,
    {
        if self.sector_size(device) > SCRATCH_BYTES {
            return Err(VfsError::Unsupported);
        }
        Ok(())
    }
}

impl VfsFile for AtaScratchFile {
    fn name(&self) -> (name: &'static str)
        ensures
            name == self.name,
    {
        self.name
    }

    /// Reads `buf.len()` bytes at `offset` of the sector.
    fn read_at<D: BlockDevice>(&self, device: &D, offset: u64, buf: &mut [u8]) -> (res: VfsResult<usize>)
        ensures
            spec_scratch_check(device.spec_block_size(), offset, old(buf)@.len()) matches Some(
                decided,
            ) ==> res == decided && final(buf)@ == old(buf)@,
            res matches Ok(n) ==> n == old(buf)@.len(),
            device.storage() matches Some(storage) ==> match spec_scratch_read(
                storage,
                device.spec_block_size(),
                self.lba,
                offset,
                old(buf)@.len(),
            ) {
                Ok(bytes) => res is Ok && res->Ok_0 == bytes.len() && (bytes.len() > 0
                    ==> final(buf)@ == bytes),
                Err(e) => res == Err::<usize, VfsError>(e) && final(buf)@ == old(buf)@,
            },
    {
        match self.ensure_scratch_capacity(device) {
            Ok(()) => {},
            Err(e) => { return Err(e); },
        }
        if buf.len() == 0 {
            return Ok(0);
        }
        let sector_size = self.sector_size(device);
        if offset >= sector_size as u64 {
            return Err(VfsError::InvalidOffset);
        }
        let start = offset as usize;
        let len = buf.len();
        if len > sector_size - start {
            return Err(VfsError::Unsupported);
        }
        let mut sector: Vec<u8> = vec![0u8; sector_size];
        match device.read_blocks(self.lba, sector.as_mut_slice()) {
            Ok(()) => {},
            Err(_) => { return Err(VfsError::Io); },
        }
        let mut i: usize = 0;
        while i < len
            invariant
                i <= len,
                len == buf@.len(),
                start + len <= sector@.len() <= usize::MAX,
                forall|j: int| 0 <= j < i ==> buf@[j] == sector@[start + j],
            decreases len - i,
        {
            buf[i] = sector[start + i];
            i += 1;
        }
        assert(buf@ =~= sector@.subrange(start as int, start + len));
        Ok(len)
    }

    /// Writes `buf` at `offset` of the sector: the sector is read, changed
    /// and written back, and the device is flushed.
    fn write_at<D: BlockDevice>(&self, device: &mut D, offset: u64, buf: &[u8]) -> (res: VfsResult<usize>)
        ensures
            spec_scratch_check(old(device).spec_block_size(), offset, buf@.len()) matches Some(
                decided,
            ) ==> res == decided && final(device).storage() == old(device).storage(),
            res matches Ok(n) ==> n == buf@.len(),
            old(device).storage() matches Some(storage) ==> ({
                let (after, result) = spec_scratch_write(
                    storage,
                    old(device).spec_block_size(),
                    self.lba,
                    offset,
                    buf@,
                );
                final(device).storage() == Some(after) && res == result
            }),
    {
        match self.ensure_scratch_capacity(device) {
            Ok(()) => {},
            Err(e) => { return Err(e); },
        }
        if buf.len() == 0 {
            return Ok(0);
        }
        let sector_size = self.sector_size(device);
        if offset >= sector_size as u64 {
            return Err(VfsError::InvalidOffset);
        }
        let start = offset as usize;
        let len = buf.len();
        if len > sector_size - start {
            return Err(VfsError::Unsupported);
        }
        let mut sector: Vec<u8> = vec![0u8; sector_size];
        match device.read_blocks(self.lba, sector.as_mut_slice()) {
            Ok(()) => {},
            Err(_) => { return Err(VfsError::Io); },
        }
        let ghost read = sector@;
        let mut i: usize = 0;
        while i < len
            invariant
                i <= len,
                len == buf@.len(),
                sector@.len() == read.len(),
                start + len <= sector@.len() <= usize::MAX,
                forall|j: int| 0 <= j < i ==> sector@[start + j] == buf@[j],
                forall|j: int|
                    0 <= j < sector@.len() && !(start <= j < start + i) ==> sector@[j] == read[j],
            decreases len - i,
        {
            sector[start + i] = buf[i];
            i += 1;
        }
        assert(sector@ =~= read.subrange(0, start as int) + buf@ + read.subrange(
            start + len,
            sector_size as int,
        ));
        match device.write_blocks(self.lba, sector.as_slice()) {
            Ok(()) => {},
            Err(_) => { return Err(VfsError::Io); },
        }
        match device.flush() {
            Ok(()) => {},
            Err(_) => { return Err(VfsError::Io); },
        }
        Ok(len)
    }

    /// Flushes the disk behind the file. A disk that fails to flush is an
    /// I/O failure.
    fn flush<D: BlockDevice>(&self, device: &mut D) -> (res: VfsResult<()>)
        ensures
            old(device).storage() is Some ==> res is Ok,
            res matches Err(e) ==> e == VfsError::Io,
    {
        match device.flush() {
            Ok(()) => Ok(()),
            Err(_) => Err(VfsError::Io),
        }
    }

    /// The file is as large as its sector.
    fn size<D: BlockDevice>(&self, device: &D) -> (res: VfsResult<u64>)
        ensures
            device.spec_block_size() <= SCRATCH_BYTES ==> res == Ok::<u64, VfsError>(
                device.spec_block_size() as u64,
            ),
            device.spec_block_size() > SCRATCH_BYTES ==> res == Err::<u64, VfsError>(
                VfsError::Unsupported,
            ),
    {
        match self.ensure_scratch_capacity(device) {
            Ok(()) => {},
            Err(e) => { return Err(e); },
        }
        Ok(self.sector_size(device) as u64)
    }
}

} // verus!
