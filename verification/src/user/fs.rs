//! Reading program images from the FAT volume.

use vstd::prelude::*;
use vstd::string::StringSliceAdditionalSpecFns;
use crate::drivers::BlockDevice;
use crate::fs::fat::{open_file_bytes, spec_open_file, FatError, FatVolume};
use crate::vfs::{VfsError, VfsFile};

verus! {

/// Why a program image could not be read.
#[derive(Debug, Clone, Copy, PartialEq, Eq, Structural)]
pub enum FileError {
    NotFound,
    Io,
}

/// The directory that programs are started from: `/bin/`.
pub open spec fn bin_prefix() -> Seq<u8> {
    seq![0x2Fu8, 0x62u8, 0x69u8, 0x6Eu8, 0x2Fu8]
}

/// What a failure of the volume means for a program image.
pub open spec fn spec_map_fat_err(err: FatError) -> FileError {
    if err == FatError::NotFound || err == FatError::InvalidPath {
        FileError::NotFound
    } else {
        FileError::Io
    }
}

/// What a failure of a file means for a program image.
pub open spec fn spec_map_vfs_err(err: VfsError) -> FileError {
    if err == VfsError::Io {
        FileError::Io
    } else {
        FileError::NotFound
    }
}

/// The bytes of the program at `path`: the whole file of that name on the
/// volume. Only paths under `/bin/` name programs.
pub open spec fn spec_read_binary(
    volume: Option<FatVolume>,
    storage: Seq<u8>,
    block_size: usize,
    path: Seq<u8>,
) -> Result<Seq<u8>, FileError> {
    if !(path.len() >= 5 && path.subrange(0, 5) == bin_prefix()) {
        Err(FileError::NotFound)
    } else {
        match spec_open_file(volume, storage, block_size, path.subrange(5, path.len() as int)) {
            Err(e) => Err(spec_map_fat_err(e)),
            Ok(file) => if file.size == 0 {
                Ok(Seq::empty())
            } else {
                match file.spec_read_at(storage, block_size, 0, file.size as nat) {
                    Err(e) => Err(spec_map_vfs_err(e)),
                    Ok(bytes) => Ok(bytes),
                }
            },
        }
    }
}

/// What a failure of a file means for a program image.
pub fn map_vfs_err(err: VfsError) -> (res: FileError)
    ensures
        res == spec_map_vfs_err(err),
{
    match err {
        VfsError::Io => FileError::Io,
        _ => FileError::NotFound,
    }
}

/// Reads the program at `path` from the volume.
pub fn read_binary<D: BlockDevice>(volume: &Option<FatVolume>, device: &D, path: &str) -> (res: Result<
    Vec<u8>,
    FileError,
>)
    requires
        volume matches Some(v) ==> v.wf(),
    ensures
        !(path.spec_bytes().len() >= 5 && path.spec_bytes().subrange(0, 5) == bin_prefix())
            ==> res is Err && res->Err_0 == FileError::NotFound,
        device.storage() matches Some(storage) ==> match spec_read_binary(
            *volume,
            storage,
            device.spec_block_size(),
            path.spec_bytes(),
        ) {
            Err(e) => res is Err && res->Err_0 == e,
            Ok(bytes) => res is Ok && res->Ok_0@ == bytes,
        },
{
    let bytes = path.as_bytes();
    let len = bytes.len();
    if !(len >= 5 && bytes[0] == 0x2F && bytes[1] == 0x62 && bytes[2] == 0x69 && bytes[3] == 0x6E
        && bytes[4] == 0x2F) {
        assert(bytes@.len() >= 5 ==> bytes@.subrange(0, 5)[0] == bytes@[0] && bytes@.subrange(0, 5)[1]
            == bytes@[1] && bytes@.subrange(0, 5)[2] == bytes@[2] && bytes@.subrange(0, 5)[3]
            == bytes@[3] && bytes@.subrange(0, 5)[4] == bytes@[4]);
        return Err(FileError::NotFound);
    }
    assert(bytes@.subrange(0, 5) =~= bin_prefix());
    let mut name: Vec<u8> = Vec::new();
    let mut i: usize = 5;
    while i < len
        invariant
            5 <= i <= len,
            len == bytes@.len(),
            name@ == bytes@.subrange(5, i as int),
        decreases len - i,
    {
        name.push(bytes[i]);
        assert(bytes@.subrange(5, i + 1) =~= bytes@.subrange(5, i as int).push(bytes@[i as int]));
        i += 1;
    }
    let file = match open_file_bytes(volume, device, name.as_slice()) {
        Ok(file) => file,
        Err(e) => {
            return Err(
                match e {
                    FatError::NotFound | FatError::InvalidPath => FileError::NotFound,
                    _ => FileError::Io,
                },
            );
        },
    };
    let size = match file.size(device) {
        Ok(size) => size as usize,
        Err(e) => { return Err(map_vfs_err(e)); },
    };
    let mut buffer: Vec<u8> = vec![0u8; size];
    if size > 0 {
        let read = match file.read_at(device, 0, buffer.as_mut_slice()) {
            Ok(read) => read,
            Err(e) => { return Err(map_vfs_err(e)); },
        };
        let ghost filled = buffer@;
        if read != size {
            buffer.truncate(read);
        }
        proof {
            assert(buffer@ =~= filled.subrange(0, read as int));
        }
    } else {
        assert(buffer@ =~= Seq::<u8>::empty());
    }
    Ok(buffer)
}

} // verus!
