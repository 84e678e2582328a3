//! Loading a program: its bytes from the volume, its layout from the bytes.

use vstd::prelude::*;
use vstd::string::StringSliceAdditionalSpecFns;
use crate::drivers::BlockDevice;
use crate::fs::fat::FatVolume;
use crate::user::elf::{parse, spec_parse, ElfError, ElfImage, ElfSegment};
use crate::user::fs::{bin_prefix, read_binary, spec_read_binary, FileError};

verus! {

/// Why a program could not be loaded.
#[derive(Debug, Clone, Copy, PartialEq, Eq, Structural)]
pub enum LoaderError {
    File(FileError),
    Elf(ElfError),
}

/// The entry point, the segments and the bytes of the program at `path`.
pub open spec fn spec_load_elf(
    volume: Option<FatVolume>,
    storage: Seq<u8>,
    block_size: usize,
    path: Seq<u8>,
) -> Result<(u64, Seq<ElfSegment>, Seq<u8>), LoaderError> {
    match spec_read_binary(volume, storage, block_size, path) {
        Err(e) => Err(LoaderError::File(e)),
        Ok(data) => match spec_parse(data) {
            Err(e) => Err(LoaderError::Elf(e)),
            Ok((entry, segments)) => Ok((entry, segments, data)),
        },
    }
}

/// Reads the program at `path` and parses it.
pub fn load_elf<D: BlockDevice>(volume: &Option<FatVolume>, device: &D, path: &str) -> (res: Result<
    (ElfImage, Vec<u8>),
    LoaderError,
>)
    requires
        volume matches Some(v) ==> v.wf(),
    ensures
        !(path.spec_bytes().len() >= 5 && path.spec_bytes().subrange(0, 5) == bin_prefix())
            ==> res is Err && res->Err_0 == LoaderError::File(FileError::NotFound),
        res matches Ok((image, data)) ==> spec_parse(data@) == Ok::<
            (u64, Seq<ElfSegment>),
            ElfError,
        >((image.entry, image.segments@)),
        device.storage() matches Some(storage) ==> match spec_load_elf(
            *volume,
            storage,
            device.spec_block_size(),
            path.spec_bytes(),
        ) {
            Err(e) => res is Err && res->Err_0 == e,
            Ok((entry, segments, bytes)) => res is Ok && res->Ok_0.0.entry == entry
                && res->Ok_0.0.segments@ == segments && res->Ok_0.1@ == bytes,
        },
{
    let data = match read_binary(volume, device, path) {
        Ok(data) => data,
        Err(e) => { return Err(LoaderError::File(e)); },
    };
    let image = match parse(data.as_slice()) {
        Ok(image) => image,
        Err(e) => { return Err(LoaderError::Elf(e)); },
    };
    Ok((image, data))
}

} // verus!
