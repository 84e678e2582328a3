//! The virtual file system: what a file is to the kernel.

use vstd::prelude::*;
use vstd::std_specs::convert::FromSpecImpl;
use crate::drivers::{BlockDevice, DriverError};

pub mod ata;

verus! {

/// What a file operation gives.
pub type VfsResult<T> = Result<T, VfsError>;

/// Why a file operation failed.
#[derive(Debug, Copy, Clone, PartialEq, Eq, Structural)]
pub enum VfsError {
    Io,
    Unsupported,
    InvalidOffset,
}

impl From<DriverError> for VfsError {
    /// Every failure of a device is an I/O failure of the file on it.
    fn from(err: DriverError) -> (res: VfsError) {
        let _ = err;
        VfsError::Io
    }
}

impl FromSpecImpl<DriverError> for VfsError {
    open spec fn obeys_from_spec() -> bool {
        true
    }

    open spec fn from_spec(err: DriverError) -> VfsError {
        VfsError::Io
    }
}

/// A file that is read and written at byte offsets, on a block device.
pub trait VfsFile {
    fn name(&self) -> &'static str;

    fn read_at<D: BlockDevice>(&self, device: &D, offset: u64, buf: &mut [u8]) -> (res: VfsResult<usize>)
        ensures
            final(buf)@.len() == old(buf)@.len(),
            res matches Ok(n) ==> n <= old(buf)@.len(),
            res matches Ok(n) ==> final(buf)@.subrange(n as int, old(buf)@.len() as int) == old(buf)@.subrange(n as int, old(buf)@.len() as int),
    ;

    fn write_at<D: BlockDevice>(&self, device: &mut D, offset: u64, buf: &[u8]) -> (res: VfsResult<usize>)
        ensures
            final(device).spec_block_size() == old(device).spec_block_size(),
            final(device).storage() is Some <==> old(device).storage() is Some,
            res matches Ok(n) ==> n <= buf@.len(),
    ;

    fn flush<D: BlockDevice>(&self, device: &mut D) -> (res: VfsResult<()>)
        ensures
            final(device).spec_block_size() == old(device).spec_block_size(),
            final(device).storage() == old(device).storage(),
    ;

    fn size<D: BlockDevice>(&self, device: &D) -> (res: VfsResult<u64>);
}

} // verus!
