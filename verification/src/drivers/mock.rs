//! A block device that keeps its blocks in memory.

use vstd::prelude::*;
use crate::drivers::{
    spec_read_blocks, spec_write_blocks, BlockDevice, Driver, DriverError, DriverKind,
};

verus! {

/// A block device in memory: its bytes are known.
pub struct MemBlockDevice {
    pub name: &'static str,
    pub block: usize,
    pub data: Vec<u8>,
}

impl MemBlockDevice {
    /// Blocks are not empty, and the device holds whole blocks.
    pub open spec fn wf(&self) -> bool {
        self.block > 0 && self.data@.len() % (self.block as nat) == 0
    }

    /// A device over `data`, which must hold whole blocks of `block_size` bytes.
    pub fn new(name: &'static str, data: Vec<u8>, block_size: usize) -> (device: MemBlockDevice)
        requires
            block_size > 0,
            data@.len() % (block_size as nat) == 0,
        ensures
            device.wf(),
            device.name == name,
            device.block == block_size,
            device.data@ == data@,
    {
        MemBlockDevice { name, block: block_size, data }
    }
}

impl Driver for MemBlockDevice {
    fn name(&self) -> (name: &'static str)
        ensures
            name == self.name,
    {
        self.name
    }

    fn kind(&self) -> (kind: DriverKind)
        ensures
            kind == DriverKind::Block,
    {
        DriverKind::Block
    }

    fn init(&mut self) -> (res: Result<(), DriverError>)
        ensures
            res is Ok,
            *final(self) == *old(self),
    {
        Ok(())
    }

    fn shutdown(&mut self)
        ensures
            *final(self) == *old(self),
    {
    }
}

impl BlockDevice for MemBlockDevice {
    open spec fn storage(&self) -> Option<Seq<u8>> {
        Some(self.data@)
    }

    open spec fn spec_block_size(&self) -> usize {
        self.block
    }

    fn block_size(&self) -> (size: usize) {
        self.block
    }

    fn read_blocks(&self, lba: u64, buf: &mut [u8]) -> (res: Result<(), DriverError>) {
        let block_size = self.block;
        if block_size == 0 {
            return Err(DriverError::Unsupported);
        }
        if buf.len() % block_size != 0 {
            return Err(DriverError::Unsupported);
        }
        let len = buf.len();
        assert(lba * block_size <= 0xFFFF_FFFF_FFFF_FFFF * 0xFFFF_FFFF_FFFF_FFFF) by (nonlinear_arith)
            requires
                lba <= 0xFFFF_FFFF_FFFF_FFFF,
                block_size <= 0xFFFF_FFFF_FFFF_FFFF,
        ;
        let offset: u128 = (lba as u128) * (block_size as u128);
        if offset > self.data.len() as u128 || self.data.len() as u128 - offset < len as u128 {
            return Err(DriverError::IoError);
        }
        let offset = offset as usize;
        let mut i: usize = 0;
        while i < len
            invariant
                i <= len,
                len == buf@.len(),
                offset + len <= self.data@.len() <= usize::MAX,
                forall|j: int| 0 <= j < i ==> buf@[j] == self.data@[offset + j],
            decreases len - i,
        {
            buf[i] = self.data[offset + i];
            i += 1;
        }
        assert(buf@ =~= self.data@.subrange(offset as int, offset + len));
        Ok(())
    }

    fn write_blocks(&mut self, lba: u64, buf: &[u8]) -> (res: Result<(), DriverError>) {
        let block_size = self.block;
        if block_size == 0 {
            return Err(DriverError::Unsupported);
        }
        if buf.len() % block_size != 0 {
            return Err(DriverError::Unsupported);
        }
        let len = buf.len();
        assert(lba * block_size <= 0xFFFF_FFFF_FFFF_FFFF * 0xFFFF_FFFF_FFFF_FFFF) by (nonlinear_arith)
            requires
                lba <= 0xFFFF_FFFF_FFFF_FFFF,
                block_size <= 0xFFFF_FFFF_FFFF_FFFF,
        ;
        let offset: u128 = (lba as u128) * (block_size as u128);
        if offset > self.data.len() as u128 || self.data.len() as u128 - offset < len as u128 {
            return Err(DriverError::IoError);
        }
        let offset = offset as usize;
        let mut i: usize = 0;
        while i < len
            invariant
                i <= len,
                len == buf@.len(),
                self.block == old(self).block,
                self.data@.len() == old(self).data@.len(),
                offset + len <= self.data@.len() <= usize::MAX,
                forall|j: int| 0 <= j < i ==> self.data@[offset + j] == buf@[j],
                forall|j: int|
                    0 <= j < self.data@.len() && !(offset <= j < offset + i) ==> self.data@[j] == old(self).data@[j],
            decreases len - i,
        {
            self.data[offset + i] = buf[i];
            i += 1;
        }
        assert(self.data@ =~= old(self).data@.subrange(0, offset as int) + buf@ + old(self).data@.subrange(offset + len, old(self).data@.len() as int));
        Ok(())
    }

    fn flush(&mut self) -> (res: Result<(), DriverError>) {
        Ok(())
    }
}

} // verus!
