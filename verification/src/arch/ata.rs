//! The primary ATA disk, driven by programmed I/O.
//!
//! What goes to the disk's ports, and what the bytes that come back mean, is
//! decided here. Sending and polling is left to whoever owns the ports.

use vstd::prelude::*;
use crate::arch::io::{outb, PortWrite};
use crate::drivers::{Driver, DriverError, DriverKind};

verus! {

pub const PRIMARY_IO_BASE: u16 = 0x1F0;

pub const PRIMARY_CTRL_BASE: u16 = 0x3F6;

pub const REG_DATA: u16 = 0x00;

pub const REG_SECCOUNT0: u16 = 0x02;

pub const REG_LBA0: u16 = 0x03;

pub const REG_LBA1: u16 = 0x04;

pub const REG_LBA2: u16 = 0x05;

pub const REG_HDDEVSEL: u16 = 0x06;

pub const REG_COMMAND: u16 = 0x07;

pub const REG_STATUS: u16 = REG_COMMAND;

pub const REG_ALTSTATUS: u16 = 0x00;

pub const REG_DEVICE_CONTROL: u16 = 0x00;

pub const STATUS_ERR: u8 = 0x01;

pub const STATUS_DRQ: u8 = 0x08;

pub const STATUS_DF: u8 = 0x20;

pub const STATUS_BSY: u8 = 0x80;

pub const CMD_IDENTIFY: u8 = 0xEC;

pub const CMD_READ_SECTORS: u8 = 0x20;

pub const CMD_WRITE_SECTORS: u8 = 0x30;

pub const CMD_CACHE_FLUSH: u8 = 0xE7;

pub const SECTOR_BYTES: usize = 512;

/// Words of a sector.
pub const SECTOR_WORDS: usize = 256;

/// How often the status is asked for before a transfer is given up.
pub const TRANSFER_POLLS: usize = 100_000;

/// How often the status is asked for before a flush is given up.
pub const FLUSH_POLLS: usize = 200_000;

/// The master on the primary channel.
pub struct AtaPrimaryMaster;

/// What a status byte means to who waits for `status & mask == value`.
#[derive(Clone, Copy, Debug, PartialEq, Eq, Structural)]
pub enum Poll {
    /// The disk is busy or not there yet: ask again.
    Pending,
    /// The disk is there, without an error.
    Ready,
    /// The disk is there, with an error or a fault.
    Failed,
}

/// What `status` means to who waits for `status & mask == value`.
pub open spec fn spec_poll(status: u8, mask: u8, value: u8) -> Poll {
    if status & STATUS_BSY == 0 && status & mask == value {
        if status & STATUS_ERR != 0 || status & STATUS_DF != 0 {
            Poll::Failed
        } else {
            Poll::Ready
        }
    } else {
        Poll::Pending
    }
}

/// How waiting ends, for the status bytes `statuses` from `from` on: with
/// the first byte that is not pending, or, where all are, with an error.
pub open spec fn spec_wait_until(statuses: Seq<u8>, from: int, mask: u8, value: u8) -> Result<
    (),
    DriverError,
>
    decreases statuses.len() - from,
{
    if from < 0 || from >= statuses.len() {
        Err(DriverError::IoError)
    } else {
        match spec_poll(statuses[from], mask, value) {
            Poll::Ready => Ok(()),
            Poll::Failed => Err(DriverError::IoError),
            Poll::Pending => spec_wait_until(statuses, from + 1, mask, value),
        }
    }
}

/// The port writes that program a transfer of the sector `lba`: the drive
/// and the top bits of the address, interrupts on, one sector, the low 24
/// bits of the address, and the command.
pub open spec fn spec_transfer_writes(lba: u64, command: u8) -> Seq<PortWrite> {
    seq![
        PortWrite { port: (PRIMARY_IO_BASE + REG_HDDEVSEL) as u16, value: spec_selector(lba) },
        PortWrite { port: (PRIMARY_CTRL_BASE + REG_DEVICE_CONTROL) as u16, value: 0 },
        PortWrite { port: (PRIMARY_IO_BASE + REG_SECCOUNT0) as u16, value: 1 },
        PortWrite { port: (PRIMARY_IO_BASE + REG_LBA0) as u16, value: (lba % 256) as u8 },
        PortWrite { port: (PRIMARY_IO_BASE + REG_LBA1) as u16, value: ((lba / 256) % 256) as u8 },
        PortWrite { port: (PRIMARY_IO_BASE + REG_LBA2) as u16, value: ((lba / 65536) % 256) as u8 },
        PortWrite { port: (PRIMARY_IO_BASE + REG_COMMAND) as u16, value: command },
    ]
}

/// The byte that selects the master in LBA mode, with bits 24 to 27 of the address.
pub open spec fn spec_selector(lba: u64) -> u8 {
    (0xE0 + (lba / 0x100_0000) % 16) as u8
}

/// The bytes of a sector that came in as `words`, the low byte of each word first.
pub open spec fn spec_words_to_bytes(words: Seq<u16>) -> Seq<u8> {
    Seq::new(
        2 * words.len(),
        |i: int| if i % 2 == 0 { (words[i / 2] % 256) as u8 } else { (words[i / 2] / 256) as u8 },
    )
}

/// The words that go out for the bytes of a sector.
pub open spec fn spec_bytes_to_words(bytes: Seq<u8>) -> Seq<u16> {
    Seq::new(bytes.len() / 2, |i: int| (bytes[2 * i] + 256 * bytes[2 * i + 1]) as u16)
}

impl AtaPrimaryMaster {
    pub fn io_base(&self) -> (port: u16)
        ensures
            port == PRIMARY_IO_BASE,
    {
        PRIMARY_IO_BASE
    }

    pub fn ctrl_base(&self) -> (port: u16)
        ensures
            port == PRIMARY_CTRL_BASE,
    {
        PRIMARY_CTRL_BASE
    }

    /// The port to read, and how often, to let 400 ns pass.
    pub fn wait_400ns(&self) -> (reads: (u16, usize))
        ensures
            reads == ((PRIMARY_CTRL_BASE + REG_ALTSTATUS) as u16, 4usize),
    {
        (self.ctrl_base() + REG_ALTSTATUS, 4)
    }

    /// What one status byte means to who waits for `status & mask == value`.
    pub fn poll(&self, status: u8, mask: u8, value: u8) -> (poll: Poll)
        ensures
            poll == spec_poll(status, mask, value),
    {
        if status & STATUS_BSY == 0 && status & mask == value {
            if status & STATUS_ERR != 0 || status & STATUS_DF != 0 {
                return Poll::Failed;
            }
            return Poll::Ready;
        }
        Poll::Pending
    }

    /// Waits for `status & mask == value` on the status bytes that were
    /// read: the first byte that is not pending decides. Bytes that run out
    /// are a timeout.
    pub fn wait_until(&self, statuses: &[u8], mask: u8, value: u8) -> (res: Result<(), DriverError>)
        ensures
            res == spec_wait_until(statuses@, 0, mask, value),
    {
        let mut i: usize = 0;
        while i < statuses.len()
            invariant
                i <= statuses@.len(),
                spec_wait_until(statuses@, i as int, mask, value) == spec_wait_until(
                    statuses@,
                    0,
                    mask,
                    value,
                ),
            decreases statuses@.len() - i,
        {
            match self.poll(statuses[i], mask, value) {
                Poll::Ready => { return Ok(()); },
                Poll::Failed => { return Err(DriverError::IoError); },
                Poll::Pending => {},
            }
            i += 1;
        }
        Err(DriverError::IoError)
    }

    /// The port write that selects the master, with the top bits of `lba`.
    pub fn select_drive(&self, lba: u64) -> (write: PortWrite)
        ensures
            write == (PortWrite {
                port: (PRIMARY_IO_BASE + REG_HDDEVSEL) as u16,
                value: spec_selector(lba),
            }),
    {
        let head = ((lba / 0x100_0000) % 16) as u8;
        let selector = 0xE0 + head;
        outb(self.io_base() + REG_HDDEVSEL, selector)
    }

    fn transfer_writes(&self, lba: u64, command: u8) -> (writes: Vec<PortWrite>)
        ensures
            writes@ == spec_transfer_writes(lba, command),
    {
        let mut writes: Vec<PortWrite> = Vec::new();
        writes.push(self.select_drive(lba));
        writes.push(outb(self.ctrl_base() + REG_DEVICE_CONTROL, 0));
        writes.push(outb(self.io_base() + REG_SECCOUNT0, 1));
        writes.push(outb(self.io_base() + REG_LBA0, (lba % 256) as u8));
        writes.push(outb(self.io_base() + REG_LBA1, ((lba / 256) % 256) as u8));
        writes.push(outb(self.io_base() + REG_LBA2, ((lba / 65536) % 256) as u8));
        writes.push(outb(self.io_base() + REG_COMMAND, command));
        assert(writes@ =~= spec_transfer_writes(lba, command));
        writes
    }

    /// The port writes that ask the disk to identify itself.
    pub fn issue_identify(&self) -> (writes: Vec<PortWrite>)
        ensures
            writes@ == seq![
                PortWrite { port: (PRIMARY_IO_BASE + REG_HDDEVSEL) as u16, value: spec_selector(0) },
                PortWrite { port: (PRIMARY_IO_BASE + REG_SECCOUNT0) as u16, value: 0 },
                PortWrite { port: (PRIMARY_IO_BASE + REG_LBA0) as u16, value: 0 },
                PortWrite { port: (PRIMARY_IO_BASE + REG_LBA1) as u16, value: 0 },
                PortWrite { port: (PRIMARY_IO_BASE + REG_LBA2) as u16, value: 0 },
                PortWrite { port: (PRIMARY_IO_BASE + REG_COMMAND) as u16, value: CMD_IDENTIFY },
            ],
    {
        let mut writes: Vec<PortWrite> = Vec::new();
        writes.push(self.select_drive(0));
        writes.push(outb(self.io_base() + REG_SECCOUNT0, 0));
        writes.push(outb(self.io_base() + REG_LBA0, 0));
        writes.push(outb(self.io_base() + REG_LBA1, 0));
        writes.push(outb(self.io_base() + REG_LBA2, 0));
        writes.push(outb(self.io_base() + REG_COMMAND, CMD_IDENTIFY));
        writes
    }

    /// What the first status after the identify command means: zero is no
    /// disk; a busy disk is asked again; an error ends it; a disk that is
    /// there is then waited on for its data.
    pub fn identify_status(&self, status: u8) -> (res: Option<Result<(), DriverError>>)
        ensures
            res == (if status == 0 {
                Some(Err::<(), DriverError>(DriverError::Unsupported))
            } else if status & STATUS_BSY != 0 {
                None
            } else if status & STATUS_ERR != 0 {
                Some(Err::<(), DriverError>(DriverError::IoError))
            } else {
                Some(Ok::<(), DriverError>(()))
            }),
    {
        if status == 0 {
            return Some(Err(DriverError::Unsupported));
        }
        if status & STATUS_BSY != 0 {
            return None;
        }
        if status & STATUS_ERR != 0 {
            return Some(Err(DriverError::IoError));
        }
        Some(Ok(()))
    }

    /// The port writes that ask for the sector `lba` to be read.
    pub fn pio_read_sector(&self, lba: u64) -> (writes: Vec<PortWrite>)
        ensures
            writes@ == spec_transfer_writes(lba, CMD_READ_SECTORS),
    {
        self.transfer_writes(lba, CMD_READ_SECTORS)
    }

    /// The port writes that ask for the sector `lba` to be written.
    pub fn pio_write_sector(&self, lba: u64) -> (writes: Vec<PortWrite>)
        ensures
            writes@ == spec_transfer_writes(lba, CMD_WRITE_SECTORS),
    {
        self.transfer_writes(lba, CMD_WRITE_SECTORS)
    }

    /// Tells from the status after a transfer whether it went wrong.
    pub fn transfer_failed(&self, status: u8) -> (failed: bool)
        ensures
            failed <==> status & (STATUS_ERR | STATUS_DF) != 0,
    {
        status & (STATUS_ERR | STATUS_DF) != 0
    }

    /// The port write that asks the disk to flush its cache.
    pub fn flush(&self) -> (write: PortWrite)
        ensures
            write == (PortWrite {
                port: (PRIMARY_IO_BASE + REG_COMMAND) as u16,
                value: CMD_CACHE_FLUSH,
            }),
    {
        outb(self.io_base() + REG_COMMAND, CMD_CACHE_FLUSH)
    }

    /// How many sectors a transfer of `len` bytes is. Only whole sectors
    /// are transferred.
    pub fn sectors_of(&self, len: usize) -> (res: Result<usize, DriverError>)
        ensures
            len % SECTOR_BYTES != 0 ==> res == Err::<usize, DriverError>(DriverError::Unsupported),
            len % SECTOR_BYTES == 0 ==> res == Ok::<usize, DriverError>(len / SECTOR_BYTES),
    {
        if len % SECTOR_BYTES != 0 {
            return Err(DriverError::Unsupported);
        }
        Ok(len / SECTOR_BYTES)
    }

    /// Turns the words that came from the data port into the bytes of the sector.
    pub fn words_to_bytes(&self, words: &[u16]) -> (bytes: Vec<u8>)
        requires
            2 * words@.len() <= usize::MAX,
        ensures
            bytes@ == spec_words_to_bytes(words@),
    {
        let mut bytes: Vec<u8> = Vec::new();
        let mut i: usize = 0;
        while i < words.len()
            invariant
                i <= words@.len(),
                bytes@.len() == 2 * i,
                forall|j: int|
                    0 <= j < 2 * i ==> #[trigger] bytes@[j] == spec_words_to_bytes(words@)[j],
            decreases words@.len() - i,
        {
            bytes.push((words[i] % 256) as u8);
            bytes.push((words[i] / 256) as u8);
            i += 1;
        }
        assert(bytes@ =~= spec_words_to_bytes(words@));
        bytes
    }

    /// Turns the bytes of a sector into the words that go to the data port.
    pub fn bytes_to_words(&self, bytes: &[u8]) -> (words: Vec<u16>)
        ensures
            words@ == spec_bytes_to_words(bytes@),
    {
        let mut words: Vec<u16> = Vec::new();
        let len = bytes.len();
        let count = len / 2;
        let mut i: usize = 0;
        while i < count
            invariant
                i <= count,
                count == bytes@.len() / 2,
                bytes@.len() == len,
                words@.len() == i,
                forall|j: int| 0 <= j < i ==> #[trigger] words@[j] == spec_bytes_to_words(bytes@)[j],
            decreases count - i,
        {
            words.push(bytes[2 * i] as u16 + 256 * (bytes[2 * i + 1] as u16));
            i += 1;
        }
        assert(words@ =~= spec_bytes_to_words(bytes@));
        words
    }
}

impl Driver for AtaPrimaryMaster {
    fn name(&self) -> (name: &'static str)
        ensures
            name@ == "ata0-master"@,
    {
        "ata0-master"
    }

    fn kind(&self) -> (kind: DriverKind)
        ensures
            kind == DriverKind::Block,
    {
        DriverKind::Block
    }

    /// The disk is started by whoever owns its ports, with `issue_identify`.
    fn init(&mut self) -> (res: Result<(), DriverError>)
        ensures
            res is Ok,
    {
        Ok(())
    }

    fn shutdown(&mut self) {
    }
}

/// The primary master.
pub fn driver() -> (disk: AtaPrimaryMaster)
    ensures
        disk == AtaPrimaryMaster,
{
    AtaPrimaryMaster
}

} // verus!
