//! A read-only FAT16 volume: geometry, cluster chains, the root directory.

use vstd::prelude::*;
use vstd::string::StringSliceAdditionalSpecFns;
use crate::bytes::{read_u16_le, read_u32_le, spec_u16_le, spec_u32_le};
use crate::drivers::{spec_read_blocks, BlockDevice, DriverError};
use crate::vfs::{VfsError, VfsFile, VfsResult};

verus! {

/// Bytes of a sector. Volumes with other sectors are refused.
pub const SECTOR_SIZE: usize = 512;

/// Bytes of a short name: eight of the name, three of the extension.
pub const SHORT_NAME_LEN: usize = 11;

/// Entries of the allocation table from this value on end a chain.
pub const FAT16_END: u16 = 0xFFF8;

/// Bytes of a directory entry.
pub const DIR_ENTRY_BYTES: usize = 32;

/// Why a volume or a file could not be had.
#[derive(Debug, Copy, Clone, PartialEq, Eq, Structural)]
pub enum FatError {
    NotMounted,
    InvalidPath,
    NotFound,
    Io,
}

/// The geometry of a mounted volume.
#[derive(Debug, Copy, Clone, PartialEq, Eq, Structural)]
pub struct FatVolume {
    pub start_lba: u64,
    pub bytes_per_sector: usize,
    pub sectors_per_cluster: u8,
    pub reserved_sectors: u16,
    pub num_fats: u8,
    pub root_entries: u16,
    pub sectors_per_fat: u16,
    pub fat_lba: u64,
    pub root_dir_lba: u64,
    pub root_dir_sectors: u32,
    pub data_lba: u64,
    pub bytes_per_cluster: usize,
}

/// The sector at `lba` of a device that holds `storage`, where it can be read.
pub open spec fn spec_sector(storage: Seq<u8>, block_size: usize, lba: int) -> Option<Seq<u8>> {
    if 0 <= lba <= u64::MAX {
        match spec_read_blocks(storage, block_size, lba as u64, SECTOR_SIZE as nat) {
            Ok(bytes) => Some(bytes),
            Err(_) => None,
        }
    } else {
        None
    }
}

/// How many bytes a slice of `remaining` bytes gets from a cluster of
/// `sectors` sectors, from byte `within` of sector `sector_index` on.
pub open spec fn spec_slice_len(sectors: int, sector_index: int, within: int, remaining: int) -> int
    decreases sectors - sector_index,
{
    if sector_index < 0 || sector_index >= sectors || remaining <= 0 || within < 0 || within
        >= SECTOR_SIZE {
        0
    } else {
        let copy = if SECTOR_SIZE - within < remaining { SECTOR_SIZE - within } else { remaining };
        copy + spec_slice_len(sectors, sector_index + 1, 0, remaining - copy)
    }
}

/// A slice that fits in what is left of the cluster gets all its bytes.
pub proof fn lemma_slice_len_fits(sectors: int, sector_index: int, within: int, remaining: int)
    requires
        0 <= sector_index,
        0 <= within < SECTOR_SIZE,
        0 <= remaining,
        sector_index * SECTOR_SIZE + within + remaining <= sectors * SECTOR_SIZE,
    ensures
        spec_slice_len(sectors, sector_index, within, remaining) == remaining,
    decreases sectors - sector_index,
{
    if sector_index < sectors && remaining > 0 {
        let copy = if SECTOR_SIZE - within < remaining { SECTOR_SIZE - within } else { remaining };
        if remaining - copy > 0 {
            lemma_slice_len_fits(sectors, sector_index + 1, 0, remaining - copy);
        } else {
            assert(spec_slice_len(sectors, sector_index + 1, 0, 0) == 0);
        }
    } else if remaining > 0 {
        assert(sector_index * SECTOR_SIZE >= sectors * SECTOR_SIZE) by (nonlinear_arith)
            requires
                sector_index >= sectors,
        ;
    }
}

/// The geometry that the boot sector `sector` of a volume at `start_lba`
/// describes. A sector size other than 512, and a layout that does not fit
/// in 64-bit sector numbers, are refused.
pub open spec fn spec_geometry(sector: Seq<u8>, start_lba: u64) -> Result<FatVolume, FatError> {
    let bytes_per_sector = spec_u16_le(sector, 11);
    let sectors_per_cluster = sector[13];
    let reserved_sectors = spec_u16_le(sector, 14);
    let num_fats = sector[16];
    let root_entries = spec_u16_le(sector, 17);
    let sectors_per_fat = spec_u16_le(sector, 22);
    let fat_lba = start_lba + reserved_sectors;
    let root_dir_lba = fat_lba + num_fats * sectors_per_fat;
    let root_dir_sectors = (root_entries * DIR_ENTRY_BYTES + (SECTOR_SIZE - 1)) / (
    SECTOR_SIZE as int);
    let data_lba = root_dir_lba + root_dir_sectors;
    if bytes_per_sector != SECTOR_SIZE || data_lba > u64::MAX {
        Err(FatError::Io)
    } else {
        Ok(
            FatVolume {
                start_lba,
                bytes_per_sector: SECTOR_SIZE,
                sectors_per_cluster,
                reserved_sectors: reserved_sectors as u16,
                num_fats,
                root_entries: root_entries as u16,
                sectors_per_fat: sectors_per_fat as u16,
                fat_lba: fat_lba as u64,
                root_dir_lba: root_dir_lba as u64,
                root_dir_sectors: root_dir_sectors as u32,
                data_lba: data_lba as u64,
                bytes_per_cluster: (SECTOR_SIZE * sectors_per_cluster) as usize,
            },
        )
    }
}

/// The volume at `start_lba` of a device that holds `storage`.
pub open spec fn spec_load(storage: Seq<u8>, block_size: usize, start_lba: u64) -> Result<
    FatVolume,
    FatError,
> {
    match spec_sector(storage, block_size, start_lba as int) {
        None => Err(FatError::Io),
        Some(sector) => spec_geometry(sector, start_lba),
    }
}

impl FatVolume {
    /// Sectors are 512 bytes, and a cluster is a positive number of them.
    pub open spec fn wf(&self) -> bool {
        &&& self.bytes_per_sector == SECTOR_SIZE
        &&& self.sectors_per_cluster >= 1
        &&& self.bytes_per_cluster == SECTOR_SIZE * self.sectors_per_cluster
    }

    /// The first sector of `cluster`. Data clusters are numbered from 2.
    pub open spec fn spec_cluster_to_lba(&self, cluster: u16) -> Option<u64> {
        let lba = self.data_lba + (cluster - 2) * self.sectors_per_cluster;
        if cluster >= 2 && lba <= u64::MAX {
            Some(lba as u64)
        } else {
            None
        }
    }

    /// The cluster that follows `cluster` in its chain, or nothing at the
    /// chain's end.
    pub open spec fn spec_next_cluster(&self, storage: Seq<u8>, block_size: usize, cluster: u16) -> Result<
        Option<u16>,
        FatError,
    > {
        let fat_offset = cluster * 2;
        match spec_sector(storage, block_size, self.fat_lba + fat_offset / (SECTOR_SIZE as int)) {
            None => Err(FatError::Io),
            Some(sector) => {
                let entry = spec_u16_le(sector, fat_offset % (SECTOR_SIZE as int));
                if entry >= FAT16_END {
                    Ok(None)
                } else {
                    Ok(Some(entry as u16))
                }
            },
        }
    }

    /// The cluster that holds byte `offset` of the chain that begins at
    /// `cluster`, and the byte's offset inside it; nothing where the chain
    /// ends before the byte. A chain that begins at cluster 0 is empty.
    pub open spec fn spec_cluster_for_offset(
        &self,
        storage: Seq<u8>,
        block_size: usize,
        cluster: u16,
        offset: u64,
    ) -> Result<Option<(u16, u64)>, FatError>
        decreases offset,
        when self.bytes_per_cluster > 0
    {
        if offset < self.bytes_per_cluster {
            Ok(Some((cluster, offset)))
        } else {
            match self.spec_next_cluster(storage, block_size, cluster) {
                Err(e) => Err(e),
                Ok(None) => Ok(None),
                Ok(Some(next)) => self.spec_cluster_for_offset(
                    storage,
                    block_size,
                    next,
                    (offset - self.bytes_per_cluster) as u64,
                ),
            }
        }
    }

    /// `done` followed by up to `remaining` bytes of `cluster`, from byte
    /// `within` of its sector `sector_index` on. The bytes end with the cluster.
    pub open spec fn spec_cluster_slice(
        &self,
        storage: Seq<u8>,
        block_size: usize,
        cluster: u16,
        sector_index: int,
        within: int,
        remaining: int,
        done: Seq<u8>,
    ) -> Result<Seq<u8>, FatError>
        decreases self.sectors_per_cluster - sector_index,
    {
        if sector_index < 0 || sector_index >= self.sectors_per_cluster || remaining <= 0 || within
            < 0 || within >= SECTOR_SIZE {
            Ok(done)
        } else {
            match self.spec_cluster_to_lba(cluster) {
                None => Err(FatError::Io),
                Some(lba) => match spec_sector(storage, block_size, lba + sector_index) {
                    None => Err(FatError::Io),
                    Some(sector) => {
                        let copy = if SECTOR_SIZE - within < remaining {
                            SECTOR_SIZE - within
                        } else {
                            remaining
                        };
                        self.spec_cluster_slice(
                            storage,
                            block_size,
                            cluster,
                            sector_index + 1,
                            0,
                            remaining - copy,
                            done + sector.subrange(within, within + copy),
                        )
                    },
                },
            }
        }
    }

    /// The bytes of a cluster slice are as many as were asked for, or as the
    /// cluster still holds.
    pub proof fn lemma_cluster_slice_len(
        &self,
        storage: Seq<u8>,
        block_size: usize,
        cluster: u16,
        sector_index: int,
        within: int,
        remaining: int,
        done: Seq<u8>,
    )
        ensures
            self.spec_cluster_slice(
                storage,
                block_size,
                cluster,
                sector_index,
                within,
                remaining,
                done,
            ) matches Ok(bytes) ==> bytes.len() == done.len() + spec_slice_len(
                self.sectors_per_cluster as int,
                sector_index,
                within,
                remaining,
            ),
        decreases self.sectors_per_cluster - sector_index,
    {
        if sector_index < 0 || sector_index >= self.sectors_per_cluster || remaining <= 0 || within
            < 0 || within >= SECTOR_SIZE {
        } else {
            match self.spec_cluster_to_lba(cluster) {
                None => {},
                Some(lba) => match spec_sector(storage, block_size, lba + sector_index) {
                    None => {},
                    Some(sector) => {
                        let copy = if SECTOR_SIZE - within < remaining {
                            SECTOR_SIZE - within
                        } else {
                            remaining
                        };
                        self.lemma_cluster_slice_len(
                            storage,
                            block_size,
                            cluster,
                            sector_index + 1,
                            0,
                            remaining - copy,
                            done + sector.subrange(within, within + copy),
                        );
                    },
                },
            }
        }
    }

    /// The first cluster and the size of the file named `short` in the root
    /// directory, looking from entry `entry_index` of sector `sector_index`
    /// on. Deleted entries, long names, volume labels and directories are
    /// passed over; an entry that begins with zero ends the directory.
    pub open spec fn spec_find(
        &self,
        storage: Seq<u8>,
        block_size: usize,
        short: Seq<u8>,
        sector_index: int,
        entry_index: int,
    ) -> Result<(u16, u32), FatError>
        decreases self.root_dir_sectors - sector_index, SECTOR_SIZE / DIR_ENTRY_BYTES - entry_index,
    {
        if sector_index < 0 || sector_index >= self.root_dir_sectors || entry_index < 0 {
            Err(FatError::NotFound)
        } else if entry_index >= SECTOR_SIZE / DIR_ENTRY_BYTES {
            self.spec_find(storage, block_size, short, sector_index + 1, 0)
        } else {
            match spec_sector(storage, block_size, self.root_dir_lba + sector_index) {
                None => Err(FatError::Io),
                Some(sector) => {
                    let at = entry_index * DIR_ENTRY_BYTES;
                    if sector[at] == 0x00 {
                        Err(FatError::NotFound)
                    } else if sector[at] == 0xE5 || sector[at + 11] == 0x0F || sector[at + 11]
                        & 0x08 != 0 || sector[at + 11] & 0x10 != 0 || sector.subrange(
                        at,
                        at + SHORT_NAME_LEN,
                    ) != short {
                        self.spec_find(storage, block_size, short, sector_index, entry_index + 1)
                    } else {
                        Ok((spec_u16_le(sector, at + 26) as u16, spec_u32_le(sector, at + 28) as u32))
                    }
                },
            }
        }
    }

    /// Reads the boot sector at `start_lba` and works out the volume's
    /// geometry. The volume can be read where its clusters have at least
    /// one sector.
    pub fn load<D: BlockDevice>(device: &D, start_lba: u64) -> (res: Result<FatVolume, FatError>)
        ensures
            res matches Ok(volume) ==> volume.start_lba == start_lba && (volume.wf()
                <==> volume.sectors_per_cluster >= 1),
            device.storage() matches Some(storage) ==> res == spec_load(
                storage,
                device.spec_block_size(),
                start_lba,
            ),
            res matches Ok(volume) ==> exists|sector: Seq<u8>|
                sector.len() == SECTOR_SIZE && #[trigger] spec_geometry(sector, start_lba) == Ok::<
                    FatVolume,
                    FatError,
                >(volume),
            res matches Err(e) ==> e == FatError::Io,
    {
        let sector = match Self::read_boot_sector(device, start_lba) {
            Ok(sector) => sector,
            Err(_) => { return Err(FatError::Io); },
        };
        let res = Self::geometry(sector.as_slice(), start_lba);
        proof {
            if res is Ok {
                assert(spec_geometry(sector@, start_lba) == Ok::<FatVolume, FatError>(res->Ok_0));
            }
        }
        res
    }

    /// Works out the geometry of the volume at `start_lba` from its boot
    /// sector.
    pub fn geometry(sector: &[u8], start_lba: u64) -> (res: Result<FatVolume, FatError>)
        requires
            sector@.len() == SECTOR_SIZE,
        ensures
            res == spec_geometry(sector@, start_lba),
    {
        let bytes_per_sector = read_u16_le(sector, 11).unwrap();
        if bytes_per_sector as usize != SECTOR_SIZE {
            return Err(FatError::Io);
        }
        let sectors_per_cluster = sector[13];
        let reserved_sectors = read_u16_le(sector, 14).unwrap();
        let num_fats = sector[16];
        let root_entries = read_u16_le(sector, 17).unwrap();
        let sectors_per_fat = read_u16_le(sector, 22).unwrap();
        assert(num_fats * sectors_per_fat <= 0xFF * 0xFFFF) by (nonlinear_arith)
            requires
                num_fats <= 0xFF,
                sectors_per_fat <= 0xFFFF,
        ;
        let fat_sectors: u64 = num_fats as u64 * sectors_per_fat as u64;
        let root_dir_sectors: u32 = (root_entries as u32 * 32 + (SECTOR_SIZE as u32 - 1))
            / SECTOR_SIZE as u32;
        let fat_lba = match start_lba.checked_add(reserved_sectors as u64) {
            Some(v) => v,
            None => { return Err(FatError::Io); },
        };
        let root_dir_lba = match fat_lba.checked_add(fat_sectors) {
            Some(v) => v,
            None => { return Err(FatError::Io); },
        };
        let data_lba = match root_dir_lba.checked_add(root_dir_sectors as u64) {
            Some(v) => v,
            None => { return Err(FatError::Io); },
        };
        Ok(
            FatVolume {
                start_lba,
                bytes_per_sector: SECTOR_SIZE,
                sectors_per_cluster,
                reserved_sectors,
                num_fats,
                root_entries,
                sectors_per_fat,
                fat_lba,
                root_dir_lba,
                root_dir_sectors,
                data_lba,
                bytes_per_cluster: SECTOR_SIZE * sectors_per_cluster as usize,
            },
        )
    }

    fn read_boot_sector<D: BlockDevice>(device: &D, lba: u64) -> (res: Result<Vec<u8>, FatError>)
        ensures
            res matches Ok(sector) ==> sector@.len() == SECTOR_SIZE,
            device.storage() matches Some(storage) ==> match spec_sector(
                storage,
                device.spec_block_size(),
                lba as int,
            ) {
                None => res == Err::<Vec<u8>, FatError>(FatError::Io),
                Some(bytes) => res is Ok && res->Ok_0@ == bytes,
            },
    {
        let mut sector: Vec<u8> = vec![0u8; SECTOR_SIZE];
        match device.read_blocks(lba, sector.as_mut_slice()) {
            Ok(()) => Ok(sector),
            Err(_) => Err(FatError::Io),
        }
    }

    /// Reads the sector at `lba`.
    pub fn read_sector<D: BlockDevice>(&self, device: &D, lba: u64) -> (res: Result<
        Vec<u8>,
        FatError,
    >)
        ensures
            res matches Ok(sector) ==> sector@.len() == SECTOR_SIZE,
            device.storage() matches Some(storage) ==> match spec_sector(
                storage,
                device.spec_block_size(),
                lba as int,
            ) {
                None => res == Err::<Vec<u8>, FatError>(FatError::Io),
                Some(bytes) => res is Ok && res->Ok_0@ == bytes,
            },
    {
        Self::read_boot_sector(device, lba)
    }

    /// The first sector of `cluster`, where the cluster is a data cluster
    /// and its sector can be numbered.
    pub fn cluster_to_lba(&self, cluster: u16) -> (lba: Option<u64>)
        ensures
            lba == self.spec_cluster_to_lba(cluster),
    {
        if cluster < 2 {
            return None;
        }
        assert((cluster - 2) * self.sectors_per_cluster <= 0xFFFF * 0xFF) by (nonlinear_arith)
            requires
                2 <= cluster <= 0xFFFF,
                self.sectors_per_cluster <= 0xFF,
        ;
        let sectors: u64 = (cluster as u64 - 2) * (self.sectors_per_cluster as u64);
        self.data_lba.checked_add(sectors)
    }

    /// Looks up the successor of `cluster` in the allocation table.
    pub fn next_cluster<D: BlockDevice>(&self, device: &D, cluster: u16) -> (res: Result<
        Option<u16>,
        FatError,
    >)
        ensures
            device.storage() matches Some(storage) ==> res == self.spec_next_cluster(
                storage,
                device.spec_block_size(),
                cluster,
            ),
    {
        let fat_offset = cluster as usize * 2;
        let fat_sector = fat_offset / SECTOR_SIZE;
        let offset_within = fat_offset % SECTOR_SIZE;
        let fat_lba = match self.fat_lba.checked_add(fat_sector as u64) {
            Some(lba) => lba,
            None => { return Err(FatError::Io); },
        };
        let sector = match self.read_sector(device, fat_lba) {
            Ok(sector) => sector,
            Err(e) => { return Err(e); },
        };
        let entry = read_u16_le(sector.as_slice(), offset_within).unwrap();
        if entry >= FAT16_END {
            Ok(None)
        } else {
            Ok(Some(entry))
        }
    }

    /// Walks the chain from `start_cluster` to the cluster that holds byte `offset`.
    #[verifier::loop_isolation(false)]
    pub fn cluster_for_offset<D: BlockDevice>(
        &self,
        device: &D,
        start_cluster: u16,
        offset: u64,
    ) -> (res: Result<Option<(u16, u64)>, FatError>)
        requires
            self.wf(),
        ensures
            res matches Ok(Some((_, within))) ==> within < self.bytes_per_cluster,
            start_cluster == 0 ==> res == Ok::<Option<(u16, u64)>, FatError>(None),
            start_cluster != 0 ==> (device.storage() matches Some(storage) ==> res
                == self.spec_cluster_for_offset(
                storage,
                device.spec_block_size(),
                start_cluster,
                offset,
            )),
    {
        if start_cluster == 0 {
            return Ok(None);
        }
        let cluster_bytes = self.bytes_per_cluster as u64;
        let mut cluster = start_cluster;
        let wanted = offset;
        let mut offset = wanted;
        while offset >= cluster_bytes
            invariant
                self.wf(),
                cluster_bytes == self.bytes_per_cluster,
                device.storage() matches Some(storage) ==> self.spec_cluster_for_offset(
                    storage,
                    device.spec_block_size(),
                    cluster,
                    offset,
                ) == self.spec_cluster_for_offset(
                    storage,
                    device.spec_block_size(),
                    start_cluster,
                    wanted,
                ),
            decreases offset,
        {
            match self.next_cluster(device, cluster) {
                Err(e) => { return Err(e); },
                Ok(None) => { return Ok(None); },
                Ok(Some(next)) => {
                    cluster = next;
                    offset -= cluster_bytes;
                },
            }
        }
        Ok(Some((cluster, offset)))
    }

    /// Copies up to `len` bytes of `cluster`, from its byte `offset` on, to
    /// `dest` at `dest_start`. The copy ends with the cluster.
    #[verifier::loop_isolation(false)]
    pub fn read_cluster_slice<D: BlockDevice>(
        &self,
        device: &D,
        cluster: u16,
        offset: usize,
        dest: &mut [u8],
        dest_start: usize,
        len: usize,
    ) -> (res: Result<usize, FatError>)
        requires
            self.wf(),
            dest_start + len <= old(dest)@.len(),
        ensures
            final(dest)@.len() == old(dest)@.len(),
            res matches Ok(copied) ==> copied == spec_slice_len(
                self.sectors_per_cluster as int,
                (offset / SECTOR_SIZE) as int,
                (offset % SECTOR_SIZE) as int,
                len as int,
            ),
            res matches Ok(copied) ==> copied <= len && final(dest)@.subrange(0, dest_start as int)
                == old(dest)@.subrange(0, dest_start as int) && final(dest)@.subrange(
                dest_start + copied,
                old(dest)@.len() as int,
            ) == old(dest)@.subrange(dest_start + copied, old(dest)@.len() as int),
            device.storage() matches Some(storage) ==> match self.spec_cluster_slice(
                storage,
                device.spec_block_size(),
                cluster,
                (offset / SECTOR_SIZE) as int,
                (offset % SECTOR_SIZE) as int,
                len as int,
                Seq::empty(),
            ) {
                Err(e) => res == Err::<usize, FatError>(e),
                Ok(bytes) => res is Ok && res->Ok_0 == bytes.len() && final(dest)@.subrange(
                    dest_start as int,
                    dest_start + bytes.len(),
                ) == bytes,
            },
    {
        let dest_len = dest.len();
        let mut remaining = len;
        let mut dest_offset: usize = 0;
        let mut within = offset % SECTOR_SIZE;
        let mut sector_index = offset / SECTOR_SIZE;
        let sectors_per_cluster = self.sectors_per_cluster as usize;
        let ghost done0 = Seq::<u8>::empty();
        assert(dest@.subrange(dest_start as int, dest_start + 0) =~= done0);
        while sector_index < sectors_per_cluster && remaining > 0
            invariant
                self.wf(),
                sectors_per_cluster == self.sectors_per_cluster,
                within < SECTOR_SIZE,
                dest@.len() == old(dest)@.len(),
                dest_start + len <= dest@.len(),
                dest_offset + remaining == len,
                dest_offset + spec_slice_len(
                    sectors_per_cluster as int,
                    sector_index as int,
                    within as int,
                    remaining as int,
                ) == spec_slice_len(
                    sectors_per_cluster as int,
                    (offset / SECTOR_SIZE) as int,
                    (offset % SECTOR_SIZE) as int,
                    len as int,
                ),
                dest@.subrange(0, dest_start as int) == old(dest)@.subrange(0, dest_start as int),
                dest@.subrange(dest_start + dest_offset, dest@.len() as int) == old(dest)@.subrange(
                    dest_start + dest_offset,
                    dest@.len() as int,
                ),
                device.storage() matches Some(storage) ==> self.spec_cluster_slice(
                    storage,
                    device.spec_block_size(),
                    cluster,
                    sector_index as int,
                    within as int,
                    remaining as int,
                    dest@.subrange(dest_start as int, dest_start + dest_offset),
                ) == self.spec_cluster_slice(
                    storage,
                    device.spec_block_size(),
                    cluster,
                    (offset / SECTOR_SIZE) as int,
                    (offset % SECTOR_SIZE) as int,
                    len as int,
                    Seq::empty(),
                ),
            decreases sectors_per_cluster - sector_index,
        {
            let first = match self.cluster_to_lba(cluster) {
                Some(lba) => lba,
                None => { return Err(FatError::Io); },
            };
            let lba = match first.checked_add(sector_index as u64) {
                Some(lba) => lba,
                None => { return Err(FatError::Io); },
            };
            let sector = match self.read_sector(device, lba) {
                Ok(sector) => sector,
                Err(e) => { return Err(e); },
            };
            let room = SECTOR_SIZE - within;
            let copy = if room < remaining { room } else { remaining };
            let ghost before = dest@;
            let mut i: usize = 0;
            while i < copy
                invariant
                    i <= copy,
                    within + copy <= SECTOR_SIZE,
                    sector@.len() == SECTOR_SIZE,
                    dest@.len() == before.len(),
                    dest_start + dest_offset + copy <= dest@.len() <= usize::MAX,
                    forall|k: int|
                        dest_start + dest_offset <= k < dest_start + dest_offset + i ==> #[trigger] dest@[k]
                            == sector@[k - (dest_start + dest_offset) + within],
                    forall|j: int|
                        0 <= j < dest@.len() && !(dest_start + dest_offset <= j < dest_start
                            + dest_offset + i) ==> dest@[j] == before[j],
                decreases copy - i,
            {
                dest[dest_start + dest_offset + i] = sector[within + i];
                i += 1;
            }
            proof {
                assert(dest@.subrange(dest_start as int, dest_start + dest_offset + copy)
                    =~= before.subrange(dest_start as int, dest_start + dest_offset)
                    + sector@.subrange(within as int, within + copy));
                assert(dest@.subrange(0, dest_start as int) =~= before.subrange(
                    0,
                    dest_start as int,
                ));
                assert(dest@.subrange(dest_start + dest_offset + copy, dest@.len() as int)
                    =~= old(dest)@.subrange(dest_start + dest_offset + copy, dest@.len() as int))
                    by {
                    assert forall|j: int|
                        dest_start + dest_offset + copy <= j < dest@.len() implies dest@[j] == old(dest)@[j] by {
                        assert(before.subrange(dest_start + dest_offset, dest@.len() as int)[j - (
                        dest_start + dest_offset)] == old(dest)@.subrange(
                            dest_start + dest_offset,
                            dest@.len() as int,
                        )[j - (dest_start + dest_offset)]);
                    }
                }
            }
            dest_offset += copy;
            remaining -= copy;
            within = 0;
            sector_index += 1;
        }
        Ok(dest_offset)
    }

    /// Looks the file `path` up in the root directory and returns its first
    /// cluster and its size.
    pub fn find_root_file<D: BlockDevice>(&self, device: &D, path: &str) -> (res: Result<
        (u16, u32),
        FatError,
    >)
        requires
            self.wf(),
        ensures
            spec_format_short_name(path.spec_bytes()) is None ==> res == Err::<(u16, u32), FatError>(
                FatError::InvalidPath,
            ),
            spec_format_short_name(path.spec_bytes()) matches Some(short) ==> (
            device.storage() matches Some(storage) ==> res == self.spec_find(
                storage,
                device.spec_block_size(),
                short,
                0,
                0,
            )),
    {
        self.find_root_file_bytes(device, path.as_bytes())
    }

    /// Looks the file with the path `path` up in the root directory.
    #[verifier::loop_isolation(false)]
    pub fn find_root_file_bytes<D: BlockDevice>(&self, device: &D, path: &[u8]) -> (res: Result<
        (u16, u32),
        FatError,
    >)
        requires
            self.wf(),
        ensures
            spec_format_short_name(path@) is None ==> res == Err::<(u16, u32), FatError>(
                FatError::InvalidPath,
            ),
            spec_format_short_name(path@) matches Some(short) ==> (
            device.storage() matches Some(storage) ==> res == self.spec_find(
                storage,
                device.spec_block_size(),
                short,
                0,
                0,
            )),
    {
        let short_name = match format_short_name_bytes(path) {
            Some(name) => name,
            None => { return Err(FatError::InvalidPath); },
        };
        let entries_per_sector = SECTOR_SIZE / DIR_ENTRY_BYTES;
        let mut sector_index: u32 = 0;
        while sector_index < self.root_dir_sectors
            invariant
                self.wf(),
                entries_per_sector == SECTOR_SIZE / DIR_ENTRY_BYTES,
                short_name@.len() == SHORT_NAME_LEN,
                device.storage() matches Some(storage) ==> self.spec_find(
                    storage,
                    device.spec_block_size(),
                    short_name@,
                    sector_index as int,
                    0,
                ) == self.spec_find(storage, device.spec_block_size(), short_name@, 0, 0),
            decreases self.root_dir_sectors - sector_index,
        {
            let lba = match self.root_dir_lba.checked_add(sector_index as u64) {
                Some(lba) => lba,
                None => { return Err(FatError::Io); },
            };
            let sector = match self.read_sector(device, lba) {
                Ok(sector) => sector,
                Err(e) => { return Err(e); },
            };
            let mut entry_index: usize = 0;
            while entry_index < entries_per_sector
                invariant
                    self.wf(),
                    sector_index < self.root_dir_sectors,
                    entry_index <= entries_per_sector,
                    entries_per_sector == SECTOR_SIZE / DIR_ENTRY_BYTES,
                    sector@.len() == SECTOR_SIZE,
                    short_name@.len() == SHORT_NAME_LEN,
                    device.storage() matches Some(storage) ==> spec_sector(
                        storage,
                        device.spec_block_size(),
                        self.root_dir_lba + sector_index,
                    ) == Some(sector@),
                    device.storage() matches Some(storage) ==> self.spec_find(
                        storage,
                        device.spec_block_size(),
                        short_name@,
                        sector_index as int,
                        entry_index as int,
                    ) == self.spec_find(storage, device.spec_block_size(), short_name@, 0, 0),
                decreases entries_per_sector - entry_index,
            {
                let at = entry_index * DIR_ENTRY_BYTES;
                let first = sector[at];
                if first == 0x00 {
                    return Err(FatError::NotFound);
                }
                let attributes = sector[at + 11];
                let mut same = true;
                let mut k: usize = 0;
                while k < SHORT_NAME_LEN
                    invariant
                        k <= SHORT_NAME_LEN,
                        at + DIR_ENTRY_BYTES <= sector@.len(),
                        short_name@.len() == SHORT_NAME_LEN,
                        same <==> forall|j: int| 0 <= j < k ==> sector@[at + j] == short_name@[j],
                    decreases SHORT_NAME_LEN - k,
                {
                    if sector[at + k] != short_name[k] {
                        same = false;
                    }
                    k += 1;
                }
                proof {
                    let stored = sector@.subrange(at as int, at + SHORT_NAME_LEN);
                    if same {
                        assert(stored =~= short_name@);
                    } else {
                        let j = choose|j: int|
                            0 <= j < SHORT_NAME_LEN && sector@[at + j] != short_name@[j];
                        assert(stored[j] != short_name@[j]);
                    }
                }
                if first == 0xE5 || attributes == 0x0F || attributes & 0x08 != 0 || attributes
                    & 0x10 != 0 || !same {
                    entry_index += 1;
                    continue;
                }
                let start_cluster = read_u16_le(sector.as_slice(), at + 26).unwrap();
                let size = read_u32_le(sector.as_slice(), at + 28).unwrap();
                return Ok((start_cluster, size));
            }
            sector_index += 1;
        }
        Err(FatError::NotFound)
    }
}

/// The byte that stands for `byte` in a short name: letters in upper case,
/// digits and the underscore as they are. No other byte has a place in one.
pub open spec fn spec_to_short_char(byte: u8) -> Option<u8> {
    if 0x61 <= byte <= 0x7A {
        Some((byte - 0x20) as u8)
    } else if (0x41 <= byte <= 0x5A) || (0x30 <= byte <= 0x39) || byte == 0x5F {
        Some(byte)
    } else {
        None
    }
}

/// `part` as `width` bytes of a short name: each byte converted, the rest spaces.
pub open spec fn spec_short_field(part: Seq<u8>, width: int) -> Option<Seq<u8>> {
    if part.len() > width || exists|i: int|
        0 <= i < part.len() && spec_to_short_char(#[trigger] part[i]) is None {
        None
    } else {
        Some(
            Seq::new(
                width as nat,
                |i: int| if i < part.len() { spec_to_short_char(part[i])->0 } else { 0x20u8 },
            ),
        )
    }
}

/// The number of leading slashes of `path`.
pub open spec fn leading_slashes(path: Seq<u8>) -> int
    decreases path.len(),
{
    if path.len() > 0 && path[0] == 0x2F {
        1 + leading_slashes(path.drop_first())
    } else {
        0
    }
}

/// The number of trailing slashes of `path`.
pub open spec fn trailing_slashes(path: Seq<u8>) -> int
    decreases path.len(),
{
    if path.len() > 0 && path.last() == 0x2F {
        1 + trailing_slashes(path.drop_last())
    } else {
        0
    }
}

/// `path` without the slashes at its ends.
pub open spec fn spec_trim_slashes(path: Seq<u8>) -> Seq<u8> {
    let lead = leading_slashes(path);
    if lead >= path.len() {
        Seq::empty()
    } else {
        path.subrange(lead, path.len() - trailing_slashes(path))
    }
}

/// The position of the first `byte` in `bytes`, or their length where there is none.
pub open spec fn index_of(bytes: Seq<u8>, byte: u8) -> int
    decreases bytes.len(),
{
    if bytes.len() == 0 || bytes[0] == byte {
        0
    } else {
        1 + index_of(bytes.drop_first(), byte)
    }
}

/// The position of the first dot of `name`, or its length where it has none.
pub open spec fn first_dot(name: Seq<u8>) -> int {
    index_of(name, 0x2E)
}

/// The first position of a byte lies inside the bytes exactly when they hold it.
pub proof fn lemma_index_of(bytes: Seq<u8>, byte: u8)
    ensures
        0 <= index_of(bytes, byte) <= bytes.len(),
        index_of(bytes, byte) < bytes.len() <==> bytes.contains(byte),
        index_of(bytes, byte) < bytes.len() ==> bytes[index_of(bytes, byte)] == byte,
    decreases bytes.len(),
{
    if bytes.len() > 0 && bytes[0] != byte {
        let rest = bytes.drop_first();
        lemma_index_of(rest, byte);
        if rest.contains(byte) {
            let j = choose|j: int| 0 <= j < rest.len() && rest[j] == byte;
            assert(bytes[j + 1] == byte);
        }
        if bytes.contains(byte) {
            let j = choose|j: int| 0 <= j < bytes.len() && bytes[j] == byte;
            assert(rest[j - 1] == byte);
        }
    } else if bytes.len() > 0 {
        assert(bytes[0] == byte);
    }
}

/// The 11 bytes under which `path` is looked up: the name, at most 8 bytes,
/// then the extension, at most 3, each in upper case and padded with spaces.
/// A path is refused that is empty once the slashes at its ends are taken
/// off, that holds a slash or a second dot, whose name is empty, or that
/// holds a byte that has no place in a short name.
pub open spec fn spec_format_short_name(path: Seq<u8>) -> Option<Seq<u8>> {
    let trimmed = spec_trim_slashes(path);
    let dot = first_dot(trimmed);
    let name = trimmed.subrange(0, dot);
    let extension = if dot < trimmed.len() {
        trimmed.subrange(dot + 1, trimmed.len() as int)
    } else {
        Seq::empty()
    };
    if trimmed.len() == 0 || trimmed.contains(0x2Fu8) || extension.contains(0x2Eu8) || name.len()
        == 0 {
        None
    } else {
        match (spec_short_field(name, 8), spec_short_field(extension, 3)) {
            (Some(n), Some(e)) => Some(n + e),
            _ => None,
        }
    }
}

/// Converts one byte of a path to its byte in a short name.
pub fn to_short_char(byte: u8) -> (res: Option<u8>)
    ensures
        res == spec_to_short_char(byte),
{
    if byte >= 0x61 && byte <= 0x7A {
        Some(byte - 0x20)
    } else if (byte >= 0x41 && byte <= 0x5A) || (byte >= 0x30 && byte <= 0x39) || byte == 0x5F {
        Some(byte)
    } else {
        None
    }
}

/// Finds the first `byte` among `bytes[from..to]`; `to` where there is none.
fn find_byte(bytes: &[u8], from: usize, to: usize, byte: u8) -> (at: usize)
    requires
        from <= to <= bytes@.len(),
    ensures
        from <= at <= to,
        at - from == index_of(bytes@.subrange(from as int, to as int), byte),
{
    let mut at = from;
    assert(bytes@.subrange(from as int, to as int).subrange(0, to - from) =~= bytes@.subrange(
        from as int,
        to as int,
    ));
    while at < to && bytes[at] != byte
        invariant
            from <= at <= to <= bytes@.len(),
            index_of(bytes@.subrange(from as int, to as int), byte) == (at - from) + index_of(
                bytes@.subrange(at as int, to as int),
                byte,
            ),
        decreases to - at,
    {
        assert(bytes@.subrange(at as int, to as int).drop_first() =~= bytes@.subrange(
            at + 1,
            to as int,
        ));
        at += 1;
    }
    at
}

/// Finds the bounds of `bytes` without the slashes at its ends.
fn trim_slashes(bytes: &[u8]) -> (range: (usize, usize))
    ensures
        range.0 <= range.1 <= bytes@.len(),
        bytes@.subrange(range.0 as int, range.1 as int) == spec_trim_slashes(bytes@),
{
    let len = bytes.len();
    let mut start: usize = 0;
    assert(bytes@.subrange(0, len as int) =~= bytes@);
    while start < len && bytes[start] == 0x2F
        invariant
            start <= len,
            len == bytes@.len(),
            leading_slashes(bytes@) == start + leading_slashes(
                bytes@.subrange(start as int, len as int),
            ),
        decreases len - start,
    {
        assert(bytes@.subrange(start as int, len as int).drop_first() =~= bytes@.subrange(
            start + 1,
            len as int,
        ));
        start += 1;
    }
    if start >= len {
        assert(bytes@.subrange(len as int, len as int) =~= Seq::<u8>::empty());
        return (len, len);
    }
    assert(bytes@.subrange(start as int, len as int)[0] == bytes@[start as int]);
    let mut end: usize = len;
    while end > start + 1 && bytes[end - 1] == 0x2F
        invariant
            start < end <= len,
            len == bytes@.len(),
            trailing_slashes(bytes@) == (len - end) + trailing_slashes(bytes@.subrange(0, end as int)),
        decreases end,
    {
        assert(bytes@.subrange(0, end as int).drop_last() =~= bytes@.subrange(0, end - 1));
        end -= 1;
    }
    assert(bytes@.subrange(0, end as int).last() == bytes@[end - 1]);
    (start, end)
}

/// Converts `bytes[from..to]` into the short name `short` at `at`. Tells
/// whether every byte has a place in a short name.
fn fill_field(bytes: &[u8], from: usize, to: usize, short: &mut [u8; 11], at: usize) -> (ok: bool)
    requires
        from <= to <= bytes@.len(),
        at + (to - from) <= 11,
    ensures
        ok <==> forall|j: int|
            0 <= j < to - from ==> spec_to_short_char(
                #[trigger] bytes@.subrange(from as int, to as int)[j],
            ) is Some,
        ok ==> forall|j: int|
            0 <= j < to - from ==> (#[trigger] final(short)@[at + j]) == spec_to_short_char(
                bytes@[from + j],
            )->0,
        forall|j: int|
            0 <= j < 11 && !(at <= j < at + (to - from)) ==> (#[trigger] final(short)@[j]) == old(short)@[j],
{
    let ghost part = bytes@.subrange(from as int, to as int);
    let _ = bytes.len();
    let mut i: usize = 0;
    while i < to - from
        invariant
            i <= to - from,
            from <= to <= bytes@.len() <= usize::MAX,
            at + (to - from) <= 11,
            part == bytes@.subrange(from as int, to as int),
            forall|j: int| 0 <= j < i ==> spec_to_short_char(#[trigger] part[j]) is Some,
            forall|j: int|
                0 <= j < i ==> (#[trigger] short@[at + j]) == spec_to_short_char(
                    bytes@[from + j],
                )->0,
            forall|j: int|
                0 <= j < 11 && !(at <= j < at + i) ==> (#[trigger] short@[j]) == old(short)@[j],
        decreases to - from - i,
    {
        match to_short_char(bytes[from + i]) {
            Some(byte) => {
                short[at + i] = byte;
            },
            None => {
                assert(spec_to_short_char(part[i as int]) is None);
                return false;
            },
        }
        i += 1;
    }
    true
}

/// Works out the short name under which `path` is stored.
pub fn format_short_name(path: &str) -> (res: Option<[u8; 11]>)
    ensures
        match spec_format_short_name(path.spec_bytes()) {
            None => res is None,
            Some(short) => res is Some && res->0@ == short,
        },
{
    format_short_name_bytes(path.as_bytes())
}

/// Works out the short name under which the path `bytes` is stored.
pub fn format_short_name_bytes(bytes: &[u8]) -> (res: Option<[u8; 11]>)
    ensures
        match spec_format_short_name(bytes@) {
            None => res is None,
            Some(short) => res is Some && res->0@ == short,
        },
{
    let (start, end) = trim_slashes(bytes);
    if start >= end {
        return None;
    }
    let ghost trimmed = bytes@.subrange(start as int, end as int);
    let slash = find_byte(bytes, start, end, 0x2F);
    let dot = find_byte(bytes, start, end, 0x2E);
    let extension_start = if dot < end { dot + 1 } else { end };
    let later_dot = find_byte(bytes, extension_start, end, 0x2E);
    let ghost name = trimmed.subrange(0, dot - start);
    let ghost extension = if dot < end {
        trimmed.subrange(dot - start + 1, end - start)
    } else {
        Seq::<u8>::empty()
    };
    proof {
        lemma_index_of(trimmed, 0x2F);
        lemma_index_of(extension, 0x2E);
        assert(name =~= bytes@.subrange(start as int, dot as int));
        assert(extension =~= bytes@.subrange(extension_start as int, end as int));
    }
    if slash < end || later_dot < end || dot == start {
        return None;
    }
    if dot - start > 8 || end - extension_start > 3 {
        return None;
    }
    let mut short: [u8; 11] = [0x20u8; 11];
    let ghost blank = short@;
    if !fill_field(bytes, start, dot, &mut short, 0) {
        return None;
    }
    let ghost first = short@;
    if !fill_field(bytes, extension_start, end, &mut short, 8) {
        return None;
    }
    proof {
        assert(spec_short_field(name, 8) is Some);
        assert(spec_short_field(extension, 3) is Some);
        let n = spec_short_field(name, 8)->0;
        let e = spec_short_field(extension, 3)->0;
        assert forall|j: int| 0 <= j < 11 implies short@[j] == (n + e)[j] by {
            if j < 8 {
                assert(short@[j] == first[j]);
                if j < name.len() {
                    assert(first[0 + j] == spec_to_short_char(bytes@[start + j])->0);
                    assert(name[j] == bytes@[start + j]);
                } else {
                    assert(first[j] == blank[j]);
                }
            } else {
                if j - 8 < extension.len() {
                    assert(short@[8 + (j - 8)] == spec_to_short_char(
                        bytes@[extension_start + (j - 8)],
                    )->0);
                    assert(extension[j - 8] == bytes@[extension_start + (j - 8)]);
                } else {
                    assert(short@[j] == first[j]);
                    assert(first[j] == blank[j]);
                }
            }
        }
        assert(short@ =~= n + e);
    }
    Some(short)
}

/// A file of the volume: where its chain begins and how many bytes it holds.
#[derive(Debug, Copy, Clone, PartialEq, Eq, Structural)]
pub struct FatFile {
    pub volume: FatVolume,
    pub start_cluster: u16,
    pub size: u32,
}

impl FatFile {
    pub open spec fn wf(&self) -> bool {
        self.volume.wf()
    }

    /// `done` followed by up to `total` bytes of the file from `offset` on.
    /// The bytes end where the file's chain ends.
    pub open spec fn spec_read(
        &self,
        storage: Seq<u8>,
        block_size: usize,
        offset: u64,
        total: int,
        done: Seq<u8>,
    ) -> Result<Seq<u8>, VfsError>
        decreases total,
        when self.volume.bytes_per_cluster > 0
    {
        if total <= 0 || self.start_cluster == 0 {
            Ok(done)
        } else {
            match self.volume.spec_cluster_for_offset(storage, block_size, self.start_cluster, offset) {
                Err(_) => Err(VfsError::Io),
                Ok(None) => Ok(done),
                Ok(Some((cluster, within))) => {
                    let room = self.volume.bytes_per_cluster - within;
                    let copy = if room < total { room } else { total };
                    if copy <= 0 {
                        Ok(done)
                    } else {
                        match self.volume.spec_cluster_slice(
                            storage,
                            block_size,
                            cluster,
                            within as int / (SECTOR_SIZE as int),
                            within as int % (SECTOR_SIZE as int),
                            copy,
                            Seq::empty(),
                        ) {
                            Err(_) => Err(VfsError::Io),
                            Ok(bytes) => self.spec_read(
                                storage,
                                block_size,
                                (offset + copy) as u64,
                                total - copy,
                                done + bytes,
                            ),
                        }
                    }
                },
            }
        }
    }

    /// The bytes that reading `len` bytes at `offset` gives: nothing at or
    /// past the end of the file, and never more than the file holds.
    pub open spec fn spec_read_at(&self, storage: Seq<u8>, block_size: usize, offset: u64, len: nat) -> Result<
        Seq<u8>,
        VfsError,
    > {
        if offset >= self.size {
            Ok(Seq::empty())
        } else {
            let left = self.size - offset;
            self.spec_read(
                storage,
                block_size,
                offset,
                if len < left { len as int } else { left },
                Seq::empty(),
            )
        }
    }
}

impl VfsFile for FatFile {
    /// Every file of the volume goes by the same name.
    fn name(&self) -> (name: &'static str)
        ensures
            name@ == "fat-file"@,
    {
        "fat-file"
    }

    /// Reads from the file at `offset` into `buf`, cluster by cluster.
    #[verifier::loop_isolation(false)]
    fn read_at<D: BlockDevice>(&self, device: &D, offset: u64, buf: &mut [u8]) -> (res: VfsResult<
        usize,
    >)
        ensures
            offset >= self.size ==> res == Ok::<usize, VfsError>(0) && final(buf)@ == old(buf)@,
            self.wf() ==> (device.storage() matches Some(storage) ==> match self.spec_read_at(
                storage,
                device.spec_block_size(),
                offset,
                old(buf)@.len(),
            ) {
                Err(e) => res == Err::<usize, VfsError>(e),
                Ok(bytes) => res is Ok && res->Ok_0 == bytes.len() && final(buf)@.subrange(0, bytes.len() as int) == bytes,
            }),
    {
        if offset >= self.size as u64 {
            return Ok(0);
        }
        if self.volume.bytes_per_sector != SECTOR_SIZE || self.volume.sectors_per_cluster == 0
            || self.volume.bytes_per_cluster != SECTOR_SIZE * self.volume.sectors_per_cluster as usize {
            return Err(VfsError::Io);
        }
        let remaining_file = self.size as u64 - offset;
        let mut total: usize = if (buf.len() as u64) < remaining_file {
            buf.len()
        } else {
            remaining_file as usize
        };
        let mut written: usize = 0;
        let mut current_offset = offset;
        assert(buf@.subrange(0, 0) =~= Seq::<u8>::empty());
        while total > 0
            invariant
                self.wf(),
                buf@.len() == old(buf)@.len(),
                written + total <= buf@.len(),
                buf@.subrange(written as int, buf@.len() as int) == old(buf)@.subrange(
                    written as int,
                    buf@.len() as int,
                ),
                current_offset + total <= self.size,
                device.storage() matches Some(storage) ==> self.spec_read(
                    storage,
                    device.spec_block_size(),
                    current_offset,
                    total as int,
                    buf@.subrange(0, written as int),
                ) == self.spec_read_at(storage, device.spec_block_size(), offset, old(buf)@.len()),
            decreases total,
        {
            let (cluster, offset_in_cluster) = match self.volume.cluster_for_offset(
                device,
                self.start_cluster,
                current_offset,
            ) {
                Ok(Some(info)) => info,
                Ok(None) => {
                    break ;
                },
                Err(_) => { return Err(VfsError::Io); },
            };
            let cluster_remaining = self.volume.bytes_per_cluster as u64 - offset_in_cluster;
            let to_copy: usize = if cluster_remaining < total as u64 {
                cluster_remaining as usize
            } else {
                total
            };
            let ghost before = buf@;
            let copied = match self.volume.read_cluster_slice(
                device,
                cluster,
                offset_in_cluster as usize,
                buf,
                written,
                to_copy,
            ) {
                Ok(copied) => copied,
                Err(_) => { return Err(VfsError::Io); },
            };
            proof {
                lemma_slice_len_fits(
                    self.volume.sectors_per_cluster as int,
                    (offset_in_cluster as usize / SECTOR_SIZE) as int,
                    (offset_in_cluster as usize % SECTOR_SIZE) as int,
                    to_copy as int,
                );
                assert(buf@.subrange(written + to_copy, buf@.len() as int) =~= old(buf)@.subrange(
                    written + to_copy,
                    buf@.len() as int,
                )) by {
                    assert forall|j: int| written + to_copy <= j < buf@.len() implies buf@[j] == old(buf)@[j] by {
                        assert(buf@.subrange(written + copied, buf@.len() as int)[j - written
                            - copied] == before.subrange(written + copied, buf@.len() as int)[j
                            - written - copied]);
                        assert(before.subrange(written as int, buf@.len() as int)[j - written]
                            == old(buf)@.subrange(written as int, buf@.len() as int)[j - written]);
                    }
                }
                if device.storage() is Some {
                    self.volume.lemma_cluster_slice_len(
                        device.storage()->0,
                        device.spec_block_size(),
                        cluster,
                        (offset_in_cluster as usize / SECTOR_SIZE) as int,
                        (offset_in_cluster as usize % SECTOR_SIZE) as int,
                        to_copy as int,
                        Seq::empty(),
                    );
                    let bytes = buf@.subrange(written as int, written + copied);
                    assert(buf@.subrange(0, written + copied) =~= before.subrange(0, written as int)
                        + bytes) by {
                        assert forall|j: int| 0 <= j < written implies buf@[j] == before[j] by {
                            assert(buf@.subrange(0, written as int)[j] == before.subrange(
                                0,
                                written as int,
                            )[j]);
                        }
                    }
                }
            }
            written += to_copy;
            total -= to_copy;
            current_offset += to_copy as u64;
        }
        Ok(written)
    }

    /// The volume is read-only.
    fn write_at<D: BlockDevice>(&self, device: &mut D, offset: u64, buf: &[u8]) -> (res: VfsResult<
        usize,
    >)
        ensures
            res == Err::<usize, VfsError>(VfsError::Unsupported),
            final(device).storage() == old(device).storage(),
    {
        let _ = offset;
        let _ = buf;
        Err(VfsError::Unsupported)
    }

    /// A file of the volume is only read: there is nothing to flush.
    fn flush<D: BlockDevice>(&self, device: &mut D) -> (res: VfsResult<()>)
        ensures
            res is Ok,
            *final(device) == *old(device),
    {
        Ok(())
    }

    fn size<D: BlockDevice>(&self, device: &D) -> (res: VfsResult<u64>)
        ensures
            res == Ok::<u64, VfsError>(self.size as u64),
    {
        Ok(self.size as u64)
    }
}

/// Mounts the volume at `start_lba` of `device`: its geometry is read from
/// the boot sector. Only a sector size other than 512 bytes, a layout that
/// does not fit, and a disk that cannot be read are refused. The volume can
/// be read where its clusters have at least one sector.
pub fn mount<D: BlockDevice>(device: &D, start_lba: u64) -> (res: Result<FatVolume, FatError>)
    ensures
        res matches Ok(volume) ==> volume.start_lba == start_lba && (volume.wf()
            <==> volume.sectors_per_cluster >= 1),
        device.storage() matches Some(storage) ==> res == spec_load(
            storage,
            device.spec_block_size(),
            start_lba,
        ),
{
    FatVolume::load(device, start_lba)
}

/// The file that opening `path` gives, on a device that holds `storage`.
/// A path that is empty once the slashes at its ends are taken off is
/// invalid; then a volume must be mounted; then the path must be a short
/// name, and the root directory must hold a file of that name.
pub open spec fn spec_open_file(
    volume: Option<FatVolume>,
    storage: Seq<u8>,
    block_size: usize,
    path: Seq<u8>,
) -> Result<FatFile, FatError> {
    if spec_trim_slashes(path).len() == 0 {
        Err(FatError::InvalidPath)
    } else {
        match volume {
            None => Err(FatError::NotMounted),
            Some(v) => match spec_format_short_name(path) {
                None => Err(FatError::InvalidPath),
                Some(short) => match v.spec_find(storage, block_size, short, 0, 0) {
                    Err(e) => Err(e),
                    Ok((start_cluster, size)) => Ok(FatFile { volume: v, start_cluster, size }),
                },
            },
        }
    }
}

/// Opens the file `path` of the mounted volume.
pub fn open_file<D: BlockDevice>(volume: &Option<FatVolume>, device: &D, path: &str) -> (res: Result<
    FatFile,
    FatError,
>)
    requires
        volume matches Some(v) ==> v.wf(),
    ensures
        res matches Ok(file) ==> file.wf() && Some(file.volume) == *volume,
        spec_trim_slashes(path.spec_bytes()).len() == 0 ==> res == Err::<FatFile, FatError>(
            FatError::InvalidPath,
        ),
        spec_trim_slashes(path.spec_bytes()).len() > 0 && *volume is None ==> res == Err::<
            FatFile,
            FatError,
        >(FatError::NotMounted),
        device.storage() matches Some(storage) ==> res == spec_open_file(
            *volume,
            storage,
            device.spec_block_size(),
            path.spec_bytes(),
        ),
{
    open_file_bytes(volume, device, path.as_bytes())
}

/// Opens the file with the path `path` of the mounted volume.
#[verifier::loop_isolation(false)]
pub fn open_file_bytes<D: BlockDevice>(volume: &Option<FatVolume>, device: &D, path: &[u8]) -> (res:
    Result<FatFile, FatError>)
    requires
        volume matches Some(v) ==> v.wf(),
    ensures
        res matches Ok(file) ==> file.wf() && Some(file.volume) == *volume,
        spec_trim_slashes(path@).len() == 0 ==> res == Err::<FatFile, FatError>(FatError::InvalidPath),
        spec_trim_slashes(path@).len() > 0 && *volume is None ==> res == Err::<FatFile, FatError>(
            FatError::NotMounted,
        ),
        spec_trim_slashes(path@).len() > 0 && *volume is Some && spec_format_short_name(path@)
            is None ==> res == Err::<FatFile, FatError>(FatError::InvalidPath),
        device.storage() matches Some(storage) ==> res == spec_open_file(
            *volume,
            storage,
            device.spec_block_size(),
            path@,
        ),
{
    let (start, end) = trim_slashes(path);
    if start >= end {
        return Err(FatError::InvalidPath);
    }
    let v = match volume {
        Some(v) => *v,
        None => { return Err(FatError::NotMounted); },
    };
    match v.find_root_file_bytes(device, path) {
        Ok((start_cluster, size)) => Ok(FatFile { volume: v, start_cluster, size }),
        Err(e) => Err(e),
    }
}

} // verus!
