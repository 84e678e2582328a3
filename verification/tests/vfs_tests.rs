use ares::drivers::mock::MemBlockDevice;
use ares::drivers::BlockDevice;
use ares::vfs::ata::AtaScratchFile;
use ares::vfs::{VfsError, VfsFile};

const BLOCK_SIZE: usize = 512;

fn fresh_device() -> MemBlockDevice {
    let data = vec![0u8; BLOCK_SIZE * 4];
    MemBlockDevice::new("scratch", data, BLOCK_SIZE)
}

#[test]
fn scratch_read_write_roundtrip() {
    let mut dev = fresh_device();
    let file = AtaScratchFile::init(0, "scratch").unwrap();

    let payload = b"kernel";
    assert_eq!(file.write_at(&mut dev, 0, payload).unwrap(), payload.len());

    let mut buf = [0u8; 6];
    assert_eq!(file.read_at(&dev, 0, &mut buf).unwrap(), payload.len());
    assert_eq!(&buf, payload);

    assert_eq!(file.size(&dev).unwrap(), BLOCK_SIZE as u64);
}

#[test]
fn scratch_bounds_checks() {
    let mut dev = fresh_device();
    let file = AtaScratchFile::init(0, "scratch").unwrap();

    let mut single = [0u8; 1];
    let err = file.read_at(&dev, BLOCK_SIZE as u64, &mut single).unwrap_err();
    assert_eq!(err, VfsError::InvalidOffset);

    let err = file.write_at(&mut dev, BLOCK_SIZE as u64, &single).unwrap_err();
    assert_eq!(err, VfsError::InvalidOffset);
}

#[test]
fn scratch_overlapping_writes() {
    let mut dev = fresh_device();
    let file = AtaScratchFile::init(0, "scratch").unwrap();

    file.write_at(&mut dev, 100, b"abcdef").unwrap();
    file.write_at(&mut dev, 102, b"XYZ").unwrap();

    let mut buf = [0u8; 6];
    file.read_at(&dev, 100, &mut buf).unwrap();
    assert_eq!(&buf, b"abXYZf");

    let mut disk = [0u8; BLOCK_SIZE];
    dev.read_blocks(0, &mut disk).unwrap();
    assert_eq!(&disk[100..106], b"abXYZf");
}

#[test]
fn scratch_rejects_large_write() {
    let mut dev = fresh_device();
    let file = AtaScratchFile::init(0, "scratch").unwrap();

    let buf = [0u8; BLOCK_SIZE + 16];
    let err = file.write_at(&mut dev, 0, &buf).unwrap_err();
    assert_eq!(err, VfsError::Unsupported);
}

#[test]
fn scratch_seek_write_within_sector() {
    let mut dev = fresh_device();
    let file = AtaScratchFile::init(0, "scratch").unwrap();

    file.write_at(&mut dev, 10, b"abc").unwrap();

    let mut buf = [0u8; 3];
    file.read_at(&dev, 10, &mut buf).unwrap();
    assert_eq!(&buf, b"abc");

    let mut whole = [0u8; BLOCK_SIZE];
    dev.read_blocks(0, &mut whole).unwrap();
    assert_eq!(&whole[10..13], b"abc");
}

#[test]
fn scratch_overflow_is_unsupported() {
    let mut dev = fresh_device();
    let file = AtaScratchFile::init(0, "scratch").unwrap();

    let big = [0u8; BLOCK_SIZE + 1];
    let err = file.write_at(&mut dev, 0, &big).unwrap_err();
    assert_eq!(err, VfsError::Unsupported);
}

#[test]
fn scratch_stress() {
    let mut dev = fresh_device();
    let file = AtaScratchFile::init(0, "scratch").unwrap();
    let mut buf = [0u8; 32];
    for i in 0..256u64 {
        let pattern = [i as u8; 32];
        let offset = i * 7 % (BLOCK_SIZE as u64 - pattern.len() as u64);
        file.write_at(&mut dev, offset, &pattern).unwrap();
        buf.fill(0);
        file.read_at(&dev, offset, &mut buf).unwrap();
        assert_eq!(buf, pattern);
    }
}

#[test]
fn scratch_second_sector_leaves_first_alone() {
    let mut dev = fresh_device();
    let first = AtaScratchFile::new(0, "first");
    let second = AtaScratchFile::new(1, "second");
    first.write_at(&mut dev, 0, b"one").unwrap();
    second.write_at(&mut dev, 0, b"two").unwrap();
    let mut buf = [0u8; 3];
    first.read_at(&dev, 0, &mut buf).unwrap();
    assert_eq!(&buf, b"one");
    second.read_at(&dev, 0, &mut buf).unwrap();
    assert_eq!(&buf, b"two");
    assert_eq!(&dev.data[512..515], b"two");
}

#[test]
fn scratch_on_missing_sector_is_io() {
    let mut dev = fresh_device();
    let file = AtaScratchFile::new(4, "beyond");
    let mut buf = [0u8; 3];
    assert_eq!(file.read_at(&dev, 0, &mut buf).unwrap_err(), VfsError::Io);
    assert_eq!(file.write_at(&mut dev, 0, b"abc").unwrap_err(), VfsError::Io);
}

#[test]
fn scratch_empty_access_does_nothing() {
    let mut dev = fresh_device();
    let file = AtaScratchFile::new(0, "scratch");
    let mut none = [0u8; 0];
    assert_eq!(file.read_at(&dev, 9999, &mut none).unwrap(), 0);
    assert_eq!(file.write_at(&mut dev, 9999, &none).unwrap(), 0);
}

#[test]
fn scratch_oversized_sector_is_unsupported() {
    let mut dev = MemBlockDevice::new("big", vec![0u8; 2048], 1024);
    let file = AtaScratchFile::new(0, "scratch");
    let mut buf = [0u8; 4];
    assert_eq!(file.read_at(&dev, 0, &mut buf).unwrap_err(), VfsError::Unsupported);
    assert_eq!(file.write_at(&mut dev, 0, &buf).unwrap_err(), VfsError::Unsupported);
    assert_eq!(file.size(&dev).unwrap_err(), VfsError::Unsupported);
}

#[test]
fn mem_block_device_checks_ranges() {
    let mut dev = fresh_device();
    let mut odd = [0u8; 100];
    assert_eq!(
        dev.read_blocks(0, &mut odd).unwrap_err(),
        ares::drivers::DriverError::Unsupported
    );
    let mut sector = [0u8; BLOCK_SIZE];
    assert_eq!(
        dev.read_blocks(4, &mut sector).unwrap_err(),
        ares::drivers::DriverError::IoError
    );
    assert_eq!(
        dev.write_blocks(u64::MAX, &sector).unwrap_err(),
        ares::drivers::DriverError::IoError
    );
    sector[0] = 7;
    dev.write_blocks(3, &sector).unwrap();
    assert_eq!(dev.data[3 * BLOCK_SIZE], 7);
    assert!(dev.flush().is_ok());
    assert_eq!(dev.block_size(), BLOCK_SIZE);
}
