use ares::drivers::mock::MemBlockDevice;
use ares::fs::fat::{self, FatError, FatVolume};
use ares::vfs::{VfsError, VfsFile};

const SECTOR_SIZE: usize = 512;

fn write_bpb(image: &mut [u8]) {
    let bpb = &mut image[0..SECTOR_SIZE];
    bpb[11..13].copy_from_slice(&(SECTOR_SIZE as u16).to_le_bytes());
    bpb[13] = 1;
    bpb[14..16].copy_from_slice(&(1u16).to_le_bytes());
    bpb[16] = 1;
    bpb[17..19].copy_from_slice(&(16u16).to_le_bytes());
    bpb[21] = 0xF8;
    bpb[22..24].copy_from_slice(&(1u16).to_le_bytes());
    bpb[24..26].copy_from_slice(&(1u16).to_le_bytes());
    bpb[26..28].copy_from_slice(&(1u16).to_le_bytes());
    bpb[510] = 0x55;
    bpb[511] = 0xAA;
}

fn fat_image_with_hello() -> Vec<u8> {
    let mut image = vec![0u8; SECTOR_SIZE * 10];
    write_bpb(&mut image);

    {
        let fat = &mut image[SECTOR_SIZE..SECTOR_SIZE * 2];
        fat[0] = 0xF8;
        fat[1] = 0xFF;
        fat[2] = 0xFF;
        fat[3] = 0xFF;
    }

    {
        let root = &mut image[SECTOR_SIZE * 2..SECTOR_SIZE * 3];
        root[0..11].copy_from_slice(b"HELLO   TXT");
        root[11] = 0x20;
        root[26..28].copy_from_slice(&(2u16).to_le_bytes());
        root[28..32].copy_from_slice(&(5u32).to_le_bytes());
    }

    {
        let data = &mut image[SECTOR_SIZE * 3..SECTOR_SIZE * 4];
        data[..5].copy_from_slice(b"Hello");
    }

    image
}

fn fat_image_with_large_file() -> Vec<u8> {
    let mut image = vec![0u8; SECTOR_SIZE * 12];
    write_bpb(&mut image);

    {
        let fat = &mut image[SECTOR_SIZE..SECTOR_SIZE * 2];
        fat[0] = 0xF8;
        fat[1] = 0xFF;
        fat[2] = 0xFF;
        fat[3] = 0xFF;
        let cluster2 = 2 * 2;
        fat[cluster2..cluster2 + 2].copy_from_slice(&0xFFFFu16.to_le_bytes());
        let cluster3 = 3 * 2;
        fat[cluster3..cluster3 + 2].copy_from_slice(&4u16.to_le_bytes());
        let cluster4 = 4 * 2;
        fat[cluster4..cluster4 + 2].copy_from_slice(&0xFFFFu16.to_le_bytes());
    }

    {
        let root = &mut image[SECTOR_SIZE * 2..SECTOR_SIZE * 3];
        root[0..11].copy_from_slice(b"HELLO   TXT");
        root[11] = 0x20;
        root[26..28].copy_from_slice(&(2u16).to_le_bytes());
        root[28..32].copy_from_slice(&(5u32).to_le_bytes());

        let entry = &mut root[32..64];
        entry[0..11].copy_from_slice(b"BIGFILE TXT");
        entry[11] = 0x20;
        entry[26..28].copy_from_slice(&(3u16).to_le_bytes());
        entry[28..32].copy_from_slice(&(600u32).to_le_bytes());
    }

    {
        let cluster2 = &mut image[SECTOR_SIZE * 3..SECTOR_SIZE * 4];
        cluster2.fill(0);
        cluster2[..5].copy_from_slice(b"Hello");
        let cluster3 = &mut image[SECTOR_SIZE * 4..SECTOR_SIZE * 5];
        cluster3.fill(b'A');
        let cluster4 = &mut image[SECTOR_SIZE * 5..SECTOR_SIZE * 6];
        cluster4.fill(b'B');
    }

    image
}

fn mounted(image: Vec<u8>) -> (MemBlockDevice, Option<FatVolume>) {
    let dev = MemBlockDevice::new("mem-fat", image, SECTOR_SIZE);
    let volume = fat::mount(&dev, 0).expect("mount");
    (dev, Some(volume))
}

#[test]
fn short_name_conversion() {
    let short = fat::format_short_name("HELLO.TXT").unwrap();
    assert_eq!(&short, b"HELLO   TXT");
    assert!(fat::format_short_name("too_long_name.ext").is_none());
}

#[test]
fn open_and_read_file() {
    let (dev, volume) = mounted(fat_image_with_hello());
    let file = fat::open_file(&volume, &dev, "HELLO.TXT").expect("open");
    let mut buf = [0u8; 8];
    let read = file.read_at(&dev, 0, &mut buf).expect("read");
    assert_eq!(read, 5);
    assert_eq!(&buf[..5], b"Hello");
}

#[test]
fn missing_file_errors() {
    let (dev, volume) = mounted(fat_image_with_hello());
    let result = fat::open_file(&volume, &dev, "MISSING.TXT");
    assert!(matches!(result, Err(FatError::NotFound)));
}

#[test]
fn read_beyond_end_returns_zero() {
    let (dev, volume) = mounted(fat_image_with_hello());
    let file = fat::open_file(&volume, &dev, "HELLO.TXT").expect("open");
    let mut buf = [0u8; 32];
    let count = file.read_at(&dev, 0, &mut buf).expect("read");
    assert_eq!(count, 5);
    let count = file.read_at(&dev, 100, &mut buf).expect("read past end");
    assert_eq!(count, 0);
}

#[test]
fn multi_cluster_read() {
    let (dev, volume) = mounted(fat_image_with_large_file());
    let file = fat::open_file(&volume, &dev, "BIGFILE.TXT").expect("open");
    let mut buf = [0u8; 700];
    let count = file.read_at(&dev, 0, &mut buf).expect("read");
    assert_eq!(count, 600);
    assert!(buf[..512].iter().all(|&b| b == b'A'));
    assert!(buf[512..600].iter().all(|&b| b == b'B'));
}

#[test]
fn large_buffer_partial_read() {
    let (dev, volume) = mounted(fat_image_with_large_file());
    let file = fat::open_file(&volume, &dev, "BIGFILE.TXT").expect("open");
    let mut buf = [0u8; 256];
    let count = file.read_at(&dev, 256, &mut buf).expect("read slice");
    assert_eq!(count, 256);
    assert!(buf[..count].iter().all(|&b| b == b'A'));
}

#[test]
fn fat_read_round_trip_on_canonical_image() {
    let (dev, volume) = mounted(fat_image_with_hello());
    let file = fat::open_file(&volume, &dev, "/HELLO.TXT").expect("open");
    let mut buf = [0u8; 32];
    assert_eq!(file.read_at(&dev, 0, &mut buf).unwrap(), 5);
    assert_eq!(&buf[..5], b"Hello");
    assert_eq!(file.read_at(&dev, 1024, &mut buf).unwrap(), 0);
    assert_eq!(file.size(&dev).unwrap(), 5);
}

#[test]
fn read_across_the_cluster_boundary() {
    let (dev, volume) = mounted(fat_image_with_large_file());
    let file = fat::open_file(&volume, &dev, "bigfile.txt").expect("open");
    let mut buf = [0u8; 4];
    assert_eq!(file.read_at(&dev, 510, &mut buf).unwrap(), 4);
    assert_eq!(&buf, b"AABB");
    let mut tail = [0u8; 16];
    assert_eq!(file.read_at(&dev, 596, &mut tail).unwrap(), 4);
    assert_eq!(&tail[..4], b"BBBB");
}

#[test]
fn fat_files_are_read_only() {
    let (mut dev, volume) = mounted(fat_image_with_hello());
    let file = fat::open_file(&volume, &dev, "HELLO.TXT").expect("open");
    assert_eq!(file.write_at(&mut dev, 0, b"x").unwrap_err(), VfsError::Unsupported);
    assert!(file.flush(&mut dev).is_ok());
    assert_eq!(file.name(), "fat-file");
}

#[test]
fn short_names_fold_case_and_pad() {
    assert_eq!(&fat::format_short_name("hello.txt").unwrap(), b"HELLO   TXT");
    assert_eq!(&fat::format_short_name("/a_1").unwrap(), b"A_1        ");
    assert_eq!(&fat::format_short_name("//KERNEL.B//").unwrap(), b"KERNEL  B  ");
    assert_eq!(&fat::format_short_name("12345678.123").unwrap(), b"12345678123");
    assert_eq!(&fat::format_short_name("name.").unwrap(), b"NAME       ");
}

#[test]
fn short_names_refuse_what_has_no_place() {
    assert!(fat::format_short_name("").is_none());
    assert!(fat::format_short_name("///").is_none());
    assert!(fat::format_short_name("a/b").is_none());
    assert!(fat::format_short_name("a.b.c").is_none());
    assert!(fat::format_short_name(".txt").is_none());
    assert!(fat::format_short_name("123456789").is_none());
    assert!(fat::format_short_name("a.1234").is_none());
    assert!(fat::format_short_name("a-b").is_none());
    assert!(fat::format_short_name("sp ace").is_none());
    assert!(fat::format_short_name("\u{e9}").is_none());
}

#[test]
fn open_needs_a_volume_and_a_name() {
    let dev = MemBlockDevice::new("mem-fat", fat_image_with_hello(), SECTOR_SIZE);
    assert!(matches!(fat::open_file(&None, &dev, "HELLO.TXT"), Err(FatError::NotMounted)));
    assert!(matches!(fat::open_file(&None, &dev, "/"), Err(FatError::InvalidPath)));
    let volume = Some(fat::mount(&dev, 0).unwrap());
    assert!(matches!(fat::open_file(&volume, &dev, "bad name"), Err(FatError::InvalidPath)));
}

#[test]
fn mount_refuses_other_sector_sizes() {
    let mut image = fat_image_with_hello();
    image[11..13].copy_from_slice(&(1024u16).to_le_bytes());
    let dev = MemBlockDevice::new("mem-fat", image, SECTOR_SIZE);
    assert!(matches!(fat::mount(&dev, 0), Err(FatError::Io)));
    let dev = MemBlockDevice::new("mem-fat", fat_image_with_hello(), SECTOR_SIZE);
    assert!(matches!(fat::mount(&dev, 99), Err(FatError::Io)));
}

#[test]
fn mount_works_out_the_geometry() {
    let dev = MemBlockDevice::new("mem-fat", fat_image_with_hello(), SECTOR_SIZE);
    let volume = fat::mount(&dev, 0).unwrap();
    assert_eq!(volume.fat_lba, 1);
    assert_eq!(volume.root_dir_lba, 2);
    assert_eq!(volume.root_dir_sectors, 1);
    assert_eq!(volume.data_lba, 3);
    assert_eq!(volume.bytes_per_cluster, 512);
    assert_eq!(volume.cluster_to_lba(2), Some(3));
    assert_eq!(volume.cluster_to_lba(4), Some(5));
    assert_eq!(volume.cluster_to_lba(1), None);
}

#[test]
fn directory_skips_deleted_labels_and_long_names() {
    let mut image = fat_image_with_large_file();
    {
        let root = &mut image[SECTOR_SIZE * 2..SECTOR_SIZE * 3];
        root.copy_within(0..64, 96);
        root[0] = 0xE5;
        root[32..43].copy_from_slice(b"BIGFILE TXT");
        root[43] = 0x08;
        root[64..75].copy_from_slice(b"HELLO   TXT");
        root[75] = 0x0F;
    }
    let (dev, volume) = mounted(image);
    let file = fat::open_file(&volume, &dev, "BIGFILE.TXT").expect("open");
    assert_eq!(file.size, 600);
    assert_eq!(file.start_cluster, 3);
    let file = fat::open_file(&volume, &dev, "HELLO.TXT").expect("open");
    assert_eq!(file.size, 5);
}
