use rcore_kernel::fs::block_device::{BlockDevice, RamDisk};
use rcore_kernel::fs::ext2::fs::{Ext2Error, FileSystem};
use rcore_kernel::fs::vfs::interface::FileType;

fn put_u32(img: &mut [u8], at: usize, v: u32) {
    img[at..at + 4].copy_from_slice(&v.to_le_bytes());
}

fn put_u16(img: &mut [u8], at: usize, v: u16) {
    img[at..at + 2].copy_from_slice(&v.to_le_bytes());
}

fn dir_entry(img: &mut [u8], at: usize, inode: u32, rec_len: u16, name: &[u8], file_type: u8) {
    put_u32(img, at, inode);
    put_u16(img, at + 4, rec_len);
    img[at + 6] = name.len() as u8;
    img[at + 7] = file_type;
    img[at + 8..at + 8 + name.len()].copy_from_slice(name);
}

/// A 16 KiB ext2 image with 1 KiB blocks: the root directory holds `hello`, a file of 5 bytes.
fn image() -> Vec<u8> {
    let mut img = vec![0u8; 16 * 1024];
    let sb = 1024;
    put_u32(&mut img, sb, 16); // inodes
    put_u32(&mut img, sb + 4, 16); // blocks
    put_u32(&mut img, sb + 24, 0); // 1 KiB blocks
    put_u32(&mut img, sb + 32, 16); // blocks per group
    put_u32(&mut img, sb + 40, 16); // inodes per group
    put_u16(&mut img, sb + 56, 0xEF53);
    put_u16(&mut img, sb + 88, 128);
    put_u32(&mut img, 2048 + 8, 4); // inode table at block 4
    let root = 4096 + 128;
    put_u16(&mut img, root, 0x41ED);
    put_u32(&mut img, root + 4, 1024);
    put_u32(&mut img, root + 40, 8);
    let file = 4096 + 11 * 128;
    put_u16(&mut img, file, 0x81A4);
    put_u32(&mut img, file + 4, 5);
    put_u32(&mut img, file + 40, 9);
    dir_entry(&mut img, 8192, 2, 12, b".", 2);
    dir_entry(&mut img, 8192 + 12, 2, 12, b"..", 2);
    dir_entry(&mut img, 8192 + 24, 12, 1000, b"hello", 1);
    img[9216..9221].copy_from_slice(b"world");
    img
}

#[test]
fn ext2_lookup_and_read() {
    let disk = RamDisk::new(1024, image()).unwrap();
    assert_eq!(FileSystem::check(&disk), None);
    let fs = FileSystem::new(disk);
    assert_eq!(fs.block_size(), 1024);
    assert_eq!(fs.name(), "ext2");
    let root = fs.get_inode(fs.root_inode()).ok().unwrap();
    assert_eq!(root.id(), 2);
    assert_eq!(root.metadata().ok().unwrap().file_type, FileType::Directory);
    assert_eq!(root.find(&fs, &b"hello".to_vec()).ok().unwrap(), Some(12));
    assert_eq!(root.find(&fs, &b"nope".to_vec()).ok().unwrap(), None);
    assert_eq!(root.parent(&fs).ok().unwrap(), None);
    let file = fs.get_inode(12).ok().unwrap();
    assert_eq!(file.size(), 5);
    assert_eq!(file.metadata().ok().unwrap().file_type, FileType::File);
    let mut buf = vec![0u8; 5];
    assert!(file.read_at(&fs, 0, &mut buf).is_ok());
    assert_eq!(buf, b"world".to_vec());
    assert_eq!(file.map_logical_block(&fs, 0).ok().unwrap(), 9);
    let e = root.read_dir(&fs, 0).ok().unwrap().unwrap();
    assert_eq!(e.name, b".".to_vec());
    assert_eq!(e.offset_cookie, 12);
    let g = fs.read_group_desc(0).ok().unwrap();
    assert_eq!(g.inode_table, 4);
    assert!(matches!(fs.get_inode(0), Err(Ext2Error::InvalidInode)));
}

#[test]
fn ext2_refuses_bad_superblocks() {
    let small = RamDisk::new(1024, vec![0u8; 1024]).unwrap();
    assert_eq!(FileSystem::check(&small), Some(Ext2Error::DeviceTooSmall));
    let zeros = RamDisk::new(1024, vec![0u8; 4096]).unwrap();
    assert_eq!(FileSystem::check(&zeros), Some(Ext2Error::BadMagic(0)));
    let mut img = image();
    img[1024 + 88] = 0;
    img[1024 + 89] = 1;
    let bad_inode = RamDisk::new(1024, img).unwrap();
    assert_eq!(FileSystem::check(&bad_inode), Some(Ext2Error::BadInodeSize(256)));
    let mut img2 = image();
    img2[1024 + 40] = 8;
    let mismatch = RamDisk::new(1024, img2).unwrap();
    assert_eq!(FileSystem::check(&mismatch), Some(Ext2Error::GroupCountMismatch(1, 2)));
    let mut img3 = image();
    img3[1024 + 32] = 0;
    let empty = RamDisk::new(1024, img3).unwrap();
    assert_eq!(FileSystem::check(&empty), Some(Ext2Error::EmptyGroup));
    let mut img4 = image();
    img4[1024 + 24] = 22;
    let huge = RamDisk::new(1024, img4).unwrap();
    assert_eq!(FileSystem::check(&huge), Some(Ext2Error::BadBlockSize(22)));
}

#[test]
fn ext2_mounts_large_block_sizes() {
    // 128 KiB and 2 GiB blocks: the block group descriptors would start at block 1
    for (log, size) in [(7u8, 128 * 1024usize), (21u8, 0x8000_0000usize)] {
        let mut img = image();
        img[1024 + 24] = log;
        let disk = RamDisk::new(1024, img).unwrap();
        assert_eq!(FileSystem::check(&disk), None);
        let fs = FileSystem::new(disk);
        assert_eq!(fs.block_size(), size);
        // the descriptor table lies past the end of this small image
        assert!(matches!(fs.read_group_desc(0), Err(Ext2Error::OutOfRange)));
    }
}

#[test]
fn ram_disk_reads_what_was_written() {
    let mut disk = RamDisk::new(512, vec![0u8; 2048]).unwrap();
    assert!(RamDisk::new(512, vec![0u8; 100]).is_none());
    assert_eq!(disk.capacity(), 2048);
    let data: Vec<u8> = (0..700u32).map(|i| (i % 251) as u8).collect();
    disk.write_at(300, &data);
    let mut back = vec![0u8; 700];
    disk.read_at(300, &mut back);
    assert_eq!(back, data);
    let mut edge = vec![1u8; 1];
    disk.read_at(299, &mut edge);
    assert_eq!(edge, vec![0u8]);
    disk.read_at(1000, &mut edge);
    assert_eq!(edge, vec![0u8]);
}
