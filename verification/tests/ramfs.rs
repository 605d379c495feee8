use rcore_kernel::fs::ramfs::{RamFS, RamFSInode};
use rcore_kernel::fs::vfs::interface::{FileSystem, FileType};

fn sample() -> (RamFS, u64, u64, u64, u64) {
    let (mut fs, root) = RamFS::new();
    let logo = RamFSInode::push_file(&mut fs, root, b"logo.txt".to_vec(), b"LOGO".to_vec());
    let r = RamFSInode::push_directory(&mut fs, root, b"root".to_vec());
    let test = RamFSInode::push_directory(&mut fs, root, b"test".to_vec());
    let t = RamFSInode::push_file(&mut fs, test, b"test.txt".to_vec(), b"test".to_vec());
    let _ = r;
    (fs, root, logo, test, t)
}

#[test]
fn numbers_are_handed_out_in_order() {
    let (mut fs, root) = RamFS::new();
    assert_eq!(root, 0);
    assert_eq!(fs.alloc_id(), 1);
    assert_eq!(fs.alloc_id(), 2);
    let d = RamFSInode::push_directory(&mut fs, root, b"d".to_vec());
    assert_eq!(d, 3);
    let f = RamFSInode::push_file(&mut fs, d, b"f".to_vec(), vec![1]);
    assert_eq!(f, 4);
    assert_eq!(fs.alloc_id(), 5);
}

#[test]
fn find_and_parent() {
    let (fs, root, logo, test, t) = sample();
    assert_eq!(fs.root_inode(), 0);
    assert_eq!(fs.find(root, &b"logo.txt".to_vec()), Some(logo));
    assert_eq!(fs.find(root, &b"test".to_vec()), Some(test));
    assert_eq!(fs.find(test, &b"test.txt".to_vec()), Some(t));
    assert_eq!(fs.find(root, &b"nothing".to_vec()), None);
    assert_eq!(fs.parent(test), Some(root));
    assert_eq!(fs.parent(root), None);
}

#[test]
fn listing_is_in_name_order() {
    let (fs, root, logo, test, _) = sample();
    let names: Vec<Vec<u8>> = fs.list(root).into_iter().map(|(n, _)| n).collect();
    assert_eq!(names, vec![b"logo.txt".to_vec(), b"root".to_vec(), b"test".to_vec()]);
    let e0 = fs.read_dir(root, 0).unwrap();
    assert_eq!(e0.name, b"logo.txt".to_vec());
    assert_eq!(e0.inode, logo);
    assert_eq!(e0.offset_cookie, 1);
    assert_eq!(e0.file_type, FileType::File);
    let e2 = fs.read_dir(root, 2).unwrap();
    assert_eq!(e2.inode, test);
    assert_eq!(e2.file_type, FileType::Directory);
    assert!(fs.read_dir(root, 3).is_none());
}

#[test]
fn metadata_of_files_and_directories() {
    let (fs, root, logo, _, _) = sample();
    let m = fs.metadata(logo);
    assert_eq!(m.file_type, FileType::File);
    assert_eq!(m.size, 4);
    let r = fs.metadata(root);
    assert_eq!(r.file_type, FileType::Directory);
    assert_eq!(r.size, 0);
    assert_eq!(fs.name(), "ramfs");
}

#[test]
fn read_write_and_resize_a_file() {
    let (mut fs, _, logo, _, _) = sample();
    let mut buf = vec![0u8; 2];
    fs.read_at(logo, 1, &mut buf);
    assert_eq!(buf, b"OG".to_vec());
    fs.write_at(logo, 2, &b"xy".to_vec());
    let mut all = vec![0u8; 4];
    fs.read_at(logo, 0, &mut all);
    assert_eq!(all, b"LOxy".to_vec());
    fs.resize(logo, 6);
    let mut grown = vec![9u8; 6];
    fs.read_at(logo, 0, &mut grown);
    assert_eq!(grown, b"LOxy\0\0".to_vec());
    fs.resize(logo, 1);
    assert_eq!(fs.metadata(logo).size, 1);
}
