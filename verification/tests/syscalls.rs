use rcore_kernel::arch::mm::PAGE_SIZE;
use rcore_kernel::arch::pte::MemoryPermission;
use rcore_kernel::error::SystemError;
use rcore_kernel::fs::file::{OpenFile, ProcessControlBlock};
use rcore_kernel::fs::ramfs::{RamFS, RamFSInode};
use rcore_kernel::fs::syscall::{
    dirent_reclen, sys_chdir, sys_close, sys_getcwd, sys_open, sys_read, sys_read_console, sys_readdir,
    sys_write, DirentWriter, SyscallOutcome,
};
use rcore_kernel::fs::file::ReadDirControl;
use rcore_kernel::fs::vfs::interface::{DirectoryEntry, FileSystem, FileType};
use rcore_kernel::fs::vfs::{MountTree, VirtualFileSystem};
use rcore_kernel::mm::mem_space::MemorySpace;

const BUF: usize = 2 * PAGE_SIZE;
const PATH: usize = PAGE_SIZE;

fn setup() -> (ProcessControlBlock, MountTree<RamFS>) {
    let (mut fs, root) = RamFS::new();
    RamFSInode::push_file(&mut fs, root, b"logo.txt".to_vec(), b"LOGO".to_vec());
    RamFSInode::push_directory(&mut fs, root, b"root".to_vec());
    let test = RamFSInode::push_directory(&mut fs, root, b"test".to_vec());
    RamFSInode::push_file(&mut fs, test, b"test.txt".to_vec(), b"test".to_vec());
    let mut tree = MountTree::new(VirtualFileSystem::new(fs));
    let cwd = tree.root();
    let mut ms = MemorySpace::new();
    let rwu = MemoryPermission::from_bits_truncate(
        MemoryPermission::READABLE | MemoryPermission::WRITABLE | MemoryPermission::USER_ACCESSIBLE,
    );
    ms.map_page(1, rwu);
    ms.map_page(2, rwu);
    ms.map_page(3, MemoryPermission::from_bits_truncate(MemoryPermission::READABLE));
    (ProcessControlBlock { fd_table: Vec::new(), cwd, memory_space: ms }, tree)
}

fn put_path(p: &mut ProcessControlBlock, addr: usize, s: &[u8]) {
    let mut v = s.to_vec();
    v.push(0);
    p.memory_space.copyout(addr, &v);
}

fn args(a: usize, b: usize, c: usize) -> [usize; 6] {
    [a, b, c, 0, 0, 0]
}

#[test]
fn open_read_close() {
    let (mut p, mut tree) = setup();
    put_path(&mut p, PATH, b"/test/test.txt");
    let fd = sys_open(&mut p, &mut tree, args(PATH, 0, 0)).unwrap();
    assert_eq!(fd, 0);
    match sys_read(&mut p, &mut tree, args(fd, BUF, 3)) {
        Ok(SyscallOutcome::Done(n)) => assert_eq!(n, 3),
        _ => panic!("read failed"),
    }
    let mut got = vec![0u8; 3];
    p.memory_space.copyin(BUF, &mut got);
    assert_eq!(got, b"tes".to_vec());
    match sys_read(&mut p, &mut tree, args(fd, BUF, 3)) {
        Ok(SyscallOutcome::Done(n)) => assert_eq!(n, 1),
        _ => panic!("read failed"),
    }
    assert_eq!(sys_close(&mut p, args(fd, 0, 0)), Ok(0));
    assert_eq!(sys_close(&mut p, args(fd, 0, 0)), Err(SystemError::EBADF));
    assert!(matches!(sys_read(&mut p, &mut tree, args(fd, BUF, 3)), Err(SystemError::EBADF)));
}

#[test]
fn read_of_zero_bytes_and_bad_descriptors() {
    let (mut p, mut tree) = setup();
    assert!(matches!(sys_read(&mut p, &mut tree, args(5, BUF, 0)), Ok(SyscallOutcome::Done(0))));
    assert!(matches!(sys_read(&mut p, &mut tree, args(5, BUF, 1)), Err(SystemError::EBADF)));
    assert!(matches!(sys_write(&mut p, &mut tree, args(5, BUF, 1)), Err(SystemError::EBADF)));
}

#[test]
fn console_descriptors() {
    let (mut p, mut tree) = setup();
    put_path(&mut p, PATH, b"stdin");
    assert_eq!(sys_open(&mut p, &mut tree, args(PATH, 0, 0)), Ok(0));
    put_path(&mut p, PATH, b"stdout");
    assert_eq!(sys_open(&mut p, &mut tree, args(PATH, 0, 0)), Ok(1));
    assert!(matches!(p.get_file(0), Some(OpenFile::Stdin(_))));
    assert!(matches!(p.get_file(1), Some(OpenFile::Stdout(_))));
    assert!(p.get_file(2).is_none());
    assert!(matches!(sys_read(&mut p, &mut tree, args(0, BUF, 4)), Ok(SyscallOutcome::ReadConsole(4))));
    assert_eq!(sys_read_console(&mut p, BUF, &b"abcd".to_vec()), Ok(4));
    let mut got = vec![0u8; 4];
    p.memory_space.copyin(BUF, &mut got);
    assert_eq!(got, b"abcd".to_vec());
    assert!(matches!(sys_read(&mut p, &mut tree, args(1, BUF, 4)), Err(SystemError::EBADF)));
    match sys_write(&mut p, &mut tree, args(1, BUF, 2)) {
        Ok(SyscallOutcome::WriteConsole(v)) => assert_eq!(v, b"ab".to_vec()),
        _ => panic!("write failed"),
    }
    assert!(matches!(sys_write(&mut p, &mut tree, args(0, BUF, 2)), Err(SystemError::EBADF)));
    assert!(matches!(sys_write(&mut p, &mut tree, args(1, 9 * PAGE_SIZE, 2)), Err(SystemError::EFAULT)));
}

#[test]
fn open_errors() {
    let (mut p, mut tree) = setup();
    put_path(&mut p, PATH, b"");
    assert_eq!(sys_open(&mut p, &mut tree, args(PATH, 0, 0)), Err(SystemError::EINVAL));
    put_path(&mut p, PATH, b"/missing");
    assert_eq!(sys_open(&mut p, &mut tree, args(PATH, 0, 0)), Err(SystemError::ENOENT));
    assert_eq!(sys_open(&mut p, &mut tree, args(9 * PAGE_SIZE, 0, 0)), Err(SystemError::EFAULT));
    assert_eq!(sys_open(&mut p, &mut tree, args(usize::MAX - 10, 0, 0)), Err(SystemError::EFAULT));
    p.memory_space.copyout(PATH, &vec![b'a'; 200]);
    assert_eq!(sys_open(&mut p, &mut tree, args(PATH, 0, 0)), Err(SystemError::ENAMETOOLONG));
}

#[test]
fn write_then_read_back_through_descriptors() {
    let (mut p, mut tree) = setup();
    put_path(&mut p, PATH, b"logo.txt");
    let w = sys_open(&mut p, &mut tree, args(PATH, 0, 0)).unwrap();
    let r = sys_open(&mut p, &mut tree, args(PATH, 0, 0)).unwrap();
    p.memory_space.copyout(BUF, &b"ab".to_vec());
    assert!(matches!(sys_write(&mut p, &mut tree, args(w, BUF, 2)), Ok(SyscallOutcome::Done(2))));
    assert!(matches!(sys_read(&mut p, &mut tree, args(r, BUF + 100, 4)), Ok(SyscallOutcome::Done(4))));
    let mut got = vec![0u8; 4];
    p.memory_space.copyin(BUF + 100, &mut got);
    assert_eq!(got, b"abGO".to_vec());
}

#[test]
fn reading_a_directory_fails() {
    let (mut p, mut tree) = setup();
    put_path(&mut p, PATH, b"test");
    let fd = sys_open(&mut p, &mut tree, args(PATH, 0, 0)).unwrap();
    assert!(matches!(sys_read(&mut p, &mut tree, args(fd, BUF, 4)), Err(SystemError::EISDIR)));
    assert!(matches!(sys_write(&mut p, &mut tree, args(fd, BUF, 4)), Err(SystemError::EISDIR)));
}

#[test]
fn chdir_and_getcwd() {
    let (mut p, mut tree) = setup();
    assert_eq!(sys_getcwd(&mut p, &mut tree, args(BUF, 64, 0)), Ok(BUF));
    let mut got = vec![9u8; 2];
    p.memory_space.copyin(BUF, &mut got);
    assert_eq!(got, b"/\0".to_vec());
    put_path(&mut p, PATH, b"test");
    assert_eq!(sys_chdir(&mut p, &mut tree, args(PATH, 0, 0)), Ok(0));
    assert_eq!(sys_getcwd(&mut p, &mut tree, args(BUF, 64, 0)), Ok(BUF));
    let mut got2 = vec![9u8; 6];
    p.memory_space.copyin(BUF, &mut got2);
    assert_eq!(got2, b"/test\0".to_vec());
    assert_eq!(sys_getcwd(&mut p, &mut tree, args(BUF, 5, 0)), Err(SystemError::ERANGE));
    assert_eq!(sys_getcwd(&mut p, &mut tree, args(BUF, 0, 0)), Err(SystemError::EINVAL));
    assert_eq!(sys_getcwd(&mut p, &mut tree, args(9 * PAGE_SIZE, 64, 0)), Err(SystemError::EFAULT));
    // a relative open now starts from /test
    put_path(&mut p, PATH, b"test.txt");
    assert!(sys_open(&mut p, &mut tree, args(PATH, 0, 0)).is_ok());
}

#[test]
fn chdir_errors() {
    let (mut p, mut tree) = setup();
    put_path(&mut p, PATH, b"logo.txt");
    assert_eq!(sys_chdir(&mut p, &mut tree, args(PATH, 0, 0)), Err(SystemError::ENOTDIR));
    put_path(&mut p, PATH, b"nope");
    assert_eq!(sys_chdir(&mut p, &mut tree, args(PATH, 0, 0)), Err(SystemError::ENOENT));
    put_path(&mut p, PATH, b"");
    assert_eq!(sys_chdir(&mut p, &mut tree, args(PATH, 0, 0)), Err(SystemError::EINVAL));
    // page 3 is mapped readable but not user-accessible
    put_path(&mut p, 3 * PAGE_SIZE, b"test");
    assert_eq!(sys_chdir(&mut p, &mut tree, args(3 * PAGE_SIZE, 0, 0)), Err(SystemError::EFAULT));
}

#[test]
fn readdir_is_not_supported_by_open_files() {
    let (mut p, mut tree) = setup();
    assert_eq!(sys_readdir(&mut p, args(0, BUF, 10)), Err(SystemError::EINVAL));
    assert_eq!(sys_readdir(&mut p, args(0, BUF, 64)), Err(SystemError::EBADF));
    put_path(&mut p, PATH, b"test");
    let fd = sys_open(&mut p, &mut tree, args(PATH, 0, 0)).unwrap();
    assert_eq!(sys_readdir(&mut p, args(fd, BUF, 64)), Err(SystemError::ENOTDIR));
}

#[test]
fn dirent_lengths() {
    assert_eq!(dirent_reclen(1), 24);
    assert_eq!(dirent_reclen(4), 24);
    assert_eq!(dirent_reclen(5), 32);
    assert_eq!(dirent_reclen(0), 24);
}

#[test]
fn dirent_records_are_packed() {
    let mut w = DirentWriter::new(40);
    let e = DirectoryEntry { name: b"abc".to_vec(), offset_cookie: 1, inode: 0x0102, file_type: FileType::File };
    assert_eq!(w.push_entry(&e), ReadDirControl::Continue);
    assert_eq!(w.pos, 24);
    assert_eq!(&w.buf[0..8], &[2, 1, 0, 0, 0, 0, 0, 0]);
    assert_eq!(&w.buf[8..16], &[1, 0, 0, 0, 0, 0, 0, 0]);
    assert_eq!(&w.buf[16..18], &[24, 0]);
    assert_eq!(w.buf[18], 8);
    assert_eq!(&w.buf[19..23], b"abc\0");
    let d = DirectoryEntry { name: b"dir".to_vec(), offset_cookie: 2, inode: 5, file_type: FileType::Directory };
    assert_eq!(w.push_entry(&d), ReadDirControl::StopWithBackroll);
    assert!(!w.too_small);
    let mut small = DirentWriter::new(20);
    assert_eq!(small.push_entry(&d), ReadDirControl::StopWithBackroll);
    assert!(small.too_small);
}

#[test]
fn written_files_reach_the_file_system_on_sync() {
    let (mut p, mut tree) = setup();
    put_path(&mut p, PATH, b"logo.txt");
    let fd = sys_open(&mut p, &mut tree, args(PATH, 0, 0)).unwrap();
    p.memory_space.copyout(BUF, &b"xyzw!".to_vec());
    assert!(matches!(sys_write(&mut p, &mut tree, args(fd, BUF, 5)), Ok(SyscallOutcome::Done(4))));
    let node = match p.get_file(fd as u64) {
        Some(OpenFile::Virtual(vf)) => vf.inode,
        _ => panic!("not a file"),
    };
    node.sync(&mut tree.filesystems[0]);
    let mut under = vec![0u8; 4];
    tree.filesystems[0].inner_fs.read_at(node.id, 0, &mut under);
    assert_eq!(under, b"xyzw".to_vec());
}
