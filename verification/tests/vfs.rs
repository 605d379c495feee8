use rcore_kernel::fs::ramfs::{RamFS, RamFSInode};
use rcore_kernel::fs::vfs::file::{FileSeekMethod, VirtualFile};
use rcore_kernel::fs::vfs::inode_cache::DropAction;
use rcore_kernel::fs::vfs::interface::{FileSystem, FileType};
use rcore_kernel::fs::vfs::mount::lookup;
use rcore_kernel::fs::vfs::page_cache::PageCache;
use rcore_kernel::fs::vfs::{MountTree, VirtualFileSystem, VirtualIndexNode};
use rcore_kernel::error::SystemError;

struct Ids {
    root: u64,
    logo: u64,
    rootdir: u64,
    test: u64,
    t: u64,
}

fn sample_fs() -> (RamFS, Ids) {
    let (mut fs, root) = RamFS::new();
    let logo = RamFSInode::push_file(&mut fs, root, b"logo.txt".to_vec(), b"LOGO".to_vec());
    let rootdir = RamFSInode::push_directory(&mut fs, root, b"root".to_vec());
    let test = RamFSInode::push_directory(&mut fs, root, b"test".to_vec());
    let t = RamFSInode::push_file(&mut fs, test, b"test.txt".to_vec(), b"test".to_vec());
    (fs, Ids { root, logo, rootdir, test, t })
}

fn sample_tree() -> (MountTree<RamFS>, Ids) {
    let (fs, ids) = sample_fs();
    (MountTree::new(VirtualFileSystem::new(fs)), ids)
}

#[test]
fn lookup_absolute_and_relative_paths() {
    let (mut tree, ids) = sample_tree();
    let root = tree.root();
    assert_eq!(root, VirtualIndexNode { fs: 0, id: ids.root, weak: false });
    let n = lookup(&mut tree, root, &b"/test/test.txt".to_vec()).unwrap();
    assert_eq!(n.id, ids.t);
    let n2 = lookup(&mut tree, root, &b"test/../logo.txt".to_vec()).unwrap();
    assert_eq!(n2.id, ids.logo);
    let n3 = lookup(&mut tree, root, &b"./test//./test.txt".to_vec()).unwrap();
    assert_eq!(n3.id, ids.t);
    let test = lookup(&mut tree, root, &b"test".to_vec()).unwrap();
    let back = lookup(&mut tree, test, &b"..".to_vec()).unwrap();
    assert_eq!(back.id, ids.root);
    let same = lookup(&mut tree, test, &b"".to_vec()).unwrap();
    assert_eq!(same.id, ids.test);
}

#[test]
fn lookup_failures() {
    let (mut tree, _) = sample_tree();
    let root = tree.root();
    assert!(lookup(&mut tree, root, &b"/nothing".to_vec()).is_none());
    assert!(lookup(&mut tree, root, &b"/..".to_vec()).is_none());
    assert!(lookup(&mut tree, root, &b"logo.txt/x".to_vec()).is_none());
}

#[test]
fn find_parent_and_dir_name() {
    let (mut tree, ids) = sample_tree();
    let root = tree.root();
    let test = root.find(&mut tree, &b"test".to_vec()).unwrap();
    assert_eq!(test.id, ids.test);
    assert_eq!(test.parent(&mut tree).map(|n| n.id), Some(ids.root));
    assert!(root.parent(&mut tree).is_none());
    assert_eq!(test.dir_name(&mut tree), Some(b"test".to_vec()));
    assert_eq!(root.dir_name(&mut tree), None);
    assert_eq!(test.fs(), 0);
    let meta = test.metadata(&tree.filesystems[0]);
    assert_eq!(meta.file_type, FileType::Directory);
    let names: Vec<Vec<u8>> = root.list(&tree.filesystems[0]).into_iter().map(|(n, _)| n).collect();
    assert_eq!(names, vec![b"logo.txt".to_vec(), b"root".to_vec(), b"test".to_vec()]);
}

#[test]
fn mount_points_are_crossed_both_ways() {
    let (mut tree, ids) = sample_tree();
    let root = tree.root();
    let mnt = root.find(&mut tree, &b"root".to_vec()).unwrap();
    assert_eq!(mnt.id, ids.rootdir);
    let (mut inner, iroot) = RamFS::new();
    let hello = RamFSInode::push_file(&mut inner, iroot, b"hello".to_vec(), b"hi".to_vec());
    mnt.mount(&mut tree, VirtualFileSystem::new(inner));
    assert_eq!(tree.filesystems.len(), 2);
    let into = root.find(&mut tree, &b"root".to_vec()).unwrap();
    assert_eq!(into, VirtualIndexNode { fs: 1, id: iroot, weak: false });
    let h = lookup(&mut tree, root, &b"/root/hello".to_vec()).unwrap();
    assert_eq!(h, VirtualIndexNode { fs: 1, id: hello, weak: false });
    // at the root of the mounted file system, `..` leads above the mount point
    let up = into.parent(&mut tree).unwrap();
    assert_eq!(up, VirtualIndexNode { fs: 0, id: ids.root, weak: false });
    assert_eq!(into.dir_name(&mut tree), Some(b"root".to_vec()));
    let back = lookup(&mut tree, into, &b"../test".to_vec()).unwrap();
    assert_eq!(back.id, ids.test);
}

#[test]
fn page_cache_read_after_write_and_sync() {
    let (mut tree, ids) = sample_tree();
    let root = tree.root();
    let t = lookup(&mut tree, root, &b"/test/test.txt".to_vec()).unwrap();
    let vfs = &mut tree.filesystems[0];
    let n = t.write_at(vfs, 1, &b"XY".to_vec());
    assert_eq!(n, 2);
    let mut buf = vec![0u8; 8];
    let r = t.read_at(vfs, 0, &mut buf);
    assert_eq!(r, 4);
    assert_eq!(&buf[..4], b"tXYt");
    assert_eq!(&buf[4..], &[0u8; 4]);
    // the file system beneath still has the old bytes until sync
    let mut under = vec![0u8; 4];
    vfs.inner_fs.read_at(ids.t, 0, &mut under);
    assert_eq!(under, b"test".to_vec());
    t.sync(vfs);
    vfs.inner_fs.read_at(ids.t, 0, &mut under);
    assert_eq!(under, b"tXYt".to_vec());
    assert!(vfs.inode_cache.get(&ids.t).unwrap().page_cache.dirty.is_empty());
}

#[test]
fn page_cache_stops_at_end_of_file() {
    let (mut tree, _) = sample_tree();
    let root = tree.root();
    let t = lookup(&mut tree, root, &b"/test/test.txt".to_vec()).unwrap();
    let vfs = &mut tree.filesystems[0];
    assert_eq!(t.write_at(vfs, 3, &b"ZZZ".to_vec()), 1);
    assert_eq!(t.write_at(vfs, 4, &b"ZZZ".to_vec()), 0);
    let mut buf = vec![5u8; 3];
    assert_eq!(t.read_at(vfs, 9, &mut buf), 0);
    assert_eq!(buf, vec![5u8; 3]);
    assert_eq!(t.read_at(vfs, 2, &mut buf), 2);
    assert_eq!(buf, vec![b's', b'Z', 5u8]);
}

#[test]
fn resize_drops_pages_past_the_end() {
    let (mut tree, ids) = sample_tree();
    let root = tree.root();
    let t = lookup(&mut tree, root, &b"/test/test.txt".to_vec()).unwrap();
    let vfs = &mut tree.filesystems[0];
    t.resize(vfs, 5000);
    assert_eq!(t.write_at(vfs, 4096, &b"P".to_vec()), 1);
    assert_eq!(vfs.inode_cache.get(&ids.t).unwrap().page_cache.table.len(), 1);
    t.resize(vfs, 10);
    assert_eq!(vfs.inode_cache.get(&ids.t).unwrap().page_cache.table.len(), 0);
    assert_eq!(vfs.inner_fs.metadata(ids.t).size, 10);
    let mut buf = vec![1u8; 10];
    assert_eq!(t.read_at(vfs, 0, &mut buf), 10);
    assert_eq!(buf, b"test\0\0\0\0\0\0".to_vec());
}

#[test]
fn virtual_file_reads_writes_and_seeks() {
    let (mut tree, ids) = sample_tree();
    let root = tree.root();
    let t = lookup(&mut tree, root, &b"/test/test.txt".to_vec()).unwrap();
    let mut f = VirtualFile::new(t);
    assert_eq!(f.offset, 0);
    let mut buf = vec![0u8; 3];
    assert_eq!(f.read(&mut tree, &mut buf), Ok(3));
    assert_eq!(buf, b"tes".to_vec());
    assert_eq!(f.read(&mut tree, &mut buf), Ok(1));
    assert_eq!(buf[0], b't');
    assert_eq!(f.read(&mut tree, &mut buf), Ok(0));
    // writing at the end grows the file by one byte
    assert_eq!(f.write(&mut tree, &b"!?".to_vec()), Ok(1));
    assert_eq!(tree.filesystems[0].inner_fs.metadata(ids.t).size, 5);
    assert_eq!(f.seek(&tree, FileSeekMethod::Absolute(1)), Ok(1));
    assert_eq!(f.seek(&tree, FileSeekMethod::Relative(-5)), Ok(0));
    assert_eq!(f.seek(&tree, FileSeekMethod::Relative(2)), Ok(2));
    assert_eq!(f.seek(&tree, FileSeekMethod::End(-1)), Ok(4));
    let mut one = vec![0u8; 1];
    assert_eq!(f.read(&mut tree, &mut one), Ok(1));
    assert_eq!(one, b"!".to_vec());
    let dir = VirtualFile::new(root);
    let mut d = dir;
    assert_eq!(d.read(&mut tree, &mut one), Err(SystemError::EISDIR));
    assert_eq!(d.write(&mut tree, &one), Err(SystemError::EISDIR));
}

#[test]
fn handles_are_counted() {
    let (fs, ids) = sample_fs();
    let mut vfs = VirtualFileSystem::new(fs);
    let a = vfs.get_inode_with_cache(ids.logo);
    assert_eq!(vfs.inode_cache.get(&ids.logo).unwrap().inner_locked.strong_count, 2);
    assert_eq!(vfs.inode_cache.get(&ids.logo).unwrap().inner_locked.inode(), ids.logo);
    let b = a.clone_handle(&mut vfs);
    assert_eq!(vfs.inode_cache.get(&ids.logo).unwrap().inner_locked.strong_count, 3);
    assert_eq!(b.release(&mut vfs), DropAction::Nothing);
    // only the cache's handle is left: retire under tag 1, with a weak handle for the task
    assert_eq!(a.release(&mut vfs), DropAction::SpawnDestroyer { destroying_id: 1 });
    let locked = &vfs.inode_cache.get(&ids.logo).unwrap().inner_locked;
    assert!(locked.to_destroy);
    assert_eq!(locked.weak_count, 1);
    assert!(locked.should_retire(1));
    assert!(!locked.should_retire(2));
    // a new handle before the task finishes cancels the retiring
    let c = vfs.get_inode_with_cache(ids.logo);
    assert!(!vfs.inode_cache.get(&ids.logo).unwrap().inner_locked.to_destroy);
    let mut l = vfs.inode_cache.get(&ids.logo).unwrap().inner_locked.clone_locked();
    assert!(!l.finish_retire(1));
    assert_eq!(c.release(&mut vfs), DropAction::SpawnDestroyer { destroying_id: 2 });
    let mut l2 = vfs.inode_cache.get(&ids.logo).unwrap().inner_locked.clone_locked();
    assert!(l2.finish_retire(2));
    assert!(!l2.in_cache);
    let _ = l;
}

#[test]
fn clone_then_release_restores_the_count() {
    let (fs, ids) = sample_fs();
    let mut vfs = VirtualFileSystem::new(fs);
    let a = vfs.get_inode_with_cache(ids.test);
    let _b = vfs.get_inode_with_cache(ids.test);
    let before = vfs.inode_cache.get(&ids.test).unwrap().inner_locked.strong_count;
    let c = a.clone_handle(&mut vfs);
    assert_eq!(c.release(&mut vfs), DropAction::Nothing);
    assert_eq!(vfs.inode_cache.get(&ids.test).unwrap().inner_locked.strong_count, before);
}

#[test]
fn weak_handles_free_the_record_last() {
    let (fs, ids) = sample_fs();
    let mut vfs = VirtualFileSystem::new(fs);
    let a = vfs.get_inode_with_cache(ids.test);
    let w = a.weak_clone(&mut vfs);
    assert!(w.weak);
    assert_eq!(a.release(&mut vfs), DropAction::SpawnDestroyer { destroying_id: 1 });
    // the cache's own handle goes, then both weak handles
    let cache_handle = VirtualIndexNode { fs: 0, id: ids.test, weak: false };
    assert_eq!(cache_handle.release(&mut vfs), DropAction::Nothing);
    assert_eq!(w.release(&mut vfs), DropAction::Nothing);
    assert_eq!(w.release(&mut vfs), DropAction::Free);
}

#[test]
fn empty_page_cache() {
    let pc = PageCache::new();
    assert!(pc.table.is_empty());
    assert!(pc.dirty.is_empty());
}
