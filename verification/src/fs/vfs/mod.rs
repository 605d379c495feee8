//! The virtual file system: one view over the file systems beneath it, with mount points,
//! an inode cache and a page cache per file.
pub mod interface;
pub mod inode_cache;
pub mod page_cache;
pub mod mount;
pub mod file;

use vstd::prelude::*;
use std::collections::BTreeMap;
use crate::fs::vfs::interface::{FileSystem, FileType, Metadata, fs_is_dir};
use crate::fs::vfs::page_cache::PageCache;

verus! {

broadcast use {vstd::std_specs::btree::group_btree_axioms, vstd::laws_cmp::group_laws_cmp};

/// The book-keeping of a cached inode, kept under its lock.
pub struct VirtualIndexNodeInnerLocked {
    /// The inode of the file system beneath, once it has been loaded.
    pub inode: Option<u64>,
    /// How many strong handles exist, the one in the inode cache included.
    pub strong_count: usize,
    /// How many weak handles exist (held by the tasks that retire the inode).
    pub weak_count: usize,
    /// Only the cache's handle is left and the inode is to be retired.
    pub to_destroy: bool,
    /// Counts the times the inode was marked to be retired.
    pub destroy_tag: u64,
    /// The inode is in the inode cache.
    pub in_cache: bool,
}

impl VirtualIndexNodeInnerLocked {
    /// The inode of the file system beneath; it must have been loaded.
    pub fn inode(&self) -> (r: u64)
        requires
            self.inode is Some,
        ensures
            Some(r) == self.inode,
    {
        match self.inode {
            Some(i) => i,
            None => 0,
        }
    }
}

/// A cached inode: its book-keeping, its page cache and its number.
pub struct VirtualIndexNodeInner {
    pub inner_locked: VirtualIndexNodeInnerLocked,
    pub page_cache: PageCache,
    pub id: u64,
}

/// A handle to a cached inode: the mounted file system it belongs to (its place in the
/// mount tree) and its number there. A weak handle may not be cloned.
#[derive(Clone, Copy, Debug, PartialEq, Eq, Structural)]
pub struct VirtualIndexNode {
    pub fs: usize,
    pub id: u64,
    pub weak: bool,
}

/// A file system taken over by the virtual file system.
pub struct VirtualFileSystem<F: FileSystem> {
    pub inner_fs: F,
    /// The mount points in this file system: inode number to the place of the file system
    /// mounted there.
    pub mountpoints: BTreeMap<u64, usize>,
    /// Where this file system is mounted; `None` for the root of the tree.
    pub self_mountpoints: Option<VirtualIndexNode>,
    /// The cached inodes, by number.
    pub inode_cache: BTreeMap<u64, VirtualIndexNodeInner>,
    /// This file system's place in its mount tree.
    pub self_index: usize,
}

/// The mounted file systems; the first is the root of the tree.
pub struct MountTree<F: FileSystem> {
    pub filesystems: Vec<VirtualFileSystem<F>>,
}

impl<F: FileSystem> VirtualFileSystem<F> {
    /// The cached inodes.
    pub open spec fn cache(&self) -> Map<u64, VirtualIndexNodeInner> {
        self.inode_cache@
    }

    pub open spec fn wf(&self) -> bool {
        &&& self.inner_fs.inv()
        &&& forall|id: u64| #[trigger] self.cache().contains_key(id) ==> {
            let e = self.cache()[id];
            &&& self.inner_fs.has(id)
            &&& e.id == id
            &&& e.inner_locked.inode == Some(id)
            &&& e.page_cache.wf()
            &&& self.inner_fs.spec_metadata(id).file_type == FileType::File
                ==> e.page_cache.below(self.inner_fs.spec_content(id).len())
        }
        &&& forall|id: u64| #[trigger] self.mountpoints@.contains_key(id) ==> fs_is_dir(&self.inner_fs, id)
    }

    /// Takes over file system `fs`, with nothing cached and nothing mounted.
    pub fn new(fs: F) -> (r: Self)
        requires
            fs.inv(),
        ensures
            r.wf(),
            r.inner_fs == fs,
            r.mountpoints@ == Map::<u64, usize>::empty(),
            r.self_mountpoints.is_none(),
            r.cache() == Map::<u64, VirtualIndexNodeInner>::empty(),
            r.self_index == 0,
    {
        VirtualFileSystem {
            inner_fs: fs,
            mountpoints: BTreeMap::new(),
            self_mountpoints: None,
            inode_cache: BTreeMap::new(),
            self_index: 0,
        }
    }
}

impl<F: FileSystem> VirtualFileSystem<F> {
    /// A strong handle to the root directory of this file system.
    pub fn root(&mut self) -> (r: VirtualIndexNode)
        requires
            old(self).wf(),
        ensures
            final(self).wf(),
            r == (VirtualIndexNode { fs: old(self).self_index, id: old(self).inner_fs.spec_root(), weak: false }),
            final(self).inner_fs == old(self).inner_fs,
            final(self).mountpoints@ == old(self).mountpoints@,
            final(self).self_mountpoints == old(self).self_mountpoints,
            final(self).self_index == old(self).self_index,
            final(self).cache().contains_key(r.id),
            forall|o: u64| #[trigger] old(self).cache().contains_key(o) ==> final(self).cache().contains_key(o),
    {
        let inode = self.inner_fs.root_inode();
        self.get_inode_with_cache(inode)
    }
}

impl VirtualIndexNode {
    /// The place in the mount tree of this handle's file system.
    pub fn fs(&self) -> (r: usize)
        ensures
            r == self.fs,
    {
        self.fs
    }

    /// The kind and size of this inode; `vfs` is the file system of this handle.
    pub fn metadata<F: FileSystem>(&self, vfs: &VirtualFileSystem<F>) -> (r: Metadata)
        requires
            vfs.wf(),
            vfs.cache().contains_key(self.id),
        ensures
            r == vfs.inner_fs.spec_metadata(self.id),
            r.file_type == FileType::File ==> r.size == vfs.inner_fs.spec_content(self.id).len(),
    {
        let inode = vfs.inode_cache.get(&self.id).unwrap().inner_locked.inode();
        vfs.inner_fs.metadata(inode)
    }

    /// The entries of this directory, in listing order: name and inode number; `vfs` is the
    /// file system of this handle.
    pub fn list<F: FileSystem>(&self, vfs: &VirtualFileSystem<F>) -> (r: Vec<(Vec<u8>, u64)>)
        requires
            vfs.wf(),
            vfs.cache().contains_key(self.id),
            fs_is_dir(&vfs.inner_fs, self.id),
        ensures
            r@.len() == vfs.inner_fs.spec_list(self.id).len(),
            forall|i: int| 0 <= i < r@.len() ==> (#[trigger] r@[i]).0@ == vfs.inner_fs.spec_list(self.id)[i].0
                && r@[i].1 == vfs.inner_fs.spec_list(self.id)[i].1,
    {
        let inode = vfs.inode_cache.get(&self.id).unwrap().inner_locked.inode();
        vfs.inner_fs.list(inode)
    }
}

} // verus!
