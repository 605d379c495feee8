//! The inode cache: one book-keeping record per inode in use, counted by handles.
use vstd::prelude::*;
use crate::fs::vfs::{VirtualFileSystem, VirtualIndexNode, VirtualIndexNodeInner, VirtualIndexNodeInnerLocked};
use crate::fs::vfs::interface::{FileSystem, FileType};
use crate::fs::vfs::page_cache::PageCache;

verus! {

broadcast use {vstd::std_specs::btree::group_btree_axioms, vstd::laws_cmp::group_laws_cmp};

/// What must follow the release of a handle.
#[derive(Clone, Copy, Debug, PartialEq, Eq, Structural)]
pub enum DropAction {
    /// Nothing more.
    Nothing,
    /// Only the cache's handle is left: start a task that retires the inode, holding a
    /// weak handle and the tag it was marked with.
    SpawnDestroyer { destroying_id: u64 },
    /// No handle is left: the record can be freed.
    Free,
}

/// The record after a strong handle is cloned: one more strong handle, and no longer to be
/// retired. (A count at `usize::MAX` stays there: no more handles fit in memory.)
pub open spec fn cloned_state(s: VirtualIndexNodeInnerLocked) -> VirtualIndexNodeInnerLocked {
    VirtualIndexNodeInnerLocked {
        strong_count: if s.strong_count < usize::MAX { (s.strong_count + 1) as usize } else { s.strong_count },
        to_destroy: false,
        ..s
    }
}

/// The record after a weak handle is made.
pub open spec fn weak_cloned_state(s: VirtualIndexNodeInnerLocked) -> VirtualIndexNodeInnerLocked {
    VirtualIndexNodeInnerLocked { weak_count: (s.weak_count + 1) as usize, ..s }
}

/// The record after a handle (weak or not) is released: its count goes down; when only the
/// cache's strong handle is left, the inode is marked to be retired under a new tag and a
/// weak handle is made for the retiring task.
pub open spec fn released_state(s: VirtualIndexNodeInnerLocked, weak: bool) -> VirtualIndexNodeInnerLocked {
    let t = if weak {
        VirtualIndexNodeInnerLocked { weak_count: (s.weak_count - 1) as usize, ..s }
    } else {
        VirtualIndexNodeInnerLocked { strong_count: (s.strong_count - 1) as usize, ..s }
    };
    if !weak && t.strong_count == 1 {
        VirtualIndexNodeInnerLocked {
            to_destroy: true,
            destroy_tag: (t.destroy_tag + 1) as u64,
            weak_count: (t.weak_count + 1) as usize,
            ..t
        }
    } else {
        t
    }
}

/// What follows a release, as `released_state` leaves the record.
pub open spec fn release_action(s: VirtualIndexNodeInnerLocked, weak: bool) -> DropAction {
    let t = released_state(s, weak);
    if !weak && t.strong_count == 1 {
        DropAction::SpawnDestroyer { destroying_id: t.destroy_tag }
    } else if t.weak_count + t.strong_count == 0 {
        DropAction::Free
    } else {
        DropAction::Nothing
    }
}

impl VirtualIndexNodeInnerLocked {
    /// While an inode is marked to be retired, at most the cache's strong handle is left.
    pub open spec fn retire_ok(&self) -> bool {
        self.to_destroy ==> self.strong_count <= 1
    }

    /// A copy of the book-keeping.
    pub fn clone_locked(&self) -> (r: Self)
        ensures
            r == *self,
    {
        VirtualIndexNodeInnerLocked {
            inode: self.inode,
            strong_count: self.strong_count,
            weak_count: self.weak_count,
            to_destroy: self.to_destroy,
            destroy_tag: self.destroy_tag,
            in_cache: self.in_cache,
        }
    }

    /// Counts a new strong handle.
    pub fn clone_strong(&mut self)
        ensures
            *final(self) == cloned_state(*old(self)),
            final(self).retire_ok(),
    {
        if self.strong_count < usize::MAX {
            self.strong_count = self.strong_count + 1;
        }
        if self.to_destroy {
            self.to_destroy = false;
        }
    }

    /// Counts a new weak handle.
    pub fn clone_weak(&mut self)
        requires
            old(self).weak_count < usize::MAX,
        ensures
            *final(self) == weak_cloned_state(*old(self)),
            old(self).retire_ok() ==> final(self).retire_ok(),
    {
        self.weak_count = self.weak_count + 1;
    }

    /// Counts the release of a handle and says what must follow.
    pub fn release(&mut self, weak: bool) -> (r: DropAction)
        requires
            weak ==> old(self).weak_count > 0,
            !weak ==> old(self).strong_count > 0,
            old(self).destroy_tag < u64::MAX,
            old(self).weak_count < usize::MAX,
        ensures
            *final(self) == released_state(*old(self), weak),
            r == release_action(*old(self), weak),
            old(self).retire_ok() ==> final(self).retire_ok(),
    {
        if weak {
            self.weak_count = self.weak_count - 1;
        } else {
            self.strong_count = self.strong_count - 1;
        }
        if !weak && self.strong_count == 1 {
            self.to_destroy = true;
            self.destroy_tag = self.destroy_tag + 1;
            self.weak_count = self.weak_count + 1;
            DropAction::SpawnDestroyer { destroying_id: self.destroy_tag }
        } else if self.weak_count == 0 && self.strong_count == 0 {
            DropAction::Free
        } else {
            DropAction::Nothing
        }
    }

    /// The first check of a retiring task: go on only if the inode is still cached and no
    /// later task has been started for it.
    pub fn should_retire(&self, destroying_id: u64) -> (r: bool)
        ensures
            r == (self.in_cache && self.destroy_tag == destroying_id),
    {
        self.in_cache && self.destroy_tag == destroying_id
    }

    /// The last check of a retiring task, after writing the inode back: when it is still the
    /// latest task and the inode is still to be retired, the inode leaves the cache.
    pub fn finish_retire(&mut self, destroying_id: u64) -> (r: bool)
        ensures
            r == (old(self).destroy_tag == destroying_id && old(self).to_destroy),
            r ==> *final(self) == (VirtualIndexNodeInnerLocked { in_cache: false, ..*old(self) }),
            !r ==> *final(self) == *old(self),
            old(self).retire_ok() ==> final(self).retire_ok(),
    {
        if self.destroy_tag == destroying_id && self.to_destroy {
            self.in_cache = false;
            true
        } else {
            false
        }
    }
}

/// A clone then the release of that clone: the strong count is what it was, and the inode
/// is marked to be retired exactly when the cache's handle is the only one left.
pub proof fn lemma_clone_then_release(s: VirtualIndexNodeInnerLocked)
    requires
        s.strong_count < usize::MAX,
        s.destroy_tag < u64::MAX,
        s.weak_count < usize::MAX,
    ensures
        released_state(cloned_state(s), false).strong_count == s.strong_count,
        released_state(cloned_state(s), false).to_destroy == (s.strong_count == 1),
        released_state(cloned_state(s), false).in_cache == s.in_cache,
        release_action(cloned_state(s), false) is SpawnDestroyer <==> s.strong_count == 1,
{
}

/// Every step of the handle counting keeps the retiring rule: while an inode is marked to be
/// retired, no strong handle but the cache's exists.
pub proof fn lemma_retire_ok_kept(s: VirtualIndexNodeInnerLocked, weak: bool)
    requires
        s.retire_ok(),
        weak ==> s.weak_count > 0,
        !weak ==> s.strong_count > 0,
    ensures
        cloned_state(s).retire_ok(),
        weak_cloned_state(s).retire_ok(),
        released_state(s, weak).retire_ok(),
{
}

impl<F: FileSystem> VirtualFileSystem<F> {
    /// A fresh record for inode `id`: not loaded yet, one strong handle (the cache's), in
    /// the cache, with an empty page cache.
    fn new_inode(&self, id: u64) -> (r: VirtualIndexNodeInner)
        ensures
            r.id == id,
            r.inner_locked == (VirtualIndexNodeInnerLocked {
                inode: None, strong_count: 1, weak_count: 0, to_destroy: false, destroy_tag: 0, in_cache: true,
            }),
            r.page_cache.wf(),
            r.page_cache.table@ == Map::<usize, crate::fs::vfs::page_cache::CachedPage>::empty(),
            r.page_cache.dirty@ == Set::<usize>::empty(),
    {
        VirtualIndexNodeInner {
            inner_locked: VirtualIndexNodeInnerLocked {
                inode: None,
                strong_count: 1,
                weak_count: 0,
                to_destroy: false,
                destroy_tag: 0,
                in_cache: true,
            },
            page_cache: PageCache::new(),
            id,
        }
    }

    /// A strong handle to inode `id`: from the cache if it is there (one more strong handle),
    /// else a new record, loaded from the file system beneath and put in the cache (which
    /// keeps a handle of its own).
    pub fn get_inode_with_cache(&mut self, id: u64) -> (r: VirtualIndexNode)
        requires
            old(self).wf(),
            old(self).inner_fs.has(id),
        ensures
            final(self).wf(),
            r == (VirtualIndexNode { fs: old(self).self_index, id, weak: false }),
            final(self).inner_fs == old(self).inner_fs,
            final(self).mountpoints@ == old(self).mountpoints@,
            final(self).self_mountpoints == old(self).self_mountpoints,
            final(self).self_index == old(self).self_index,
            final(self).cache().dom() == old(self).cache().dom().insert(id),
            forall|o: u64| o != id ==> #[trigger] final(self).cache()[o] == old(self).cache()[o],
            old(self).cache().contains_key(id) ==> final(self).cache()[id] == (VirtualIndexNodeInner {
                inner_locked: cloned_state(old(self).cache()[id].inner_locked), ..old(self).cache()[id] }),
            !old(self).cache().contains_key(id) ==> {
                &&& final(self).cache()[id].inner_locked == (VirtualIndexNodeInnerLocked {
                    inode: Some(id), strong_count: 2, weak_count: 0, to_destroy: false, destroy_tag: 0, in_cache: true })
                &&& final(self).cache()[id].page_cache.table@ == Map::<usize, crate::fs::vfs::page_cache::CachedPage>::empty()
                &&& final(self).cache()[id].page_cache.dirty@ == Set::<usize>::empty()
                &&& final(self).cache()[id].id == id
            },
    {
        let ghost old_self = *self;
        let mut e = match self.inode_cache.remove(&id) {
            Some(e) => {
                let mut e = e;
                e.inner_locked.clone_strong();
                e
            },
            None => {
                let mut e = self.new_inode(id);
                // the cache's handle, then the one handed out
                e.inner_locked.clone_strong();
                e.inner_locked.inode = Some(id);
                e
            },
        };
        self.inode_cache.insert(id, e);
        proof {
            assert(self.cache().dom() =~= old_self.cache().dom().insert(id));
            assert forall|o: u64| #[trigger] self.cache().contains_key(o) implies {
                let e = self.cache()[o];
                &&& self.inner_fs.has(o)
                &&& e.id == o
                &&& e.inner_locked.inode == Some(o)
                &&& e.page_cache.wf()
                &&& self.inner_fs.spec_metadata(o).file_type == FileType::File
                    ==> e.page_cache.below(self.inner_fs.spec_content(o).len())
            } by {
                if o != id {
                    assert(old_self.cache().contains_key(o));
                }
            }
        }
        VirtualIndexNode { fs: self.self_index, id, weak: false }
    }
}

impl VirtualIndexNode {
    /// The inode named `name` in this directory, within this file system (mount points are
    /// not followed); `vfs` is the file system of this handle.
    pub fn find_with_cache<F: FileSystem>(&self, vfs: &mut VirtualFileSystem<F>, name: &Vec<u8>) -> (r: Option<VirtualIndexNode>)
        requires
            old(vfs).wf(),
            old(vfs).cache().contains_key(self.id),
            crate::fs::vfs::interface::fs_is_dir(&old(vfs).inner_fs, self.id),
        ensures
            final(vfs).wf(),
            final(vfs).inner_fs == old(vfs).inner_fs,
            final(vfs).mountpoints@ == old(vfs).mountpoints@,
            final(vfs).self_mountpoints == old(vfs).self_mountpoints,
            final(vfs).self_index == old(vfs).self_index,
            forall|o: u64| #[trigger] old(vfs).cache().contains_key(o) ==> final(vfs).cache().contains_key(o),
            match old(vfs).inner_fs.spec_find(self.id, name@) {
                None => r.is_none(),
                Some(c) => r == Some(VirtualIndexNode { fs: old(vfs).self_index, id: c, weak: false })
                    && final(vfs).cache().contains_key(c),
            },
    {
        let inode = vfs.inode_cache.get(&self.id).unwrap().inner_locked.inode();
        let id = match vfs.inner_fs.find(inode, name) {
            Some(id) => id,
            None => {
                return None;
            },
        };
        Some(vfs.get_inode_with_cache(id))
    }
}

impl<F: FileSystem> VirtualFileSystem<F> {
    /// Replaces the book-keeping of cached inode `id` with `locked`.
    fn update_locked(&mut self, id: u64, locked: VirtualIndexNodeInnerLocked)
        requires
            old(self).wf(),
            old(self).cache().contains_key(id),
            locked.inode == Some(id),
        ensures
            final(self).wf(),
            final(self).inner_fs == old(self).inner_fs,
            final(self).mountpoints@ == old(self).mountpoints@,
            final(self).self_mountpoints == old(self).self_mountpoints,
            final(self).self_index == old(self).self_index,
            final(self).cache().dom() == old(self).cache().dom(),
            forall|o: u64| o != id ==> #[trigger] final(self).cache()[o] == old(self).cache()[o],
            final(self).cache()[id] == (VirtualIndexNodeInner { inner_locked: locked, ..old(self).cache()[id] }),
    {
        let ghost old_self = *self;
        let mut e = self.inode_cache.remove(&id).unwrap();
        e.inner_locked = locked;
        self.inode_cache.insert(id, e);
        proof {
            assert(self.cache().dom() =~= old_self.cache().dom());
            assert forall|o: u64| #[trigger] self.cache().contains_key(o) implies {
                let e = self.cache()[o];
                &&& self.inner_fs.has(o)
                &&& e.id == o
                &&& e.inner_locked.inode == Some(o)
                &&& e.page_cache.wf()
                &&& self.inner_fs.spec_metadata(o).file_type == FileType::File
                    ==> e.page_cache.below(self.inner_fs.spec_content(o).len())
            } by {
                assert(old_self.cache().contains_key(o));
            }
        }
    }
}

impl VirtualIndexNode {
    /// Another strong handle to this inode (the inode is no longer to be retired); `vfs` is
    /// the file system of this handle, which must not be weak.
    pub fn clone_handle<F: FileSystem>(&self, vfs: &mut VirtualFileSystem<F>) -> (r: VirtualIndexNode)
        requires
            old(vfs).wf(),
            old(vfs).cache().contains_key(self.id),
            !self.weak,
        ensures
            r == (VirtualIndexNode { weak: false, ..*self }),
            final(vfs).wf(),
            final(vfs).inner_fs == old(vfs).inner_fs,
            final(vfs).mountpoints@ == old(vfs).mountpoints@,
            final(vfs).self_mountpoints == old(vfs).self_mountpoints,
            final(vfs).self_index == old(vfs).self_index,
            final(vfs).cache().dom() == old(vfs).cache().dom(),
            forall|o: u64| o != self.id ==> #[trigger] final(vfs).cache()[o] == old(vfs).cache()[o],
            final(vfs).cache()[self.id] == (VirtualIndexNodeInner {
                inner_locked: cloned_state(old(vfs).cache()[self.id].inner_locked), ..old(vfs).cache()[self.id] }),
    {
        let mut locked = vfs.inode_cache.get(&self.id).unwrap().inner_locked.clone_locked();
        locked.clone_strong();
        vfs.update_locked(self.id, locked);
        VirtualIndexNode { fs: self.fs, id: self.id, weak: false }
    }

    /// A weak handle to this inode, which cannot be cloned; `vfs` is the file system of this
    /// handle, which must not be weak.
    pub fn weak_clone<F: FileSystem>(&self, vfs: &mut VirtualFileSystem<F>) -> (r: VirtualIndexNode)
        requires
            old(vfs).wf(),
            old(vfs).cache().contains_key(self.id),
            old(vfs).cache()[self.id].inner_locked.weak_count < usize::MAX,
            !self.weak,
        ensures
            r == (VirtualIndexNode { weak: true, ..*self }),
            final(vfs).wf(),
            final(vfs).inner_fs == old(vfs).inner_fs,
            final(vfs).mountpoints@ == old(vfs).mountpoints@,
            final(vfs).self_mountpoints == old(vfs).self_mountpoints,
            final(vfs).self_index == old(vfs).self_index,
            final(vfs).cache().dom() == old(vfs).cache().dom(),
            forall|o: u64| o != self.id ==> #[trigger] final(vfs).cache()[o] == old(vfs).cache()[o],
            final(vfs).cache()[self.id] == (VirtualIndexNodeInner {
                inner_locked: weak_cloned_state(old(vfs).cache()[self.id].inner_locked), ..old(vfs).cache()[self.id] }),
    {
        let mut locked = vfs.inode_cache.get(&self.id).unwrap().inner_locked.clone_locked();
        locked.clone_weak();
        vfs.update_locked(self.id, locked);
        VirtualIndexNode { fs: self.fs, id: self.id, weak: true }
    }

    /// Gives up this handle and says what must follow (see `release_action`).
    pub fn release<F: FileSystem>(self, vfs: &mut VirtualFileSystem<F>) -> (r: DropAction)
        requires
            old(vfs).wf(),
            old(vfs).cache().contains_key(self.id),
            self.weak ==> old(vfs).cache()[self.id].inner_locked.weak_count > 0,
            !self.weak ==> old(vfs).cache()[self.id].inner_locked.strong_count > 0,
            old(vfs).cache()[self.id].inner_locked.destroy_tag < u64::MAX,
            old(vfs).cache()[self.id].inner_locked.weak_count < usize::MAX,
        ensures
            r == release_action(old(vfs).cache()[self.id].inner_locked, self.weak),
            final(vfs).wf(),
            final(vfs).inner_fs == old(vfs).inner_fs,
            final(vfs).mountpoints@ == old(vfs).mountpoints@,
            final(vfs).self_mountpoints == old(vfs).self_mountpoints,
            final(vfs).self_index == old(vfs).self_index,
            final(vfs).cache().dom() == old(vfs).cache().dom(),
            forall|o: u64| o != self.id ==> #[trigger] final(vfs).cache()[o] == old(vfs).cache()[o],
            final(vfs).cache()[self.id] == (VirtualIndexNodeInner {
                inner_locked: released_state(old(vfs).cache()[self.id].inner_locked, self.weak), ..old(vfs).cache()[self.id] }),
    {
        let mut locked = vfs.inode_cache.get(&self.id).unwrap().inner_locked.clone_locked();
        let r = locked.release(self.weak);
        vfs.update_locked(self.id, locked);
        r
    }
}

impl<F: FileSystem> VirtualFileSystem<F> {
    /// The first check of a task that retires inode `id` under tag `destroying_id`: go on
    /// only if the inode is still cached and no later task was started for it.
    pub fn retire_pending(&self, id: u64, destroying_id: u64) -> (r: bool)
        ensures
            r == (self.cache().contains_key(id) && self.cache()[id].inner_locked.in_cache
                && self.cache()[id].inner_locked.destroy_tag == destroying_id),
    {
        match self.inode_cache.get(&id) {
            Some(e) => e.inner_locked.should_retire(destroying_id),
            None => false,
        }
    }

    /// The last step of a task that retires inode `id` under tag `destroying_id`, after the
    /// inode was written back: when that is still the latest tag and the inode is still to be
    /// retired, it leaves the cache, which gives up its handle; otherwise nothing changes.
    pub fn finish_retire(&mut self, id: u64, destroying_id: u64) -> (r: bool)
        requires
            old(self).wf(),
        ensures
            final(self).wf(),
            final(self).inner_fs == old(self).inner_fs,
            final(self).mountpoints@ == old(self).mountpoints@,
            final(self).self_mountpoints == old(self).self_mountpoints,
            final(self).self_index == old(self).self_index,
            r == (old(self).cache().contains_key(id) && old(self).cache()[id].inner_locked.destroy_tag == destroying_id
                && old(self).cache()[id].inner_locked.to_destroy),
            r ==> final(self).cache() == old(self).cache().remove(id),
            !r ==> final(self).cache() == old(self).cache(),
    {
        let ghost old_self = *self;
        let due = match self.inode_cache.get(&id) {
            Some(e) => {
                let mut locked = e.inner_locked.clone_locked();
                locked.finish_retire(destroying_id)
            },
            None => false,
        };
        if due {
            self.inode_cache.remove(&id);
            proof {
                assert forall|o: u64| #[trigger] self.cache().contains_key(o) implies {
                    let e = self.cache()[o];
                    &&& self.inner_fs.has(o)
                    &&& e.id == o
                    &&& e.inner_locked.inode == Some(o)
                    &&& e.page_cache.wf()
                    &&& self.inner_fs.spec_metadata(o).file_type == FileType::File
                        ==> e.page_cache.below(self.inner_fs.spec_content(o).len())
                } by {
                    assert(old_self.cache().contains_key(o));
                }
            }
        }
        due
    }
}

} // verus!
