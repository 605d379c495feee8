//! The mount tree: moving between the file systems mounted on one another.
use vstd::prelude::*;
use crate::fs::vfs::{MountTree, VirtualFileSystem, VirtualIndexNode};
use crate::fs::vfs::interface::{FileSystem, FileType, fs_is_dir};
use crate::fs::vfs::inode_cache::cloned_state;

verus! {

broadcast use {vstd::std_specs::btree::group_btree_axioms, vstd::laws_cmp::group_laws_cmp};

/// The part of a mounted file system that lookups depend on: the file system beneath, its
/// mount points and where it is mounted.
pub struct MountShape<F> {
    pub inner_fs: F,
    pub mountpoints: Map<u64, usize>,
    pub self_mountpoints: Option<VirtualIndexNode>,
}

/// Where `name` in directory `dir` of file system `k` leads: the inode it names, or the
/// root of the file system mounted there.
pub open spec fn resolve_find<F: FileSystem>(sh: Seq<MountShape<F>>, k: int, dir: u64, name: Seq<u8>) -> Option<(int, u64)> {
    match sh[k].inner_fs.spec_find(dir, name) {
        None => None,
        Some(c) => if sh[k].mountpoints.contains_key(c) {
            let m = sh[k].mountpoints[c] as int;
            Some((m, sh[m].inner_fs.spec_root()))
        } else {
            Some((k, c))
        },
    }
}

/// The parent of directory `dir` of file system `k`; at the root of a mounted file system,
/// the parent of its mount point; `None` at the root of the tree.
pub open spec fn resolve_parent<F: FileSystem>(sh: Seq<MountShape<F>>, k: int, dir: u64) -> Option<(int, u64)>
    decreases k,
{
    match sh[k].inner_fs.spec_parent(dir) {
        Some(p) => Some((k, p)),
        None => match sh[k].self_mountpoints {
            Some(mp) => if 0 <= mp.fs < k { resolve_parent(sh, mp.fs as int, mp.id) } else { None },
            None => None,
        },
    }
}

/// The first name that `list` gives inode `id`, from position `i` on.
pub open spec fn first_name(list: Seq<(Seq<u8>, u64)>, id: u64, i: int) -> Option<Seq<u8>>
    decreases list.len() - i,
{
    if i < 0 || i >= list.len() {
        None
    } else if list[i].1 == id {
        Some(list[i].0)
    } else {
        first_name(list, id, i + 1)
    }
}

/// The name of directory `dir` of file system `k` in its parent; for the root of a mounted
/// file system, the name of its mount point; `None` at the root of the tree.
pub open spec fn resolve_dir_name<F: FileSystem>(sh: Seq<MountShape<F>>, k: int, dir: u64) -> Option<Seq<u8>>
    decreases k,
{
    match sh[k].inner_fs.spec_parent(dir) {
        Some(p) => first_name(sh[k].inner_fs.spec_list(p), dir, 0),
        None => match sh[k].self_mountpoints {
            Some(mp) => if 0 <= mp.fs < k { resolve_dir_name(sh, mp.fs as int, mp.id) } else { None },
            None => None,
        },
    }
}

impl<F: FileSystem> VirtualFileSystem<F> {
    pub open spec fn shape(&self) -> MountShape<F> {
        MountShape { inner_fs: self.inner_fs, mountpoints: self.mountpoints@, self_mountpoints: self.self_mountpoints }
    }
}

impl<F: FileSystem> MountTree<F> {
    pub open spec fn len(&self) -> nat {
        self.filesystems@.len()
    }

    pub open spec fn at(&self, k: int) -> VirtualFileSystem<F> {
        self.filesystems@[k]
    }

    /// The shapes of the mounted file systems.
    pub open spec fn shapes(&self) -> Seq<MountShape<F>> {
        self.filesystems@.map_values(|v: VirtualFileSystem<F>| v.shape())
    }

    /// Handle `n` names a cached inode of a mounted file system.
    pub open spec fn valid(&self, n: VirtualIndexNode) -> bool {
        &&& n.fs < self.len()
        &&& self.at(n.fs as int).cache().contains_key(n.id)
    }

    pub open spec fn wf(&self) -> bool {
        &&& self.len() > 0
        &&& self.at(0).self_mountpoints.is_none()
        &&& forall|k: int| 0 <= k < self.len() ==> {
            let v = #[trigger] self.at(k);
            &&& v.wf()
            &&& v.self_index == k
            &&& forall|id: u64| #[trigger] v.mountpoints@.contains_key(id) ==> {
                let m = v.mountpoints@[id];
                k < m < self.len()
            }
            &&& v.self_mountpoints matches Some(mp) ==> mp.fs < k && self.valid(mp)
                && fs_is_dir(&self.at(mp.fs as int).inner_fs, mp.id)
        }
    }

    /// `self` and `other` have the same mounted file systems, and every inode cached in
    /// `other` is cached in `self`.
    pub open spec fn grows(&self, other: &Self) -> bool {
        &&& self.shapes() == other.shapes()
        &&& self.len() == other.len()
        &&& forall|k: int, id: u64| 0 <= k < other.len() && #[trigger] other.at(k).cache().contains_key(id)
            ==> self.at(k).cache().contains_key(id)
    }

    /// Caching more inodes keeps a tree well formed.
    proof fn lemma_grows_wf(t0: Self, t1: Self)
        requires
            t0.wf(),
            t1.grows(&t0),
            forall|k: int| 0 <= k < t1.len() ==> (#[trigger] t1.at(k)).wf() && t1.at(k).self_index == k,
        ensures
            t1.wf(),
    {
        assert forall|k: int| 0 <= k < t1.len() implies #[trigger] t1.at(k).shape() == t0.at(k).shape() by {
            assert(t1.shapes()[k] == t0.shapes()[k]);
        }
        assert(t1.at(0).shape() == t0.at(0).shape());
        assert forall|k: int| 0 <= k < t1.len() implies {
            let v = #[trigger] t1.at(k);
            &&& v.wf()
            &&& v.self_index == k
            &&& forall|id: u64| #[trigger] v.mountpoints@.contains_key(id) ==> {
                let m = v.mountpoints@[id];
                k < m < t1.len()
            }
            &&& v.self_mountpoints matches Some(mp) ==> mp.fs < k && t1.valid(mp)
                && fs_is_dir(&t1.at(mp.fs as int).inner_fs, mp.id)
        } by {
            let v0 = t0.at(k);
            assert(v0.shape() == t1.at(k).shape());
            if let Some(mp) = v0.self_mountpoints {
                assert(t0.at(mp.fs as int).shape() == t1.at(mp.fs as int).shape());
            }
        }
    }

    /// A tree that holds `root` alone.
    pub fn new(root: VirtualFileSystem<F>) -> (r: Self)
        requires
            root.wf(),
            root.self_index == 0,
            root.mountpoints@ == Map::<u64, usize>::empty(),
            root.self_mountpoints.is_none(),
        ensures
            r.wf(),
            r.filesystems@ == seq![root],
    {
        let mut filesystems = Vec::new();
        filesystems.push(root);
        MountTree { filesystems }
    }

    /// A strong handle to the root directory of the tree.
    pub fn root(&mut self) -> (r: VirtualIndexNode)
        requires
            old(self).wf(),
        ensures
            final(self).wf(),
            final(self).grows(old(self)),
            final(self).valid(r),
            r == (VirtualIndexNode { fs: 0, id: old(self).at(0).inner_fs.spec_root(), weak: false }),
    {
        let ghost t0 = *self;
        let r = self.filesystems[0].root();
        proof {
            assert(self.filesystems@ == t0.filesystems@.update(0, self.at(0)));
            assert(self.shapes() =~= t0.shapes());
            assert forall|k: int| 0 <= k < self.len() implies (#[trigger] self.at(k)).wf() && self.at(k).self_index == k by {
                if k != 0 {
                    assert(self.at(k) == t0.at(k));
                }
            }
            MountTree::lemma_grows_wf(t0, *self);
        }
        r
    }
}

impl<F: FileSystem> MountTree<F> {
    /// Changing file system `k` alone by caching more inodes keeps the tree well formed.
    proof fn lemma_update_one(t0: Self, t1: Self, k: int)
        requires
            t0.wf(),
            0 <= k < t0.len(),
            t1.filesystems@ == t0.filesystems@.update(k, t1.at(k)),
            t1.at(k).wf(),
            t1.at(k).self_index == k,
            t1.at(k).shape() == t0.at(k).shape(),
            forall|id: u64| #[trigger] t0.at(k).cache().contains_key(id) ==> t1.at(k).cache().contains_key(id),
        ensures
            t1.wf(),
            t1.grows(&t0),
    {
        assert(t1.shapes() =~= t0.shapes());
        assert forall|j: int| 0 <= j < t1.len() implies (#[trigger] t1.at(j)).wf() && t1.at(j).self_index == j by {
            if j != k {
                assert(t1.at(j) == t0.at(j));
            }
        }
        assert forall|j: int, id: u64| 0 <= j < t0.len() && #[trigger] t0.at(j).cache().contains_key(id)
            implies t1.at(j).cache().contains_key(id) by {
            if j != k {
                assert(t1.at(j) == t0.at(j));
            }
        }
        MountTree::lemma_grows_wf(t0, t1);
    }
}

impl VirtualIndexNode {
    /// The inode named `name` in this directory; where it is a mount point, the root of the
    /// file system mounted there.
    pub fn find<F: FileSystem>(&self, tree: &mut MountTree<F>, name: &Vec<u8>) -> (r: Option<VirtualIndexNode>)
        requires
            old(tree).wf(),
            old(tree).valid(*self),
            fs_is_dir(&old(tree).at(self.fs as int).inner_fs, self.id),
        ensures
            final(tree).wf(),
            final(tree).grows(old(tree)),
            r.is_none() <==> resolve_find(old(tree).shapes(), self.fs as int, self.id, name@).is_none(),
            r matches Some(n) ==> resolve_find(old(tree).shapes(), self.fs as int, self.id, name@) == Some((n.fs as int, n.id)) && !n.weak
                && final(tree).valid(n),
    {
        let ghost t0 = *tree;
        let ghost sh = t0.shapes();
        assert(sh[self.fs as int] == t0.at(self.fs as int).shape());
        let found = match self.find_with_cache(&mut tree.filesystems[self.fs], name) {
            Some(n) => n,
            None => {
                proof {
                    MountTree::lemma_update_one(t0, *tree, self.fs as int);
                }
                return None;
            },
        };
        proof {
            MountTree::lemma_update_one(t0, *tree, self.fs as int);
        }
        let ghost t1 = *tree;
        let mount_fs = match tree.filesystems[self.fs].mountpoints.get(&found.id) {
            Some(k) => Some(*k),
            None => None,
        };
        match mount_fs {
            Some(k) => {
                proof {
                    assert(t1.at(self.fs as int).mountpoints@.contains_key(found.id));
                    assert(sh[k as int] == t1.at(k as int).shape());
                }
                let root = tree.filesystems[k].inner_fs.root_inode();
                let n = tree.filesystems[k].get_inode_with_cache(root);
                proof {
                    MountTree::lemma_update_one(t1, *tree, k as int);
                }
                Some(n)
            },
            None => Some(found),
        }
    }

    /// The parent of this directory; at the root of a mounted file system, the parent of
    /// its mount point; `None` at the root of the tree.
    pub fn parent<F: FileSystem>(&self, tree: &mut MountTree<F>) -> (r: Option<VirtualIndexNode>)
        requires
            old(tree).wf(),
            old(tree).valid(*self),
            fs_is_dir(&old(tree).at(self.fs as int).inner_fs, self.id),
        ensures
            final(tree).wf(),
            final(tree).grows(old(tree)),
            r.is_none() <==> resolve_parent(old(tree).shapes(), self.fs as int, self.id).is_none(),
            r matches Some(n) ==> resolve_parent(old(tree).shapes(), self.fs as int, self.id) == Some((n.fs as int, n.id)) && !n.weak
                && final(tree).valid(n)
                && fs_is_dir(&final(tree).at(n.fs as int).inner_fs, n.id),
        decreases self.fs,
    {
        let ghost t0 = *tree;
        let ghost sh = t0.shapes();
        assert(sh[self.fs as int] == t0.at(self.fs as int).shape());
        let inode = tree.filesystems[self.fs].inode_cache.get(&self.id).unwrap().inner_locked.inode();
        match tree.filesystems[self.fs].inner_fs.parent(inode) {
            Some(p) => {
                let n = tree.filesystems[self.fs].get_inode_with_cache(p);
                proof {
                    MountTree::lemma_update_one(t0, *tree, self.fs as int);
                }
                Some(n)
            },
            None => {
                match tree.filesystems[self.fs].self_mountpoints {
                    Some(mp) => {
                        proof {
                            assert(t0.valid(mp));
                        }
                        mp.parent(tree)
                    },
                    None => None,
                }
            },
        }
    }

    /// The name of this directory in its parent; for the root of a mounted file system, the
    /// name of its mount point; `None` at the root of the tree or where the parent does not
    /// list it.
    pub fn dir_name<F: FileSystem>(&self, tree: &mut MountTree<F>) -> (r: Option<Vec<u8>>)
        requires
            old(tree).wf(),
            old(tree).valid(*self),
            fs_is_dir(&old(tree).at(self.fs as int).inner_fs, self.id),
        ensures
            final(tree).wf(),
            final(tree).grows(old(tree)),
            match resolve_dir_name(old(tree).shapes(), self.fs as int, self.id) {
                None => r.is_none(),
                Some(name) => r matches Some(v) && v@ == name,
            },
        decreases self.fs,
    {
        let ghost t0 = *tree;
        let ghost sh = t0.shapes();
        assert(sh[self.fs as int] == t0.at(self.fs as int).shape());
        let inode = tree.filesystems[self.fs].inode_cache.get(&self.id).unwrap().inner_locked.inode();
        match tree.filesystems[self.fs].inner_fs.parent(inode) {
            Some(p) => {
                let parent_inode = tree.filesystems[self.fs].get_inode_with_cache(p);
                proof {
                    MountTree::lemma_update_one(t0, *tree, self.fs as int);
                }
                let list = parent_inode.list(&tree.filesystems[self.fs]);
                let ghost l = t0.at(self.fs as int).inner_fs.spec_list(p);
                assert(resolve_dir_name(t0.shapes(), self.fs as int, self.id) == first_name(l, self.id, 0));
                let mut i: usize = 0;
                while i < list.len()
                    invariant
                        tree.wf(),
                        tree.grows(old(tree)),
                        resolve_dir_name(old(tree).shapes(), self.fs as int, self.id) == first_name(l, self.id, 0),
                        i <= list.len(),
                        list@.len() == l.len(),
                        forall|j: int| 0 <= j < list@.len() ==> (#[trigger] list@[j]).0@ == l[j].0 && list@[j].1 == l[j].1,
                        first_name(l, self.id, 0) == first_name(l, self.id, i as int),
                    decreases list.len() - i,
                {
                    if list[i].1 == self.id {
                        let name = crate::utils::sub_bytes(&list[i].0, 0, list[i].0.len());
                        assert(name@ =~= list@[i as int].0@);
                        return Some(name);
                    }
                    i = i + 1;
                }
                None
            },
            None => {
                match tree.filesystems[self.fs].self_mountpoints {
                    Some(mp) => {
                        proof {
                            assert(t0.valid(mp));
                        }
                        mp.dir_name(tree)
                    },
                    None => None,
                }
            },
        }
    }

    /// Mounts `target_fs` on this directory: the directory becomes a mount point leading to
    /// the root of `target_fs`, which takes the next place in the tree and keeps a handle
    /// to this directory. This directory must not be a mount point already, nor the root of
    /// its own file system.
    pub fn mount<F: FileSystem>(&self, tree: &mut MountTree<F>, target_fs: VirtualFileSystem<F>)
        requires
            old(tree).wf(),
            old(tree).valid(*self),
            !self.weak,
            fs_is_dir(&old(tree).at(self.fs as int).inner_fs, self.id),
            !old(tree).at(self.fs as int).mountpoints@.contains_key(self.id),
            self.id != old(tree).at(self.fs as int).inner_fs.spec_root(),
            target_fs.wf(),
            target_fs.mountpoints@ == Map::<u64, usize>::empty(),
            old(tree).len() < usize::MAX,
        ensures
            final(tree).wf(),
            final(tree).len() == old(tree).len() + 1,
            final(tree).shapes() == old(tree).shapes().update(self.fs as int, MountShape {
                mountpoints: old(tree).at(self.fs as int).mountpoints@.insert(self.id, old(tree).len() as usize),
                ..old(tree).at(self.fs as int).shape()
            }).push(MountShape { self_mountpoints: Some(*self), ..target_fs.shape() }),
            final(tree).at(self.fs as int).cache()[self.id].inner_locked
                == cloned_state(old(tree).at(self.fs as int).cache()[self.id].inner_locked),
    {
        let ghost t0 = *tree;
        let idx = tree.filesystems.len();
        let node = self.clone_handle(&mut tree.filesystems[self.fs]);
        tree.filesystems[self.fs].mountpoints.insert(self.id, idx);
        let mut target = target_fs;
        target.self_mountpoints = Some(node);
        target.self_index = idx;
        tree.filesystems.push(target);
        proof {
            let t1 = *tree;
            assert(t1.at(idx as int) == target);
            assert forall|j: int| 0 <= j < t0.len() && j != self.fs implies #[trigger] t1.at(j) == t0.at(j) by {}
            assert(t1.shapes() =~= t0.shapes().update(self.fs as int, MountShape {
                mountpoints: t0.at(self.fs as int).mountpoints@.insert(self.id, idx),
                ..t0.at(self.fs as int).shape()
            }).push(MountShape { self_mountpoints: Some(*self), ..target_fs.shape() }));
            assert forall|k: int| 0 <= k < t1.len() implies {
                let v = #[trigger] t1.at(k);
                &&& v.wf()
                &&& v.self_index == k
                &&& forall|id: u64| #[trigger] v.mountpoints@.contains_key(id) ==> {
                    let m = v.mountpoints@[id];
                    k < m < t1.len()
                }
                &&& v.self_mountpoints matches Some(mp) ==> mp.fs < k && t1.valid(mp)
                    && fs_is_dir(&t1.at(mp.fs as int).inner_fs, mp.id)
            } by {
                if k < idx {
                    let v0 = t0.at(k);
                    if let Some(mp) = v0.self_mountpoints {
                        assert(t0.valid(mp));
                        if mp.fs == self.fs {
                            assert(t1.at(self.fs as int).cache().contains_key(mp.id));
                        }
                    }
                    if k == self.fs {
                        assert forall|x: u64| #[trigger] t1.at(k).mountpoints@.contains_key(x) implies fs_is_dir(&t1.at(k).inner_fs, x) by {
                            if x != self.id {
                                assert(t0.at(k).mountpoints@.contains_key(x));
                            }
                        }
                        assert forall|x: u64| #[trigger] t1.at(k).mountpoints@.contains_key(x) implies {
                            let m = t1.at(k).mountpoints@[x];
                            k < m < t1.len()
                        } by {
                            if x != self.id {
                                assert(t0.at(k).mountpoints@.contains_key(x));
                            }
                        }
                    }
                }
            }
        }
    }
}

/// One step of a path walk from `cur` over component `comp`: an empty component and `.`
/// stay; through anything but a directory there is no way on; `..` goes to the parent;
/// any other name is looked up.
pub open spec fn walk_step<F: FileSystem>(sh: Seq<MountShape<F>>, cur: (int, u64), comp: Seq<u8>) -> Option<(int, u64)> {
    if comp.len() == 0 || comp == seq![46u8] {
        Some(cur)
    } else if !fs_is_dir(&sh[cur.0].inner_fs, cur.1) {
        None
    } else if comp == seq![46u8, 46u8] {
        resolve_parent(sh, cur.0, cur.1)
    } else {
        resolve_find(sh, cur.0, cur.1, comp)
    }
}

/// The walk of `path` from byte `i` on, at `cur`, where the component being read started
/// at `start`: components end at each `/` and at the end of the path.
pub open spec fn walk<F: FileSystem>(sh: Seq<MountShape<F>>, cur: Option<(int, u64)>, path: Seq<u8>, i: int, start: int) -> Option<(int, u64)>
    decreases path.len() - i,
{
    match cur {
        None => None,
        Some(c) => if i >= path.len() {
            walk_step(sh, c, path.subrange(start, path.len() as int))
        } else if path[i] == 47u8 {
            walk(sh, walk_step(sh, c, path.subrange(start, i)), path, i + 1, i + 1)
        } else {
            walk(sh, cur, path, i + 1, start)
        },
    }
}

/// Where `path` leads from `base`: from the root of the tree when it starts with `/`.
pub open spec fn spec_lookup<F: FileSystem>(sh: Seq<MountShape<F>>, base: (int, u64), path: Seq<u8>) -> Option<(int, u64)> {
    let start = if path.len() > 0 && path[0] == 47u8 { (0int, sh[0].inner_fs.spec_root()) } else { base };
    walk(sh, Some(start), path, 0, 0)
}

/// One step of a path walk (see `walk_step`).
fn step_component<F: FileSystem>(tree: &mut MountTree<F>, cur: VirtualIndexNode, comp: &Vec<u8>) -> (r: Option<VirtualIndexNode>)
    requires
        old(tree).wf(),
        old(tree).valid(cur),
        !cur.weak,
    ensures
        final(tree).wf(),
        final(tree).grows(old(tree)),
        r.is_none() <==> walk_step(old(tree).shapes(), (cur.fs as int, cur.id), comp@).is_none(),
        r matches Some(n) ==> walk_step(old(tree).shapes(), (cur.fs as int, cur.id), comp@) == Some((n.fs as int, n.id)) && !n.weak
            && final(tree).valid(n),
{
    let ghost t0 = *tree;
    proof {
        assert(t0.shapes()[cur.fs as int] == t0.at(cur.fs as int).shape());
        assert(t0.grows(&t0));
    }
    if comp.len() == 0 || (comp.len() == 1 && comp[0] == 46u8) {
        proof {
            if comp.len() == 1 {
                assert(comp@ =~= seq![46u8]);
            }
        }
        return Some(cur);
    }
    proof {
        if comp@ == seq![46u8] {
            assert(comp@.len() == 1);
        }
    }
    let meta = cur.metadata(&tree.filesystems[cur.fs]);
    if meta.file_type != FileType::Directory {
        return None;
    }
    if comp.len() == 2 && comp[0] == 46u8 && comp[1] == 46u8 {
        assert(comp@ =~= seq![46u8, 46u8]);
        cur.parent(tree)
    } else {
        proof {
            if comp@ == seq![46u8, 46u8] {
                assert(comp@.len() == 2);
            }
        }
        cur.find(tree, comp)
    }
}

/// The inode that `path` leads to from `base`, following mount points, or `None` where a
/// name is missing, `..` is taken at the root of the tree, or the walk would have to go
/// through something that is not a directory.
pub fn lookup<F: FileSystem>(tree: &mut MountTree<F>, base: VirtualIndexNode, path: &Vec<u8>) -> (r: Option<VirtualIndexNode>)
    requires
        old(tree).wf(),
        old(tree).valid(base),
        !base.weak,
    ensures
        final(tree).wf(),
        final(tree).grows(old(tree)),
        r.is_none() <==> spec_lookup(old(tree).shapes(), (base.fs as int, base.id), path@).is_none(),
        r matches Some(n) ==> spec_lookup(old(tree).shapes(), (base.fs as int, base.id), path@) == Some((n.fs as int, n.id)) && !n.weak
            && final(tree).valid(n),
{
    let ghost t0 = *tree;
    let ghost sh = t0.shapes();
    let mut current = if path.len() > 0 && path[0] == 47u8 {
        tree.root()
    } else {
        base
    };
    proof {
        assert(tree.grows(&t0));
        assert(sh[0] == t0.at(0).shape());
    }
    let mut i: usize = 0;
    let mut start: usize = 0;
    while i < path.len()
        invariant
            tree.wf(),
            tree.grows(old(tree)),
            sh == old(tree).shapes(),
            tree.valid(current),
            !current.weak,
            start <= i <= path.len(),
            walk(sh, Some((current.fs as int, current.id)), path@, i as int, start as int)
                == spec_lookup(sh, (base.fs as int, base.id), path@),
        decreases path.len() - i,
    {
        let ghost c = (current.fs as int, current.id);
        if path[i] == 47u8 {
            let comp = crate::utils::sub_bytes(path, start, i);
            let ghost t1 = *tree;
            assert(walk(sh, Some(c), path@, i as int, start as int)
                == walk(sh, walk_step(sh, c, comp@), path@, i + 1, i + 1));
            let next = step_component(tree, current, &comp);
            current = match next {
                Some(n) => n,
                None => {
                    return None;
                },
            };
            start = i + 1;
        } else {
            assert(walk(sh, Some(c), path@, i as int, start as int)
                == walk(sh, Some(c), path@, i + 1, start as int));
        }
        i = i + 1;
    }
    let comp = crate::utils::sub_bytes(path, start, path.len());
    step_component(tree, current, &comp)
}

impl<F: FileSystem> MountTree<F> {
    /// Going to the parent gets closer to the root of the tree: to an earlier file system,
    /// or within the same one to a directory closer to its root.
    pub proof fn lemma_parent_closer(&self, k: int, dir: u64)
        requires
            self.wf(),
            0 <= k < self.len(),
            self.at(k).inner_fs.has(dir),
        ensures
            resolve_parent(self.shapes(), k, dir) matches Some((k2, p)) ==> 0 <= k2 < self.len() && (k2 < k
                || (k2 == k && self.at(k).inner_fs.spec_depth(p) < self.at(k).inner_fs.spec_depth(dir))),
        decreases k,
    {
        let sh = self.shapes();
        assert(sh[k] == self.at(k).shape());
        self.at(k).inner_fs.lemma_parent_depth(dir);
        if sh[k].inner_fs.spec_parent(dir).is_none() {
            if let Some(mp) = sh[k].self_mountpoints {
                if 0 <= mp.fs < k {
                    assert(self.valid(mp));
                    self.lemma_parent_closer(mp.fs as int, mp.id);
                }
            }
        }
    }
}

} // verus!
