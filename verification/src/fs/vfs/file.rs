//! An open file of the virtual file system: an inode and a position in it.
use vstd::prelude::*;
use crate::error::SystemError;
use crate::fs::vfs::{MountTree, VirtualFileSystem, VirtualIndexNode};
use crate::fs::vfs::interface::{FileSystem, FileType, resized};
use crate::fs::vfs::page_cache::{overwrite, page_of, span, touched};

verus! {

/// Where a seek goes: to a position, by an amount from the current position, or by an
/// amount from the end of the file.
#[derive(Clone, Copy, Debug, PartialEq, Eq, Structural)]
pub enum FileSeekMethod {
    Absolute(usize),
    Relative(isize),
    End(isize),
}

/// An open file: its inode and the position of the next read or write.
#[derive(Clone, Copy, Debug, PartialEq, Eq, Structural)]
pub struct VirtualFile {
    pub offset: usize,
    pub inode: VirtualIndexNode,
}

/// What reads of file `id` see once it has been grown to `n` bytes: the bytes seen before
/// up to the old end; past it, the cached page where there is one, else zeros.
pub open spec fn grown_seen<F: FileSystem>(v: VirtualFileSystem<F>, id: u64, n: nat) -> Seq<u8> {
    let size = v.inner_fs.spec_content(id).len();
    Seq::new(n, |i: int|
        if i < size {
            v.seen(id)[i]
        } else if v.pc(id).table@.contains_key(page_of(i)) {
            v.pc(id).table@[page_of(i)].frame->0@[i - page_of(i)]
        } else {
            0u8
        })
}

/// What `read` does: `EISDIR` for a directory, changing nothing; for a file, reads what
/// reads see from the position on into the buffer, as far as the file goes, and moves the
/// position past it; only the page cache of that file changes.
pub open spec fn read_result<F: FileSystem>(t0: MountTree<F>, t1: MountTree<F>, f0: VirtualFile, f1: VirtualFile,
    b0: Seq<u8>, b1: Seq<u8>, r: Result<usize, SystemError>) -> bool
{
    let k = f0.inode.fs as int;
    let id = f0.inode.id;
    let v0 = t0.at(k);
    if v0.inner_fs.spec_metadata(id).file_type != FileType::File {
        &&& r == Err::<usize, SystemError>(SystemError::EISDIR)
        &&& t1 == t0
        &&& f1 == f0
        &&& b1 == b0
    } else {
        let n = span(f0.offset as int, b0.len() as int, v0.inner_fs.spec_content(id).len() as int);
        &&& r == Ok::<usize, SystemError>(n as usize)
        &&& f1.offset == f0.offset + n
        &&& b1.len() == b0.len()
        &&& forall|j: int| 0 <= j < n ==> #[trigger] b1[j] == v0.seen(id)[f0.offset + j]
        &&& forall|j: int| n <= j < b0.len() ==> #[trigger] b1[j] == b0[j]
        &&& t1.wf()
        &&& t1.grows(&t0)
        &&& t1.filesystems@ == t0.filesystems@.update(k, t1.at(k))
        &&& t1.at(k).same_but_pages(&v0, id, true)
        &&& t1.at(k).seen(id) == v0.seen(id)
        &&& t1.at(k).pc(id).dirty@ == v0.pc(id).dirty@
    }
}

/// What `write` does: `EISDIR` for a directory, changing nothing; for a file that ends at
/// or before the position, first grows it to end one byte past the position; then writes
/// `data` from the position on, as far as the file goes, into the page cache (marking the
/// pages dirty) and moves the position past it.
pub open spec fn write_result<F: FileSystem>(t0: MountTree<F>, t1: MountTree<F>, f0: VirtualFile, f1: VirtualFile,
    data: Seq<u8>, r: Result<usize, SystemError>) -> bool
{
    let k = f0.inode.fs as int;
    let id = f0.inode.id;
    let v0 = t0.at(k);
    let size0 = v0.inner_fs.spec_content(id).len();
    let grow = f0.offset >= size0;
    let size1 = if grow { f0.offset + 1 } else { size0 as int };
    if v0.inner_fs.spec_metadata(id).file_type != FileType::File {
        &&& r == Err::<usize, SystemError>(SystemError::EISDIR)
        &&& t1 == t0
        &&& f1 == f0
    } else {
        let n = span(f0.offset as int, data.len() as int, size1);
        &&& r == Ok::<usize, SystemError>(n as usize)
        &&& f1.inode == f0.inode
        &&& f1.offset == f0.offset + n
        &&& t1.wf()
        &&& t1.shapes().len() == t0.shapes().len()
        &&& t1.at(k).cache().dom() == v0.cache().dom()
        &&& t1.at(k).mountpoints@ == v0.mountpoints@
        &&& t1.at(k).self_mountpoints == v0.self_mountpoints
        &&& crate::fs::vfs::interface::same_tree(&t1.at(k).inner_fs, &v0.inner_fs)
        &&& t1.filesystems@ == t0.filesystems@.update(k, t1.at(k))
        &&& t1.at(k).inner_fs.spec_content(id) == (if grow {
            resized(v0.inner_fs.spec_content(id), size1 as nat) } else { v0.inner_fs.spec_content(id) })
        &&& t1.at(k).seen(id) == overwrite(
            if grow { grown_seen(v0, id, size1 as nat) } else { v0.seen(id) },
            f0.offset as int, data.subrange(0, n))
        &&& t1.at(k).pc(id).dirty@ == v0.pc(id).dirty@.union(touched(f0.offset as int, n))
    }
}

impl VirtualFile {
    /// An open file at position 0.
    pub fn new(inode: VirtualIndexNode) -> (r: Self)
        ensures
            r.offset == 0,
            r.inode == inode,
    {
        VirtualFile { offset: 0, inode }
    }

    /// Reads from the current position into `buf`, as far as the file goes, and moves the
    /// position past what was read. `EISDIR` for a directory.
    pub fn read<F: FileSystem>(&mut self, tree: &mut MountTree<F>, buf: &mut Vec<u8>) -> (r: Result<usize, SystemError>)
        requires
            old(tree).wf(),
            old(tree).valid(old(self).inode),
        ensures
            final(self).inode == old(self).inode,
            read_result(*old(tree), *final(tree), *old(self), *final(self), old(buf)@, final(buf)@, r),
    {
        let ghost t0 = *tree;
        let k = self.inode.fs;
        let meta = self.inode.metadata(&tree.filesystems[k]);
        if meta.file_type != FileType::File {
            return Err(SystemError::EISDIR);
        }
        let len = self.inode.read_at(&mut tree.filesystems[k], self.offset, buf);
        proof {
            lemma_one_fs_changed(t0, *tree, k as int, self.inode.id);
        }
        self.offset = self.offset + len;
        Ok(len)
    }

    /// Writes `buf` at the current position, as far as the file goes, and moves the position
    /// past what was written; a file whose end is at or before the position is first grown
    /// to end one byte past it. `EISDIR` for a directory.
    pub fn write<F: FileSystem>(&mut self, tree: &mut MountTree<F>, buf: &Vec<u8>) -> (r: Result<usize, SystemError>)
        requires
            old(tree).wf(),
            old(tree).valid(old(self).inode),
            old(self).offset < usize::MAX,
        ensures
            final(self).inode == old(self).inode,
            write_result(*old(tree), *final(tree), *old(self), *final(self), buf@, r),
    {
        let ghost t0 = *tree;
        let k = self.inode.fs;
        let ghost id = self.inode.id;
        let ghost v0 = t0.at(k as int);
        let meta = self.inode.metadata(&tree.filesystems[k]);
        if meta.file_type != FileType::File {
            return Err(SystemError::EISDIR);
        }
        let file_size = meta.size;
        let now_offset = self.offset;
        if now_offset >= file_size {
            self.inode.resize(&mut tree.filesystems[k], now_offset + 1);
            proof {
                let v1 = tree.at(k as int);
                assert forall|i: int| 0 <= i < now_offset + 1 implies #[trigger] v1.seen(id)[i]
                    == grown_seen(v0, id, (now_offset + 1) as nat)[i] by {
                    crate::fs::vfs::page_cache::lemma_page_of_range(i);
                    assert(v1.seen(id)[i] == v1.seen_byte(id, i));
                    if i < file_size {
                        assert(v0.seen(id)[i] == v0.seen_byte(id, i));
                    }
                }
                assert(v1.seen(id) =~= grown_seen(v0, id, (now_offset + 1) as nat));
                lemma_fs_changed_wf(t0, *tree, k as int);
            }
        }
        let ghost t1 = *tree;
        let len = self.inode.write_at(&mut tree.filesystems[k], now_offset, buf);
        proof {
            lemma_fs_changed_wf(t1, *tree, k as int);
            assert(tree.filesystems@ =~= t0.filesystems@.update(k as int, tree.at(k as int)));
        }
        self.offset = self.offset + len;
        Ok(len)
    }

    /// Moves the position: to `pos`; by `off` from the current position (to 0 where that
    /// would go below 0); or by `off` from the end of the file. Gives the new position.
    pub fn seek<F: FileSystem>(&mut self, tree: &MountTree<F>, method: FileSeekMethod) -> (r: Result<usize, SystemError>)
        requires
            tree.wf(),
            tree.valid(old(self).inode),
            method matches FileSeekMethod::Relative(off) ==> isize::MIN <= (old(self).offset as isize) + off <= isize::MAX,
            method matches FileSeekMethod::End(off) ==> isize::MIN
                <= (tree.at(old(self).inode.fs as int).inner_fs.spec_metadata(old(self).inode.id).size as isize) + off
                <= isize::MAX,
        ensures
            final(self).inode == old(self).inode,
            r == Ok::<usize, SystemError>(final(self).offset),
            final(self).offset == match method {
                FileSeekMethod::Absolute(pos) => pos,
                FileSeekMethod::Relative(off) => if off < 0 && (old(self).offset as int) < -(off as int) {
                    0usize
                } else {
                    ((old(self).offset as isize) + off) as isize as usize
                },
                FileSeekMethod::End(off) => ((tree.at(old(self).inode.fs as int).inner_fs
                    .spec_metadata(old(self).inode.id).size as isize) + off) as isize as usize,
            },
    {
        let pos = match method {
            FileSeekMethod::Absolute(pos) => pos,
            FileSeekMethod::Relative(off) => {
                if off < 0 && (self.offset as u128) < (0i128 - off as i128) as u128 {
                    0
                } else {
                    ((self.offset as isize) + off) as usize
                }
            },
            FileSeekMethod::End(off) => {
                let k = self.inode.fs;
                let size = self.inode.metadata(&tree.filesystems[k]).size;
                ((size as isize) + off) as usize
            },
        };
        self.offset = pos;
        Ok(pos)
    }
}

/// A change to file system `k` alone, that keeps its shape and its well-formedness and
/// caches no fewer inodes, keeps the tree well formed.
proof fn lemma_fs_changed_wf<F: FileSystem>(t0: MountTree<F>, t1: MountTree<F>, k: int)
    requires
        t0.wf(),
        0 <= k < t0.len(),
        t1.filesystems@ == t0.filesystems@.update(k, t1.at(k)),
        t1.at(k).wf(),
        t1.at(k).self_index == k,
        t1.at(k).mountpoints@ == t0.at(k).mountpoints@,
        t1.at(k).self_mountpoints == t0.at(k).self_mountpoints,
        t1.at(k).cache().dom() == t0.at(k).cache().dom(),
        same_tree_dirs(&t1.at(k).inner_fs, &t0.at(k).inner_fs),
    ensures
        t1.wf(),
{
    assert forall|j: int| 0 <= j < t1.len() implies {
        let v = #[trigger] t1.at(j);
        &&& v.wf()
        &&& v.self_index == j
        &&& forall|id: u64| #[trigger] v.mountpoints@.contains_key(id) ==> {
            let m = v.mountpoints@[id];
            j < m < t1.len()
        }
        &&& v.self_mountpoints matches Some(mp) ==> mp.fs < j && t1.valid(mp)
            && crate::fs::vfs::interface::fs_is_dir(&t1.at(mp.fs as int).inner_fs, mp.id)
    } by {
        if j != k {
            assert(t1.at(j) == t0.at(j));
        }
        if let Some(mp) = t0.at(j).self_mountpoints {
            assert(t0.valid(mp));
            if mp.fs as int == k {
                assert(t0.at(k).inner_fs.has(mp.id));
            }
        }
    }
}

/// Two versions of a file system agree on which inodes exist and which are directories.
pub open spec fn same_tree_dirs<F: FileSystem>(a: &F, b: &F) -> bool {
    &&& forall|id: u64| #[trigger] a.has(id) == b.has(id)
    &&& forall|id: u64| #[trigger] a.spec_metadata(id).file_type == b.spec_metadata(id).file_type
}

/// A read changes the page cache of one file of one file system, and nothing else.
proof fn lemma_one_fs_changed<F: FileSystem>(t0: MountTree<F>, t1: MountTree<F>, k: int, id: u64)
    requires
        t0.wf(),
        0 <= k < t0.len(),
        t1.filesystems@ == t0.filesystems@.update(k, t1.at(k)),
        t1.at(k).wf(),
        t1.at(k).same_but_pages(&t0.at(k), id, true),
    ensures
        t1.wf(),
        t1.grows(&t0),
{
    assert(t1.at(k).shape() == t0.at(k).shape());
    assert(t1.shapes() =~= t0.shapes());
    lemma_fs_changed_wf(t0, t1, k);
    assert forall|j: int, x: u64| 0 <= j < t0.len() && #[trigger] t0.at(j).cache().contains_key(x)
        implies t1.at(j).cache().contains_key(x) by {
        if j != k {
            assert(t1.at(j) == t0.at(j));
        }
    }
}

} // verus!
