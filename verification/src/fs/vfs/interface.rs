//! What the virtual file system asks of, and gets from, the file systems beneath it.
use vstd::prelude::*;

verus! {

/// The kind of an inode.
#[derive(Clone, Copy, Debug, PartialEq, Eq, Structural)]
pub enum FileType {
    File,
    Directory,
}

/// What the virtual file system learns about an inode.
#[derive(Clone, Copy, Debug, PartialEq, Eq, Structural)]
pub struct Metadata {
    pub file_type: FileType,
    /// The size of a file in bytes; for a directory, a count that depends on the file system.
    pub size: usize,
}

/// One entry of a directory listing.
#[derive(Clone, Debug)]
pub struct DirectoryEntry {
    /// The entry's name, as bytes.
    pub name: Vec<u8>,
    /// Where the listing continues after this entry.
    pub offset_cookie: u64,
    /// The inode that the entry names.
    pub inode: u64,
    pub file_type: FileType,
}

} // verus!

verus! {

/// A directory listing entry as a value: name, inode, where the listing goes on, kind.
pub struct EntryView {
    pub name: Seq<u8>,
    pub inode: u64,
    pub offset_cookie: u64,
    pub file_type: FileType,
}

impl DirectoryEntry {
    pub open spec fn view(&self) -> EntryView {
        EntryView { name: self.name@, inode: self.inode, offset_cookie: self.offset_cookie, file_type: self.file_type }
    }
}

/// A file system beneath the virtual file system: inodes named by number, each a file
/// (bytes) or a directory (named entries).
pub trait FileSystem: Sized {
    /// The file system's own invariant.
    spec fn inv(&self) -> bool;

    /// Whether inode `id` exists.
    spec fn has(&self, id: u64) -> bool;

    spec fn spec_root(&self) -> u64;

    spec fn spec_metadata(&self, id: u64) -> Metadata;

    /// The bytes of file `id`.
    spec fn spec_content(&self, id: u64) -> Seq<u8>;

    /// The inode that directory `dir` names `name`, if any.
    spec fn spec_find(&self, dir: u64, name: Seq<u8>) -> Option<u64>;

    /// The parent of directory `dir`; `None` at the root.
    spec fn spec_parent(&self, dir: u64) -> Option<u64>;

    /// How far inode `id` is from the root; a parent is closer than its child.
    spec fn spec_depth(&self, id: u64) -> nat;

    /// The entries of directory `dir`, in listing order: name and inode.
    spec fn spec_list(&self, dir: u64) -> Seq<(Seq<u8>, u64)>;

    /// The entry of directory `dir` at `offset_cookie`, if the listing has one there.
    spec fn spec_read_dir(&self, dir: u64, offset_cookie: u64) -> Option<EntryView>;

    /// A parent is closer to the root than its child.
    proof fn lemma_parent_depth(&self, dir: u64)
        requires
            self.inv(),
            self.has(dir),
        ensures
            self.spec_parent(dir) matches Some(p) ==> self.spec_depth(p) < self.spec_depth(dir)
                && self.has(p) && self.spec_metadata(p).file_type == FileType::Directory,
    ;

    /// The number of the root directory.
    fn root_inode(&self) -> (r: u64)
        requires
            self.inv(),
        ensures
            r == self.spec_root(),
            (self.has(r) && self.spec_metadata(r).file_type == FileType::Directory),
    ;

    /// The file system's name.
    fn name(&self) -> &'static str;

    /// The kind and size of inode `id`; a file's size is its length in bytes.
    fn metadata(&self, id: u64) -> (r: Metadata)
        requires
            self.inv(),
            self.has(id),
        ensures
            r == self.spec_metadata(id),
            r.file_type == FileType::File ==> r.size == self.spec_content(id).len(),
    ;

    /// The inode that directory `dir` names `name`, if any.
    fn find(&self, dir: u64, name: &Vec<u8>) -> (r: Option<u64>)
        requires
            self.inv(),
            (self.has(dir) && self.spec_metadata(dir).file_type == FileType::Directory),
        ensures
            r == self.spec_find(dir, name@),
            r matches Some(id) ==> self.has(id),
    ;

    /// The parent of directory `dir`, or `None` at the root.
    fn parent(&self, dir: u64) -> (r: Option<u64>)
        requires
            self.inv(),
            (self.has(dir) && self.spec_metadata(dir).file_type == FileType::Directory),
        ensures
            r == self.spec_parent(dir),
            r matches Some(p) ==> (self.has(p) && self.spec_metadata(p).file_type == FileType::Directory),
            r matches Some(p) ==> self.spec_depth(p) < self.spec_depth(dir),
            r.is_none() <==> dir == self.spec_root(),
    ;

    /// The entries of directory `dir`: name and inode, in listing order.
    fn list(&self, dir: u64) -> (r: Vec<(Vec<u8>, u64)>)
        requires
            self.inv(),
            (self.has(dir) && self.spec_metadata(dir).file_type == FileType::Directory),
        ensures
            r@.len() == self.spec_list(dir).len(),
            forall|i: int| 0 <= i < r@.len() ==> (#[trigger] r@[i]).0@ == self.spec_list(dir)[i].0
                && r@[i].1 == self.spec_list(dir)[i].1,
    ;

    /// The entry of directory `dir` at `offset_cookie`, or `None` past the last one.
    fn read_dir(&self, dir: u64, offset_cookie: u64) -> (r: Option<DirectoryEntry>)
        requires
            self.inv(),
            (self.has(dir) && self.spec_metadata(dir).file_type == FileType::Directory),
        ensures
            r matches Some(e) ==> self.spec_read_dir(dir, offset_cookie) == Some(e.view()),
            r.is_none() ==> self.spec_read_dir(dir, offset_cookie).is_none(),
    ;

    /// Reads `buf.len()` bytes of file `id` from `offset`; the range lies within the file.
    fn read_at(&self, id: u64, offset: usize, buf: &mut Vec<u8>)
        requires
            self.inv(),
            (self.has(id) && self.spec_metadata(id).file_type == FileType::File),
            offset + old(buf).len() <= self.spec_content(id).len(),
        ensures
            final(buf)@ == self.spec_content(id).subrange(offset as int, offset + old(buf).len()),
    ;

    /// Writes `buf` into file `id` at `offset`; the range lies within the file.
    fn write_at(&mut self, id: u64, offset: usize, buf: &Vec<u8>)
        requires
            old(self).inv(),
            old(self).has(id) && old(self).spec_metadata(id).file_type == FileType::File,
            offset + buf.len() <= old(self).spec_content(id).len(),
        ensures
            final(self).inv(),
            forall|i: u64| #[trigger] final(self).has(i) == old(self).has(i),
            forall|i: u64| #[trigger] final(self).spec_metadata(i).file_type == old(self).spec_metadata(i).file_type,
            forall|i: u64| old(self).spec_metadata(i).file_type == FileType::Directory
                ==> #[trigger] final(self).spec_metadata(i) == old(self).spec_metadata(i),
            forall|d: u64, n: Seq<u8>| #[trigger] final(self).spec_find(d, n) == old(self).spec_find(d, n),
            forall|d: u64| #[trigger] final(self).spec_parent(d) == old(self).spec_parent(d),
            forall|d: u64| #[trigger] final(self).spec_depth(d) == old(self).spec_depth(d),
            forall|d: u64| #[trigger] final(self).spec_list(d) == old(self).spec_list(d),
            forall|d: u64, c: u64| #[trigger] final(self).spec_read_dir(d, c) == old(self).spec_read_dir(d, c),
            final(self).spec_root() == old(self).spec_root(),
            final(self).spec_content(id) == old(self).spec_content(id).subrange(0, offset as int)
                + buf@ + old(self).spec_content(id).subrange(offset + buf.len(), old(self).spec_content(id).len() as int),
            forall|o: u64| o != id ==> #[trigger] final(self).spec_content(o) == old(self).spec_content(o),
            forall|o: u64| o != id ==> #[trigger] final(self).spec_metadata(o) == old(self).spec_metadata(o),
    ;

    /// Sets the size of file `id`: cut to `new_size` bytes, or grown with zeros.
    fn resize(&mut self, id: u64, new_size: usize)
        requires
            old(self).inv(),
            old(self).has(id) && old(self).spec_metadata(id).file_type == FileType::File,
        ensures
            final(self).inv(),
            forall|i: u64| #[trigger] final(self).has(i) == old(self).has(i),
            forall|i: u64| #[trigger] final(self).spec_metadata(i).file_type == old(self).spec_metadata(i).file_type,
            forall|i: u64| old(self).spec_metadata(i).file_type == FileType::Directory
                ==> #[trigger] final(self).spec_metadata(i) == old(self).spec_metadata(i),
            forall|d: u64, n: Seq<u8>| #[trigger] final(self).spec_find(d, n) == old(self).spec_find(d, n),
            forall|d: u64| #[trigger] final(self).spec_parent(d) == old(self).spec_parent(d),
            forall|d: u64| #[trigger] final(self).spec_depth(d) == old(self).spec_depth(d),
            forall|d: u64| #[trigger] final(self).spec_list(d) == old(self).spec_list(d),
            forall|d: u64, c: u64| #[trigger] final(self).spec_read_dir(d, c) == old(self).spec_read_dir(d, c),
            final(self).spec_root() == old(self).spec_root(),
            final(self).spec_content(id) == resized(old(self).spec_content(id), new_size as nat),
            forall|o: u64| o != id ==> #[trigger] final(self).spec_content(o) == old(self).spec_content(o),
            forall|o: u64| o != id ==> #[trigger] final(self).spec_metadata(o) == old(self).spec_metadata(o),
    ;
}

/// Inode `id` of `fs` exists and is a directory.
pub open spec fn fs_is_dir<F: FileSystem>(fs: &F, id: u64) -> bool {
    fs.has(id) && fs.spec_metadata(id).file_type == FileType::Directory
}

/// Inode `id` of `fs` exists and is a file.
pub open spec fn fs_is_file<F: FileSystem>(fs: &F, id: u64) -> bool {
    fs.has(id) && fs.spec_metadata(id).file_type == FileType::File
}

/// `a` and `b` have the same inodes, kinds and directories.
pub open spec fn same_tree<F: FileSystem>(a: &F, b: &F) -> bool {
    &&& forall|id: u64| #[trigger] a.has(id) == b.has(id)
    &&& forall|id: u64| #[trigger] a.spec_metadata(id).file_type == b.spec_metadata(id).file_type
    &&& forall|id: u64| a.spec_metadata(id).file_type == FileType::Directory
        ==> #[trigger] a.spec_metadata(id) == b.spec_metadata(id)
    &&& forall|d: u64, n: Seq<u8>| #[trigger] a.spec_find(d, n) == b.spec_find(d, n)
    &&& forall|d: u64| #[trigger] a.spec_parent(d) == b.spec_parent(d)
    &&& forall|d: u64| #[trigger] a.spec_depth(d) == b.spec_depth(d)
    &&& forall|d: u64| #[trigger] a.spec_list(d) == b.spec_list(d)
    &&& forall|d: u64, c: u64| #[trigger] a.spec_read_dir(d, c) == b.spec_read_dir(d, c)
    &&& a.spec_root() == b.spec_root()
}

/// `s` cut to `n` bytes, or grown to `n` bytes with zeros.
pub open spec fn resized(s: Seq<u8>, n: nat) -> Seq<u8> {
    Seq::new(n, |i: int| if i < s.len() { s[i] } else { 0u8 })
}

} // verus!
