//! A file system held in memory: directories of named entries and files of bytes.
use vstd::prelude::*;
use std::collections::BTreeMap;
use crate::fs::vfs::interface::{DirectoryEntry, EntryView, FileSystem, FileType, Metadata, resized};
use crate::fs::block_device::copy_bytes;
use crate::utils::{bytes_eq, sub_bytes};

verus! {

broadcast use {vstd::std_specs::btree::group_btree_axioms, vstd::laws_cmp::group_laws_cmp};

/// Byte strings ordered byte by byte from position `i` on; a proper prefix comes first.
pub open spec fn bytes_lt_from(a: Seq<u8>, b: Seq<u8>, i: int) -> bool
    decreases a.len() - i,
{
    if i >= a.len() {
        i < b.len()
    } else if i >= b.len() {
        false
    } else if a[i] < b[i] {
        true
    } else if a[i] > b[i] {
        false
    } else {
        bytes_lt_from(a, b, i + 1)
    }
}

/// `a` comes before `b` in byte order.
pub open spec fn bytes_lt(a: Seq<u8>, b: Seq<u8>) -> bool {
    bytes_lt_from(a, b, 0)
}

/// The order of directory entries: by name, and a directory before a file of the same name.
pub open spec fn key_lt(n1: Seq<u8>, f1: bool, n2: Seq<u8>, f2: bool) -> bool {
    bytes_lt(n1, n2) || (n1 == n2 && !f1 && f2)
}

proof fn lemma_bytes_total(a: Seq<u8>, b: Seq<u8>, i: int)
    requires
        0 <= i <= a.len(),
        i <= b.len(),
        a.subrange(0, i) == b.subrange(0, i),
        a != b,
        !bytes_lt_from(a, b, i),
    ensures
        bytes_lt_from(b, a, i),
    decreases a.len() - i,
{
    if i >= a.len() {
        if i >= b.len() {
            assert(a =~= a.subrange(0, i));
            assert(b =~= b.subrange(0, i));
        }
    } else if i < b.len() && a[i] == b[i] {
        assert(a.subrange(0, i + 1) =~= a.subrange(0, i).push(a[i]));
        assert(b.subrange(0, i + 1) =~= b.subrange(0, i).push(b[i]));
        lemma_bytes_total(a, b, i + 1);
    }
}

/// Whether `a` comes before `b` in byte order.
fn bytes_less(a: &Vec<u8>, b: &Vec<u8>) -> (r: bool)
    ensures
        r == bytes_lt(a@, b@),
{
    let mut i: usize = 0;
    while i < a.len() && i < b.len()
        invariant
            i <= a.len(),
            i <= b.len(),
            bytes_lt(a@, b@) == bytes_lt_from(a@, b@, i as int),
        decreases a.len() - i,
    {
        if a[i] < b[i] {
            return true;
        }
        if a[i] > b[i] {
            return false;
        }
        i = i + 1;
    }
    i < b.len()
}

/// A named entry of a directory: whether it is a file, and its inode.
pub struct RamDirEntry {
    pub name: Vec<u8>,
    pub is_file: bool,
    pub id: u64,
}

/// What an inode holds: the bytes of a file, or a directory's entries in order.
pub enum RamFSInodeType {
    File(Vec<u8>),
    Directory(Vec<RamDirEntry>),
}

/// An inode: its number, its parent directory (none for the root) and its contents.
pub struct RamFSInode {
    pub parent: Option<u64>,
    pub inner: RamFSInodeType,
    pub id: u64,
}

/// The file system: its inodes by number, and the next unused number.
pub struct RamFS {
    inode_map: BTreeMap<u64, RamFSInode>,
    unused_id: u64,
}

/// The entries are in strictly increasing order.
pub open spec fn sorted(es: Seq<RamDirEntry>) -> bool {
    forall|i: int| 0 <= i < es.len() - 1
        ==> key_lt(#[trigger] es[i].name@, es[i].is_file, es[i + 1].name@, es[i + 1].is_file)
}

/// The first entry from `i` on named `name` whose kind is `is_file`.
pub open spec fn first_entry(es: Seq<RamDirEntry>, name: Seq<u8>, is_file: bool, i: int) -> Option<u64>
    decreases es.len() - i,
{
    if i < 0 || i >= es.len() {
        None
    } else if es[i].name@ == name && es[i].is_file == is_file {
        Some(es[i].id)
    } else {
        first_entry(es, name, is_file, i + 1)
    }
}

/// The entry as a value: name, kind, inode.
pub open spec fn ev(e: RamDirEntry) -> (Seq<u8>, bool, u64) {
    (e.name@, e.is_file, e.id)
}

/// The entries as values.
pub open spec fn evs(es: Seq<RamDirEntry>) -> Seq<(Seq<u8>, bool, u64)> {
    es.map_values(|e: RamDirEntry| ev(e))
}

proof fn lemma_first_entry_none(es: Seq<RamDirEntry>, name: Seq<u8>, is_file: bool, i: int, j: int)
    requires
        0 <= i <= j < es.len(),
        first_entry(es, name, is_file, i).is_none(),
    ensures
        !(es[j].name@ == name && es[j].is_file == is_file),
    decreases j - i,
{
    if i < j {
        lemma_first_entry_none(es, name, is_file, i + 1, j);
    }
}

proof fn lemma_key_total(n1: Seq<u8>, f1: bool, n2: Seq<u8>, f2: bool)
    requires
        !(n1 == n2 && f1 == f2),
        !key_lt(n1, f1, n2, f2),
    ensures
        key_lt(n2, f2, n1, f1),
{
    if n1 != n2 {
        assert(n1.subrange(0, 0) =~= n2.subrange(0, 0));
        lemma_bytes_total(n1, n2, 0);
    }
}

impl RamFSInode {
    pub open spec fn spec_id(&self) -> u64 {
        self.id
    }

    pub open spec fn spec_parent(&self) -> Option<u64> {
        self.parent
    }

    pub open spec fn spec_inner(&self) -> &RamFSInodeType {
        &self.inner
    }

    /// The entries of a directory; empty for a file.
    pub open spec fn entries(&self) -> Seq<RamDirEntry> {
        match self.inner {
            RamFSInodeType::Directory(es) => es@,
            RamFSInodeType::File(_) => Seq::empty(),
        }
    }

    pub open spec fn is_dir_node(&self) -> bool {
        self.inner is Directory
    }
}

impl RamFS {
    pub closed spec fn nodes(&self) -> Map<u64, RamFSInode> {
        self.inode_map@
    }

    pub closed spec fn spec_unused_id(&self) -> u64 {
        self.unused_id
    }

    pub open spec fn node_ok(&self, id: u64) -> bool {
        let n = self.nodes()[id];
        &&& n.id == id
        &&& id < self.spec_unused_id()
        &&& (id == 0) == n.parent.is_none()
        &&& n.parent matches Some(p) ==> self.nodes().contains_key(p) && self.nodes()[p].is_dir_node() && p < id
        &&& n.is_dir_node() ==> sorted(n.entries())
        &&& forall|i: int| 0 <= i < n.entries().len() ==> {
            let e = #[trigger] n.entries()[i];
            &&& self.nodes().contains_key(e.id)
            &&& e.is_file == !self.nodes()[e.id].is_dir_node()
        }
    }

    pub open spec fn wf(&self) -> bool {
        &&& self.nodes().contains_key(0)
        &&& self.nodes()[0].is_dir_node()
        &&& forall|id: u64| #[trigger] self.nodes().contains_key(id) ==> self.node_ok(id)
    }

    /// A file system that holds only an empty root directory; gives the file system and
    /// the number of its root.
    pub fn new() -> (r: (Self, u64))
        ensures
            r.0.wf(),
            r.1 == 0,
            r.0.spec_unused_id() == 1,
            r.0.nodes().dom() == set![0u64],
            r.0.nodes()[0].entries().len() == 0,
    {
        let mut inode_map: BTreeMap<u64, RamFSInode> = BTreeMap::new();
        inode_map.insert(0, RamFSInode { parent: None, inner: RamFSInodeType::Directory(Vec::new()), id: 0 });
        let fs = RamFS { inode_map, unused_id: 1 };
        assert(fs.nodes().dom() =~= set![0u64]);
        (fs, 0)
    }

    /// Hands out the next unused inode number.
    pub fn alloc_id(&mut self) -> (r: u64)
        requires
            old(self).spec_unused_id() < u64::MAX,
        ensures
            r == old(self).spec_unused_id(),
            final(self).spec_unused_id() == old(self).spec_unused_id() + 1,
            final(self).nodes() == old(self).nodes(),
    {
        let res = self.unused_id;
        self.unused_id = self.unused_id + 1;
        res
    }

    /// Where an entry `(name, is_file)` goes among `es`: after every entry before it.
    fn insert_position(es: &Vec<RamDirEntry>, name: &Vec<u8>, is_file: bool) -> (r: usize)
        ensures
            r <= es.len(),
            forall|i: int| 0 <= i < r ==> key_lt(#[trigger] es@[i].name@, es@[i].is_file, name@, is_file),
            r < es.len() ==> !key_lt(es@[r as int].name@, es@[r as int].is_file, name@, is_file),
    {
        let mut i: usize = 0;
        while i < es.len()
            invariant
                i <= es.len(),
                forall|j: int| 0 <= j < i ==> key_lt(#[trigger] es@[j].name@, es@[j].is_file, name@, is_file),
            decreases es.len() - i,
        {
            let e = &es[i];
            let lt = bytes_less(&e.name, name) || (bytes_eq(&e.name, name) && !e.is_file && is_file);
            if !lt {
                return i;
            }
            i = i + 1;
        }
        i
    }
}

impl RamFSInode {
    /// Adds entry `(name, is_file)` for a new inode holding `inner` to directory `dir`, and
    /// gives the new inode's number.
    #[verifier::spinoff_prover]
    #[verifier::rlimit(40)]
    fn push_entry(fs: &mut RamFS, dir: u64, name: Vec<u8>, inner: RamFSInodeType) -> (r: u64)
        requires
            old(fs).wf(),
            old(fs).nodes().contains_key(dir),
            old(fs).nodes()[dir].is_dir_node(),
            first_entry(old(fs).nodes()[dir].entries(), name@, inner is File, 0).is_none(),
            old(fs).spec_unused_id() < u64::MAX,
            inner matches RamFSInodeType::Directory(es) ==> es@.len() == 0,
        ensures
            final(fs).wf(),
            r == old(fs).spec_unused_id(),
            final(fs).spec_unused_id() == r + 1,
            final(fs).nodes().dom() == old(fs).nodes().dom().insert(r),
            final(fs).nodes()[r] == (RamFSInode { parent: Some(dir), inner, id: r }),
            final(fs).nodes()[dir].parent == old(fs).nodes()[dir].parent,
            final(fs).nodes()[dir].is_dir_node(),
            sorted(final(fs).nodes()[dir].entries()),
            exists|pos: int| 0 <= pos <= old(fs).nodes()[dir].entries().len()
                && evs(final(fs).nodes()[dir].entries())
                    == #[trigger] evs(old(fs).nodes()[dir].entries()).insert(pos, (name@, inner is File, r)),
            forall|o: u64| o != dir && o != r && #[trigger] old(fs).nodes().contains_key(o)
                ==> final(fs).nodes()[o] == old(fs).nodes()[o],
    {
        let ghost old_fs = *fs;
        let is_file = match &inner {
            RamFSInodeType::File(_) => true,
            RamFSInodeType::Directory(_) => false,
        };
        let id = fs.alloc_id();
        let mut dir_node = match fs.inode_map.remove(&dir) {
            Some(n) => n,
            None => {
                proof {
                    assert(false);
                }
                return id;
            },
        };
        let ghost old_es = dir_node.entries();
        let mut es = match dir_node.inner {
            RamFSInodeType::Directory(es) => es,
            RamFSInodeType::File(_) => {
                proof {
                    assert(false);
                }
                return id;
            },
        };
        let pos = RamFS::insert_position(&es, &name, is_file);
        let ghost name_v = name@;
        es.insert(pos, RamDirEntry { name, is_file, id });
        proof {
            assert(sorted(es@)) by {
                assert forall|i: int| 0 <= i < es@.len() - 1 implies
                    key_lt(#[trigger] es@[i].name@, es@[i].is_file, es@[i + 1].name@, es@[i + 1].is_file) by {
                    if i + 1 == pos {
                    } else if i == pos {
                        lemma_first_entry_none(old_es, name_v, is_file, 0, pos as int);
                        lemma_key_total(old_es[pos as int].name@, old_es[pos as int].is_file, name_v, is_file);
                    } else if i > pos {
                        assert(es@[i] == old_es[i - 1]);
                    }
                }
            }
            assert(evs(es@) =~= evs(old_es).insert(pos as int, (name_v, is_file, id)));
        }
        dir_node.inner = RamFSInodeType::Directory(es);
        fs.inode_map.insert(dir, dir_node);
        fs.inode_map.insert(id, RamFSInode { parent: Some(dir), inner, id });
        proof {
            assert(fs.nodes().dom() =~= old_fs.nodes().dom().insert(id));
            assert forall|o: u64| #[trigger] fs.nodes().contains_key(o) implies fs.node_ok(o) by {
                if o == id {
                } else {
                    assert(old_fs.nodes().contains_key(o));
                    assert(old_fs.node_ok(o));
                    let n = fs.nodes()[o];
                    assert forall|i: int| 0 <= i < n.entries().len() implies {
                        let e = #[trigger] n.entries()[i];
                        &&& fs.nodes().contains_key(e.id)
                        &&& e.is_file == !fs.nodes()[e.id].is_dir_node()
                    } by {
                        if o == dir {
                            if i < pos {
                                assert(n.entries()[i] == old_es[i]);
                            } else if i > pos {
                                assert(n.entries()[i] == old_es[i - 1]);
                            }
                        }
                        let e = n.entries()[i];
                        if e.id != id {
                            if o == dir {
                                if i < pos {
                                    assert(old_fs.nodes().contains_key(e.id));
                                } else if i > pos {
                                    assert(old_fs.nodes().contains_key(e.id));
                                }
                            }
                        } else {
                            if o != dir || i != pos {
                                // an existing entry never names the fresh number
                                if o == dir {
                                    if i < pos {
                                        assert(old_fs.nodes().contains_key(old_es[i].id));
                                        assert(old_fs.node_ok(old_es[i].id));
                                    } else {
                                        assert(old_fs.nodes().contains_key(old_es[i - 1].id));
                                        assert(old_fs.node_ok(old_es[i - 1].id));
                                    }
                                } else {
                                    assert(old_fs.nodes().contains_key(old_fs.nodes()[o].entries()[i].id));
                                    assert(old_fs.node_ok(old_fs.nodes()[o].entries()[i].id));
                                }
                            }
                        }
                    }
                }
            }
        }
        id
    }

    /// Makes an empty directory `name` in directory `dir` and gives its number. `dir` must
    /// not already hold a file or a directory of that name.
    pub fn push_directory(fs: &mut RamFS, dir: u64, name: Vec<u8>) -> (r: u64)
        requires
            old(fs).wf(),
            old(fs).nodes().contains_key(dir),
            old(fs).nodes()[dir].is_dir_node(),
            first_entry(old(fs).nodes()[dir].entries(), name@, false, 0).is_none(),
            first_entry(old(fs).nodes()[dir].entries(), name@, true, 0).is_none(),
            old(fs).spec_unused_id() < u64::MAX,
        ensures
            final(fs).wf(),
            r == old(fs).spec_unused_id(),
            final(fs).spec_unused_id() == r + 1,
            final(fs).nodes().dom() == old(fs).nodes().dom().insert(r),
            final(fs).nodes()[r].parent == Some(dir),
            final(fs).nodes()[r].is_dir_node(),
            final(fs).nodes()[r].entries().len() == 0,
            final(fs).nodes()[dir].parent == old(fs).nodes()[dir].parent,
            final(fs).nodes()[dir].is_dir_node(),
            exists|pos: int| 0 <= pos <= old(fs).nodes()[dir].entries().len()
                && evs(final(fs).nodes()[dir].entries())
                    == #[trigger] evs(old(fs).nodes()[dir].entries()).insert(pos, (name@, false, r)),
            forall|o: u64| o != dir && o != r && #[trigger] old(fs).nodes().contains_key(o)
                ==> final(fs).nodes()[o] == old(fs).nodes()[o],
    {
        RamFSInode::push_entry(fs, dir, name, RamFSInodeType::Directory(Vec::new()))
    }

    /// Makes a file `name` holding `content` in directory `dir` and gives its number. `dir`
    /// must not already hold a file or a directory of that name.
    pub fn push_file(fs: &mut RamFS, dir: u64, name: Vec<u8>, content: Vec<u8>) -> (r: u64)
        requires
            old(fs).wf(),
            old(fs).nodes().contains_key(dir),
            old(fs).nodes()[dir].is_dir_node(),
            first_entry(old(fs).nodes()[dir].entries(), name@, false, 0).is_none(),
            first_entry(old(fs).nodes()[dir].entries(), name@, true, 0).is_none(),
            old(fs).spec_unused_id() < u64::MAX,
        ensures
            final(fs).wf(),
            r == old(fs).spec_unused_id(),
            final(fs).spec_unused_id() == r + 1,
            final(fs).nodes().dom() == old(fs).nodes().dom().insert(r),
            final(fs).nodes()[r].parent == Some(dir),
            final(fs).nodes()[r].inner matches RamFSInodeType::File(c) && c@ == content@,
            final(fs).nodes()[dir].parent == old(fs).nodes()[dir].parent,
            final(fs).nodes()[dir].is_dir_node(),
            exists|pos: int| 0 <= pos <= old(fs).nodes()[dir].entries().len()
                && evs(final(fs).nodes()[dir].entries())
                    == #[trigger] evs(old(fs).nodes()[dir].entries()).insert(pos, (name@, true, r)),
            forall|o: u64| o != dir && o != r && #[trigger] old(fs).nodes().contains_key(o)
                ==> final(fs).nodes()[o] == old(fs).nodes()[o],
    {
        RamFSInode::push_entry(fs, dir, name, RamFSInodeType::File(content))
    }
}

proof fn lemma_first_entry_some(es: Seq<RamDirEntry>, name: Seq<u8>, is_file: bool, i: int)
    requires
        first_entry(es, name, is_file, i) is Some,
    ensures
        exists|j: int| 0 <= j < es.len() && es[j].id == first_entry(es, name, is_file, i)->0
            && es[j].is_file == is_file,
    decreases es.len() - i,
{
    if 0 <= i < es.len() && !(es[i].name@ == name && es[i].is_file == is_file) {
        lemma_first_entry_some(es, name, is_file, i + 1);
    }
}

/// The first entry of `es` from `i` on named `name` whose kind is `is_file`.
fn find_entry(es: &Vec<RamDirEntry>, name: &Vec<u8>, is_file: bool) -> (r: Option<u64>)
    ensures
        r == first_entry(es@, name@, is_file, 0),
{
    let mut i: usize = 0;
    while i < es.len()
        invariant
            i <= es.len(),
            first_entry(es@, name@, is_file, 0) == first_entry(es@, name@, is_file, i as int),
        decreases es.len() - i,
    {
        if es[i].is_file == is_file && bytes_eq(&es[i].name, name) {
            return Some(es[i].id);
        }
        i = i + 1;
    }
    None
}

impl RamFS {
    /// The node of inode `id`.
    fn node(&self, id: u64) -> (r: &RamFSInode)
        requires
            self.nodes().contains_key(id),
        ensures
            *r == self.nodes()[id],
    {
        self.inode_map.get(&id).unwrap()
    }

    /// Replaces the bytes of file `id` with `data`.
    fn set_content(&mut self, id: u64, data: Vec<u8>)
        requires
            old(self).wf(),
            old(self).nodes().contains_key(id),
            !old(self).nodes()[id].is_dir_node(),
        ensures
            final(self).wf(),
            final(self).spec_unused_id() == old(self).spec_unused_id(),
            final(self).nodes().dom() == old(self).nodes().dom(),
            final(self).nodes()[id] == (RamFSInode { parent: old(self).nodes()[id].parent, inner: RamFSInodeType::File(data), id }),
            forall|o: u64| o != id ==> #[trigger] final(self).nodes()[o] == old(self).nodes()[o],
    {
        let ghost old_fs = *self;
        let parent = self.node(id).parent;
        self.inode_map.insert(id, RamFSInode { parent, inner: RamFSInodeType::File(data), id });
        proof {
            assert(self.nodes().dom() =~= old_fs.nodes().dom());
            assert forall|o: u64| #[trigger] self.nodes().contains_key(o) implies self.node_ok(o) by {
                assert(old_fs.node_ok(o));
                let n = self.nodes()[o];
                assert forall|i: int| 0 <= i < n.entries().len() implies {
                    let e = #[trigger] n.entries()[i];
                    &&& self.nodes().contains_key(e.id)
                    &&& e.is_file == !self.nodes()[e.id].is_dir_node()
                } by {
                    assert(old_fs.nodes().contains_key(n.entries()[i].id));
                }
            }
        }
    }
}

impl FileSystem for RamFS {
    open spec fn inv(&self) -> bool {
        self.wf()
    }

    open spec fn has(&self, id: u64) -> bool {
        self.nodes().contains_key(id)
    }

    open spec fn spec_root(&self) -> u64 {
        0
    }

    /// A directory's size is 0.
    open spec fn spec_metadata(&self, id: u64) -> Metadata {
        match self.nodes()[id].inner {
            RamFSInodeType::File(c) => Metadata { file_type: FileType::File, size: c.len() },
            RamFSInodeType::Directory(_) => Metadata { file_type: FileType::Directory, size: 0 },
        }
    }

    open spec fn spec_content(&self, id: u64) -> Seq<u8> {
        match self.nodes()[id].inner {
            RamFSInodeType::File(c) => c@,
            RamFSInodeType::Directory(_) => Seq::empty(),
        }
    }

    /// A directory of that name is preferred to a file of that name.
    open spec fn spec_find(&self, dir: u64, name: Seq<u8>) -> Option<u64> {
        let es = self.nodes()[dir].entries();
        match first_entry(es, name, false, 0) {
            Some(id) => Some(id),
            None => first_entry(es, name, true, 0),
        }
    }

    open spec fn spec_parent(&self, dir: u64) -> Option<u64> {
        self.nodes()[dir].parent
    }

    /// A parent is made before its children, so it has a smaller number.
    open spec fn spec_depth(&self, id: u64) -> nat {
        id as nat
    }

    open spec fn spec_list(&self, dir: u64) -> Seq<(Seq<u8>, u64)> {
        self.nodes()[dir].entries().map_values(|e: RamDirEntry| (e.name@, e.id))
    }

    /// The listing goes through the entries in order; the cookie is the entry's position.
    open spec fn spec_read_dir(&self, dir: u64, offset_cookie: u64) -> Option<EntryView> {
        let es = self.nodes()[dir].entries();
        if offset_cookie < es.len() {
            let e = es[offset_cookie as int];
            Some(EntryView {
                name: e.name@,
                inode: e.id,
                offset_cookie: (offset_cookie + 1) as u64,
                file_type: if e.is_file { FileType::File } else { FileType::Directory },
            })
        } else {
            None
        }
    }

    proof fn lemma_parent_depth(&self, dir: u64) {
        assert(self.node_ok(dir));
    }

    fn root_inode(&self) -> (r: u64) {
        0
    }

    fn name(&self) -> (r: &'static str)
        ensures
            r@ == "ramfs"@,
    {
        "ramfs"
    }

    fn metadata(&self, id: u64) -> (r: Metadata) {
        match &self.node(id).inner {
            RamFSInodeType::File(c) => Metadata { file_type: FileType::File, size: c.len() },
            RamFSInodeType::Directory(_) => Metadata { file_type: FileType::Directory, size: 0 },
        }
    }

    fn find(&self, dir: u64, name: &Vec<u8>) -> (r: Option<u64>) {
        let es = match &self.node(dir).inner {
            RamFSInodeType::Directory(es) => es,
            RamFSInodeType::File(_) => {
                proof {
                    assert(false);
                }
                return None;
            },
        };
        let r = match find_entry(es, name, false) {
            Some(id) => Some(id),
            None => find_entry(es, name, true),
        };
        proof {
            assert(self.node_ok(dir));
            if let Some(id) = r {
                if first_entry(es@, name@, false, 0) is Some {
                    lemma_first_entry_some(es@, name@, false, 0);
                } else {
                    lemma_first_entry_some(es@, name@, true, 0);
                }
            }
        }
        r
    }

    fn parent(&self, dir: u64) -> (r: Option<u64>) {
        proof {
            assert(self.node_ok(dir));
        }
        self.node(dir).parent
    }

    fn list(&self, dir: u64) -> (r: Vec<(Vec<u8>, u64)>) {
        let es = match &self.node(dir).inner {
            RamFSInodeType::Directory(es) => es,
            RamFSInodeType::File(_) => {
                proof {
                    assert(false);
                }
                return Vec::new();
            },
        };
        let mut r: Vec<(Vec<u8>, u64)> = Vec::new();
        let mut i: usize = 0;
        while i < es.len()
            invariant
                i <= es.len(),
                r@.len() == i,
                es@ == self.nodes()[dir].entries(),
                forall|j: int| 0 <= j < i ==> (#[trigger] r@[j]).0@ == es@[j].name@ && r@[j].1 == es@[j].id,
            decreases es.len() - i,
        {
            let name = sub_bytes(&es[i].name, 0, es[i].name.len());
            assert(name@ =~= es@[i as int].name@);
            r.push((name, es[i].id));
            i = i + 1;
        }
        r
    }

    fn read_dir(&self, dir: u64, offset_cookie: u64) -> (r: Option<DirectoryEntry>) {
        let es = match &self.node(dir).inner {
            RamFSInodeType::Directory(es) => es,
            RamFSInodeType::File(_) => {
                proof {
                    assert(false);
                }
                return None;
            },
        };
        if offset_cookie >= es.len() as u64 {
            return None;
        }
        let e = &es[offset_cookie as usize];
        let name = sub_bytes(&e.name, 0, e.name.len());
        assert(name@ =~= e.name@);
        Some(DirectoryEntry {
            name,
            offset_cookie: offset_cookie + 1,
            inode: e.id,
            file_type: if e.is_file { FileType::File } else { FileType::Directory },
        })
    }

    fn read_at(&self, id: u64, offset: usize, buf: &mut Vec<u8>) {
        let c = match &self.node(id).inner {
            RamFSInodeType::File(c) => c,
            RamFSInodeType::Directory(_) => {
                proof {
                    assert(false);
                }
                return;
            },
        };
        let len = buf.len();
        copy_bytes(buf, 0, c, offset, len);
        assert(buf@ =~= c@.subrange(offset as int, offset + len));
    }

    fn write_at(&mut self, id: u64, offset: usize, buf: &Vec<u8>) {
        let ghost old_fs = *self;
        let mut data = match &self.node(id).inner {
            RamFSInodeType::File(c) => sub_bytes(c, 0, c.len()),
            RamFSInodeType::Directory(_) => {
                proof {
                    assert(false);
                }
                return;
            },
        };
        let len = buf.len();
        copy_bytes(&mut data, offset, buf, 0, len);
        self.set_content(id, data);
        proof {
            assert(buf@.subrange(0, len as int) =~= buf@);
            assert forall|d: u64| #[trigger] self.spec_list(d) == old_fs.spec_list(d) by {
                if d == id {
                    assert(self.spec_list(d) =~= old_fs.spec_list(d));
                }
            }
        }
    }

    fn resize(&mut self, id: u64, new_size: usize) {
        let ghost old_fs = *self;
        let mut data = match &self.node(id).inner {
            RamFSInodeType::File(c) => sub_bytes(c, 0, c.len()),
            RamFSInodeType::Directory(_) => {
                proof {
                    assert(false);
                }
                return;
            },
        };
        let ghost c = data@;
        if new_size <= data.len() {
            data.truncate(new_size);
        } else {
            while data.len() < new_size
                invariant
                    data@.len() <= new_size,
                    data@.len() >= c.len(),
                    forall|i: int| 0 <= i < data@.len() ==> data@[i] == (if i < c.len() { c[i] } else { 0u8 }),
                decreases new_size - data.len(),
            {
                data.push(0);
            }
        }
        assert(data@ =~= resized(c, new_size as nat));
        self.set_content(id, data);
        proof {
            assert forall|d: u64| #[trigger] self.spec_list(d) == old_fs.spec_list(d) by {
                if d == id {
                    assert(self.spec_list(d) =~= old_fs.spec_list(d));
                }
            }
        }
    }
}

} // verus!
