//! The page cache of a file: the pages read so far, and those written since the last sync.
use vstd::prelude::*;
use std::collections::{BTreeMap, BTreeSet};
use crate::arch::mm::PAGE_SIZE;
use crate::fs::block_device::copy_bytes;
use crate::fs::vfs::{VirtualFileSystem, VirtualIndexNode, VirtualIndexNodeInner};
use crate::fs::vfs::interface::{FileSystem, FileType, fs_is_file, fs_is_dir, same_tree, resized};
use crate::utils::sub_bytes;
use crate::utils::{BlockIterator, lemma_block_piece, zeros};

verus! {

broadcast use {vstd::std_specs::btree::group_btree_axioms, vstd::laws_cmp::group_laws_cmp};

/// A page of a file; `None` until its bytes are loaded.
pub struct CachedPage {
    pub frame: Option<Vec<u8>>,
}

/// The pages of a file by offset, and the offsets of the pages written since the last sync.
pub struct PageCache {
    pub table: BTreeMap<usize, CachedPage>,
    pub dirty: BTreeSet<usize>,
}

impl PageCache {
    /// An empty page cache.
    pub fn new() -> (r: Self)
        ensures
            r.wf(),
            r.table@ == Map::<usize, CachedPage>::empty(),
            r.dirty@ == Set::<usize>::empty(),
    {
        PageCache { table: BTreeMap::new(), dirty: BTreeSet::new() }
    }

    /// Every page starts on a page boundary and a loaded page holds a page of bytes.
    pub open spec fn wf(&self) -> bool {
        forall|o: usize| #[trigger] self.table@.contains_key(o) ==> {
            &&& o % PAGE_SIZE == 0
            &&& self.table@[o].frame matches Some(f) && f@.len() == PAGE_SIZE
        }
    }

    /// Every page starts before `size`.
    pub open spec fn below(&self, size: nat) -> bool {
        forall|o: usize| #[trigger] self.table@.contains_key(o) ==> o < size
    }
}

/// The offset of the page that holds byte `i` of a file.
pub open spec fn page_of(i: int) -> usize {
    (i / (PAGE_SIZE as int) * (PAGE_SIZE as int)) as usize
}

impl<F: FileSystem> VirtualFileSystem<F> {
    /// The page cache of inode `id`.
    pub open spec fn pc(&self, id: u64) -> PageCache {
        self.cache()[id].page_cache
    }

    /// Byte `i` of file `id` as reads see it: from its cached page where there is one,
    /// otherwise from the file system beneath.
    pub open spec fn seen_byte(&self, id: u64, i: int) -> u8 {
        let o = page_of(i);
        if self.pc(id).table@.contains_key(o) {
            self.pc(id).table@[o].frame->0@[i - o]
        } else {
            self.inner_fs.spec_content(id)[i]
        }
    }

    /// File `id` as reads see it.
    pub open spec fn seen(&self, id: u64) -> Seq<u8> {
        Seq::new(self.inner_fs.spec_content(id).len(), |i: int| self.seen_byte(id, i))
    }

    /// `self` is `other` but for the page cache of inode `id` and, where `inner` is false,
    /// the file system beneath.
    pub open spec fn same_but_pages(&self, other: &Self, id: u64, inner: bool) -> bool {
        &&& inner ==> self.inner_fs == other.inner_fs
        &&& self.mountpoints@ == other.mountpoints@
        &&& self.self_mountpoints == other.self_mountpoints
        &&& self.self_index == other.self_index
        &&& self.cache().dom() == other.cache().dom()
        &&& forall|o: u64| o != id ==> #[trigger] self.cache()[o] == other.cache()[o]
        &&& self.cache()[id].inner_locked == other.cache()[id].inner_locked
        &&& self.cache()[id].id == other.cache()[id].id
    }

    /// Replaces the page cache of cached inode `id`.
    fn set_pc(&mut self, id: u64, pc: PageCache)
        requires
            old(self).cache().contains_key(id),
        ensures
            final(self).same_but_pages(old(self), id, true),
            final(self).pc(id) == pc,
    {
        let mut e = self.inode_cache.remove(&id).unwrap();
        e.page_cache = pc;
        self.inode_cache.insert(id, e);
        assert(self.cache().dom() =~= old(self).cache().dom());
    }

    /// A copy of the page cache of cached inode `id`, taken out of the cache for editing.
    fn take_pc(&mut self, id: u64) -> (r: PageCache)
        requires
            old(self).cache().contains_key(id),
        ensures
            r == old(self).pc(id),
            final(self).same_but_pages(old(self), id, true),
            final(self).pc(id).table@ == Map::<usize, CachedPage>::empty(),
            final(self).pc(id).dirty@ == Set::<usize>::empty(),
    {
        let mut e = self.inode_cache.remove(&id).unwrap();
        let mut pc = PageCache::new();
        std::mem::swap(&mut pc, &mut e.page_cache);
        self.inode_cache.insert(id, e);
        assert(self.cache().dom() =~= old(self).cache().dom());
        pc
    }
}

impl VirtualIndexNode {
    /// Makes sure the page cache has an entry for the page at `offset`, unloaded if it is new.
    fn get_page<F: FileSystem>(&self, vfs: &mut VirtualFileSystem<F>, offset: usize)
        requires
            old(vfs).wf(),
            old(vfs).cache().contains_key(self.id),
            fs_is_file(&old(vfs).inner_fs, self.id),
            offset % PAGE_SIZE == 0,
            offset < old(vfs).inner_fs.spec_content(self.id).len(),
        ensures
            final(vfs).same_but_pages(old(vfs), self.id, true),
            final(vfs).pc(self.id).dirty@ == old(vfs).pc(self.id).dirty@,
            final(vfs).pc(self.id).table@.contains_key(offset),
            old(vfs).pc(self.id).table@.contains_key(offset) ==> final(vfs).pc(self.id) == old(vfs).pc(self.id),
            !old(vfs).pc(self.id).table@.contains_key(offset) ==> final(vfs).pc(self.id).table@
                == old(vfs).pc(self.id).table@.insert(offset, CachedPage { frame: None }),
    {
        let mut pc = vfs.take_pc(self.id);
        if !pc.table.contains_key(&offset) {
            pc.table.insert(offset, CachedPage { frame: None });
        }
        vfs.set_pc(self.id, pc);
    }

    /// Loads the page at `offset`, which has an entry but no bytes yet: the bytes of the
    /// file there, and zeros past its end.
    fn prepare_page<F: FileSystem>(&self, vfs: &mut VirtualFileSystem<F>, offset: usize)
        requires
            old(vfs).cache().contains_key(self.id),
            old(vfs).inner_fs.inv(),
            fs_is_file(&old(vfs).inner_fs, self.id),
            offset % PAGE_SIZE == 0,
            offset < old(vfs).inner_fs.spec_content(self.id).len(),
            old(vfs).pc(self.id).table@.contains_key(offset),
        ensures
            final(vfs).same_but_pages(old(vfs), self.id, true),
            final(vfs).pc(self.id).dirty@ == old(vfs).pc(self.id).dirty@,
            final(vfs).pc(self.id).table@ == old(vfs).pc(self.id).table@.insert(offset,
                final(vfs).pc(self.id).table@[offset]),
            final(vfs).pc(self.id).table@[offset].frame matches Some(f) && f@.len() == PAGE_SIZE
                && forall|k: int| 0 <= k < PAGE_SIZE ==> #[trigger] f@[k] == (
                    if offset + k < old(vfs).inner_fs.spec_content(self.id).len() {
                        old(vfs).inner_fs.spec_content(self.id)[offset + k]
                    } else { 0u8 }),
    {
        let ghost c = vfs.inner_fs.spec_content(self.id);
        assert(vfs.inner_fs.has(self.id));
        let size = vfs.inner_fs.metadata(self.id).size;
        let mut frame = zeros(PAGE_SIZE);
        let end = if size - offset > PAGE_SIZE { PAGE_SIZE } else { size - offset };
        let mut data = zeros(end);
        vfs.inner_fs.read_at(self.id, offset, &mut data);
        copy_bytes(&mut frame, 0, &data, 0, end);
        let mut pc = vfs.take_pc(self.id);
        pc.table.insert(offset, CachedPage { frame: Some(frame) });
        vfs.set_pc(self.id, pc);
        proof {
            let f = vfs.pc(self.id).table@[offset].frame->0;
            assert forall|k: int| 0 <= k < PAGE_SIZE implies #[trigger] f@[k] == (
                if offset + k < c.len() { c[offset + k] } else { 0u8 }) by {
                if k < end {
                    assert(f@[k] == data@[k]);
                }
            }
        }
    }
}

/// `s` with `data` written over it from `at` on, as far as `s` goes.
pub open spec fn overwrite(s: Seq<u8>, at: int, data: Seq<u8>) -> Seq<u8> {
    Seq::new(s.len(), |i: int| if at <= i < at + data.len() { data[i - at] } else { s[i] })
}

/// The offsets of the pages that hold bytes of `[offset, offset + n)`.
pub open spec fn touched(offset: int, n: int) -> Set<usize> {
    Set::new(|o: usize| exists|j: int| offset <= j < offset + n && #[trigger] page_of(j) == o)
}

/// How many bytes a read or write of `len` bytes at `offset` covers in a file of `size`
/// bytes: none from the end on, else as many as fit before the end.
pub open spec fn span(offset: int, len: int, size: int) -> int {
    if offset >= size { 0 } else if len < size - offset { len } else { size - offset }
}

pub(crate) proof fn lemma_page_of(i: int, o: int)
    requires
        0 <= o,
        i <= usize::MAX,
        o % (PAGE_SIZE as int) == 0,
        o <= i < o + PAGE_SIZE,
    ensures
        page_of(i) == o,
{
    vstd::arithmetic::div_mod::lemma_fundamental_div_mod(o, PAGE_SIZE as int);
    vstd::arithmetic::div_mod::lemma_fundamental_div_mod_converse(i, PAGE_SIZE as int, o / (PAGE_SIZE as int), i - o);
    assert(o / (PAGE_SIZE as int) * (PAGE_SIZE as int) == o) by {
        vstd::arithmetic::mul::lemma_mul_is_commutative(o / (PAGE_SIZE as int), PAGE_SIZE as int);
    }
}

pub(crate) proof fn lemma_page_of_range(i: int)
    requires
        0 <= i <= usize::MAX,
    ensures
        page_of(i) <= i < page_of(i) + PAGE_SIZE,
        page_of(i) % PAGE_SIZE == 0,
{
    vstd::arithmetic::div_mod::lemma_fundamental_div_mod(i, PAGE_SIZE as int);
    vstd::arithmetic::mul::lemma_mul_is_commutative(i / (PAGE_SIZE as int), PAGE_SIZE as int);
    vstd::arithmetic::div_mod::lemma_mod_multiples_basic(i / (PAGE_SIZE as int), PAGE_SIZE as int);
    vstd::arithmetic::div_mod::lemma_div_pos_is_pos(i, PAGE_SIZE as int);
    vstd::arithmetic::mul::lemma_mul_nonnegative(i / (PAGE_SIZE as int), PAGE_SIZE as int);
}

impl VirtualIndexNode {
    /// Makes sure the page at `offset` is cached and loaded; what reads see does not change.
    fn load_page<F: FileSystem>(&self, vfs: &mut VirtualFileSystem<F>, offset: usize)
        requires
            old(vfs).wf(),
            old(vfs).cache().contains_key(self.id),
            fs_is_file(&old(vfs).inner_fs, self.id),
            offset % PAGE_SIZE == 0,
            offset < old(vfs).inner_fs.spec_content(self.id).len(),
        ensures
            final(vfs).wf(),
            final(vfs).same_but_pages(old(vfs), self.id, true),
            final(vfs).pc(self.id).dirty@ == old(vfs).pc(self.id).dirty@,
            final(vfs).pc(self.id).table@.contains_key(offset),
            final(vfs).seen(self.id) == old(vfs).seen(self.id),
            forall|o: usize| o != offset ==> #[trigger] final(vfs).pc(self.id).table@.contains_key(o)
                == old(vfs).pc(self.id).table@.contains_key(o),
            forall|o: usize| o != offset && #[trigger] old(vfs).pc(self.id).table@.contains_key(o)
                ==> final(vfs).pc(self.id).table@[o] == old(vfs).pc(self.id).table@[o],
    {
        let ghost v0 = *vfs;
        let ghost id = self.id;
        proof {
            assert(vfs.inner_fs.has(id));
        }
        let _ = vfs.inner_fs.metadata(self.id);
        self.get_page(vfs, offset);
        let unloaded = vfs.inode_cache.get(&self.id).unwrap().page_cache.table.get(&offset).unwrap().frame.is_none();
        if unloaded {
            proof {
                assert(!v0.pc(id).table@.contains_key(offset));
            }
            self.prepare_page(vfs, offset);
            proof {
                let c = v0.inner_fs.spec_content(id);
                assert forall|i: int| 0 <= i < c.len() implies #[trigger] vfs.seen_byte(id, i) == v0.seen_byte(id, i) by {
                    lemma_page_of_range(i);
                    if page_of(i) == offset {
                        lemma_page_of_range(i);
                    }
                }
                assert(vfs.seen(id) =~= v0.seen(id));
            }
        } else {
            assert(vfs.pc(id) == v0.pc(id));
        }
        proof {
            assert forall|o: u64| #[trigger] vfs.cache().contains_key(o) implies {
                let e = vfs.cache()[o];
                &&& vfs.inner_fs.has(o)
                &&& e.id == o
                &&& e.inner_locked.inode == Some(o)
                &&& e.page_cache.wf()
                &&& vfs.inner_fs.spec_metadata(o).file_type == FileType::File
                    ==> e.page_cache.below(vfs.inner_fs.spec_content(o).len())
            } by {
                assert(v0.cache().contains_key(o));
            }
        }
    }

    /// Reads file bytes from `offset` into `buf`, as far as the file goes; gives how many
    /// bytes were read. The rest of `buf` is left as it was.
    pub fn read_at<F: FileSystem>(&self, vfs: &mut VirtualFileSystem<F>, offset: usize, buf: &mut Vec<u8>) -> (r: usize)
        requires
            old(vfs).wf(),
            old(vfs).cache().contains_key(self.id),
            fs_is_file(&old(vfs).inner_fs, self.id),
        ensures
            r == span(offset as int, old(buf).len() as int, old(vfs).inner_fs.spec_content(self.id).len() as int),
            final(buf).len() == old(buf).len(),
            forall|j: int| 0 <= j < r ==> #[trigger] final(buf)@[j] == old(vfs).seen(self.id)[offset + j],
            forall|j: int| r <= j < old(buf).len() ==> #[trigger] final(buf)@[j] == old(buf)@[j],
            final(vfs).wf(),
            final(vfs).same_but_pages(old(vfs), self.id, true),
            final(vfs).pc(self.id).dirty@ == old(vfs).pc(self.id).dirty@,
            final(vfs).seen(self.id) == old(vfs).seen(self.id),
    {
        let ghost v0 = *vfs;
        let ghost b0 = buf@;
        let ghost id = self.id;
        proof {
            assert(vfs.inner_fs.has(id));
        }
        let size = vfs.inner_fs.metadata(self.id).size;
        if offset >= size {
            return 0;
        }
        let n = if buf.len() < size - offset { buf.len() } else { size - offset };
        let mut pos: usize = 0;
        let mut blocks = BlockIterator::new(PAGE_SIZE, offset, n);
        loop
            invariant
                vfs.wf(),
                vfs.same_but_pages(&v0, id, true),
                vfs.pc(id).dirty@ == v0.pc(id).dirty@,
                vfs.seen(id) == v0.seen(id),
                vfs.cache().contains_key(id),
                fs_is_file(&vfs.inner_fs, id),
                size == v0.inner_fs.spec_content(id).len(),
                id == self.id,
                blocks.wf(),
                blocks.spec_block_size() == PAGE_SIZE,
                blocks.spec_end() == offset + n,
                blocks.spec_pos() == offset + pos,
                pos <= n,
                offset + n <= size,
                n <= b0.len(),
                buf@.len() == b0.len(),
                forall|j: int| 0 <= j < pos ==> buf@[j] == #[trigger] v0.seen(id)[offset + j],
                forall|j: int| n <= j < b0.len() ==> buf@[j] == #[trigger] b0[j],
            ensures
                pos == n,
            decreases n - pos,
        {
            let block = match blocks.next() {
                None => {
                    break;
                },
                Some(b) => b,
            };
            let file_offset = block.block_id * PAGE_SIZE;
            proof {
                lemma_block_piece(PAGE_SIZE as nat, block.block_id as nat, 0, 0);
                vstd::arithmetic::div_mod::lemma_mod_multiples_basic(block.block_id as int, PAGE_SIZE as int);
            }
            self.load_page(vfs, file_offset);
            let ghost vb = buf@;
            match &vfs.inode_cache.get(&self.id).unwrap().page_cache.table.get(&file_offset).unwrap().frame {
                Some(f) => {
                    copy_bytes(buf, pos, f, block.offset, block.size);
                },
                None => {
                    proof {
                        assert(false);
                    }
                },
            }
            proof {
                assert forall|j: int| 0 <= j < pos + block.size implies buf@[j] == #[trigger] v0.seen(id)[offset + j] by {
                    if j >= pos {
                        lemma_block_piece(PAGE_SIZE as nat, block.block_id as nat, block.offset as nat, (j - pos) as nat);
                        lemma_page_of(offset + j, file_offset as int);
                        assert(vfs.seen(id)[offset + j] == vfs.seen_byte(id, offset + j));
                    } else {
                        assert(buf@[j] == vb[j]);
                    }
                }
            }
            pos = pos + block.size;
        }
        n
    }
}

impl VirtualIndexNode {
    /// Writes `buf` into the cached pages of the file from `offset` on, as far as the file
    /// goes, and marks those pages dirty; gives how many bytes were written. The file
    /// system beneath is not touched until `sync`.
    pub fn write_at<F: FileSystem>(&self, vfs: &mut VirtualFileSystem<F>, offset: usize, buf: &Vec<u8>) -> (r: usize)
        requires
            old(vfs).wf(),
            old(vfs).cache().contains_key(self.id),
            fs_is_file(&old(vfs).inner_fs, self.id),
        ensures
            r == span(offset as int, buf.len() as int, old(vfs).inner_fs.spec_content(self.id).len() as int),
            final(vfs).wf(),
            final(vfs).same_but_pages(old(vfs), self.id, true),
            final(vfs).seen(self.id) == overwrite(old(vfs).seen(self.id), offset as int, buf@.subrange(0, r as int)),
            final(vfs).pc(self.id).dirty@ == old(vfs).pc(self.id).dirty@.union(touched(offset as int, r as int)),
    {
        let ghost v0 = *vfs;
        let ghost id = self.id;
        proof {
            assert(vfs.inner_fs.has(id));
        }
        let size = vfs.inner_fs.metadata(self.id).size;
        if offset >= size {
            assert(vfs.seen(id) =~= overwrite(v0.seen(id), offset as int, buf@.subrange(0, 0)));
            assert(v0.pc(id).dirty@.union(touched(offset as int, 0)) =~= v0.pc(id).dirty@);
            return 0;
        }
        let n = if buf.len() < size - offset { buf.len() } else { size - offset };
        let mut pos: usize = 0;
        let mut blocks = BlockIterator::new(PAGE_SIZE, offset, n);
        loop
            invariant
                vfs.wf(),
                vfs.same_but_pages(&v0, id, true),
                vfs.cache().contains_key(id),
                fs_is_file(&vfs.inner_fs, id),
                size == v0.inner_fs.spec_content(id).len(),
                id == self.id,
                blocks.wf(),
                blocks.spec_block_size() == PAGE_SIZE,
                blocks.spec_end() == offset + n,
                blocks.spec_pos() == offset + pos,
                pos <= n,
                offset + n <= size,
                n <= buf.len(),
                vfs.seen(id) == overwrite(v0.seen(id), offset as int, buf@.subrange(0, pos as int)),
                vfs.pc(id).dirty@ == v0.pc(id).dirty@.union(touched(offset as int, pos as int)),
            ensures
                pos == n,
            decreases n - pos,
        {
            let block = match blocks.next() {
                None => {
                    break;
                },
                Some(b) => b,
            };
            let file_offset = block.block_id * PAGE_SIZE;
            proof {
                lemma_block_piece(PAGE_SIZE as nat, block.block_id as nat, 0, 0);
                vstd::arithmetic::div_mod::lemma_mod_multiples_basic(block.block_id as int, PAGE_SIZE as int);
            }
            self.load_page(vfs, file_offset);
            let ghost v1 = *vfs;
            let mut pc = vfs.take_pc(self.id);
            let mut page = pc.table.remove(&file_offset).unwrap();
            let mut frame = match page.frame {
                Some(f) => f,
                None => {
                    proof {
                        assert(false);
                    }
                    Vec::new()
                },
            };
            let ghost f0 = frame@;
            copy_bytes(&mut frame, block.offset, buf, pos, block.size);
            page.frame = Some(frame);
            pc.table.insert(file_offset, page);
            pc.dirty.insert(file_offset);
            vfs.set_pc(self.id, pc);
            proof {
                let c = v0.inner_fs.spec_content(id);
                assert(vfs.pc(id).table@ == v1.pc(id).table@.insert(file_offset, vfs.pc(id).table@[file_offset]));
                assert forall|i: int| 0 <= i < c.len() implies #[trigger] vfs.seen_byte(id, i) == (
                    if offset <= i < offset + pos + block.size { buf@[i - offset] } else { v1.seen_byte(id, i) }) by {
                    lemma_page_of_range(i);
                    if page_of(i) == file_offset {
                        if offset + pos <= i < offset + pos + block.size {
                            lemma_block_piece(PAGE_SIZE as nat, block.block_id as nat, block.offset as nat, (i - offset - pos) as nat);
                        } else if offset <= i < offset + pos {
                            assert(i - file_offset < block.offset);
                            assert(v1.seen(id)[i] == v1.seen_byte(id, i));
                        } else {
                            assert(v1.seen(id)[i] == v1.seen_byte(id, i));
                        }
                    } else if offset + pos <= i < offset + pos + block.size {
                        lemma_block_piece(PAGE_SIZE as nat, block.block_id as nat, block.offset as nat, (i - offset - pos) as nat);
                        lemma_page_of(i, file_offset as int);
                    } else if offset <= i < offset + pos {
                        assert(v1.seen(id)[i] == v1.seen_byte(id, i));
                    }
                }
                assert forall|i: int| 0 <= i < c.len() implies #[trigger] vfs.seen(id)[i]
                    == overwrite(v0.seen(id), offset as int, buf@.subrange(0, pos + block.size))[i] by {
                    assert(v1.seen(id)[i] == v1.seen_byte(id, i));
                    assert(vfs.seen(id)[i] == vfs.seen_byte(id, i));
                }
                assert(vfs.seen(id) =~= overwrite(v0.seen(id), offset as int, buf@.subrange(0, pos + block.size)));
                assert forall|o: usize| #[trigger] touched(offset as int, pos + block.size).contains(o)
                    == (touched(offset as int, pos as int).contains(o) || o == file_offset) by {
                    if o == file_offset {
                        lemma_block_piece(PAGE_SIZE as nat, block.block_id as nat, block.offset as nat, 0);
                        lemma_page_of(offset + pos, file_offset as int);
                    }
                    if touched(offset as int, pos + block.size).contains(o) && o != file_offset {
                        let j = choose|j: int| offset <= j < offset + pos + block.size && #[trigger] page_of(j) == o;
                        if j >= offset + pos {
                            lemma_block_piece(PAGE_SIZE as nat, block.block_id as nat, block.offset as nat, (j - offset - pos) as nat);
                            lemma_page_of(j, file_offset as int);
                        }
                    }
                }
                assert(vfs.pc(id).dirty@ =~= v0.pc(id).dirty@.union(touched(offset as int, pos + block.size)));
                assert forall|o: u64| #[trigger] vfs.cache().contains_key(o) implies {
                    let e = vfs.cache()[o];
                    &&& vfs.inner_fs.has(o)
                    &&& e.id == o
                    &&& e.inner_locked.inode == Some(o)
                    &&& e.page_cache.wf()
                    &&& vfs.inner_fs.spec_metadata(o).file_type == FileType::File
                        ==> e.page_cache.below(vfs.inner_fs.spec_content(o).len())
                } by {
                    assert(v1.cache().contains_key(o));
                }
            }
            pos = pos + block.size;
        }
        n
    }
}

impl<F: FileSystem> VirtualFileSystem<F> {
    /// The file system beneath changed only in the bytes of file `id`: `self` is `other`
    /// there, but for the page cache of `id`.
    pub open spec fn same_but_content(&self, other: &Self, id: u64) -> bool {
        &&& self.same_but_pages(other, id, false)
        &&& same_tree(&self.inner_fs, &other.inner_fs)
        &&& self.inner_fs.inv()
        &&& forall|o: u64| o != id ==> #[trigger] self.inner_fs.spec_content(o) == other.inner_fs.spec_content(o)
        &&& forall|o: u64| o != id ==> #[trigger] self.inner_fs.spec_metadata(o) == other.inner_fs.spec_metadata(o)
    }
}

/// What file `id` holds after `sync`: each byte of a dirty page as reads see it, every
/// other byte as the file system had it.
pub open spec fn synced<F: FileSystem>(vfs: VirtualFileSystem<F>, id: u64) -> Seq<u8> {
    let c = vfs.inner_fs.spec_content(id);
    Seq::new(c.len(), |i: int| if vfs.pc(id).dirty@.contains(page_of(i)) { vfs.seen(id)[i] } else { c[i] })
}

impl VirtualIndexNode {
    /// Writes the dirty pages of the file back to the file system beneath and clears the
    /// dirty set; what reads see does not change.
    pub fn sync<F: FileSystem>(&self, vfs: &mut VirtualFileSystem<F>)
        requires
            old(vfs).wf(),
            old(vfs).cache().contains_key(self.id),
            fs_is_file(&old(vfs).inner_fs, self.id),
        ensures
            final(vfs).wf(),
            final(vfs).same_but_content(old(vfs), self.id),
            final(vfs).inner_fs.spec_content(self.id) == synced(*old(vfs), self.id),
            final(vfs).pc(self.id).table@ == old(vfs).pc(self.id).table@,
            final(vfs).pc(self.id).dirty@ == Set::<usize>::empty(),
            final(vfs).seen(self.id) == old(vfs).seen(self.id),
    {
        let ghost v0 = *vfs;
        let ghost id = self.id;
        let ghost c0 = v0.inner_fs.spec_content(id);
        proof {
            assert(vfs.inner_fs.has(id));
        }
        let size = vfs.inner_fs.metadata(self.id).size;
        let mut o: usize = 0;
        while o < size
            invariant
                vfs.inner_fs.inv(),
                vfs.same_but_pages(&v0, id, false),
                vfs.pc(id) == v0.pc(id),
                same_tree(&vfs.inner_fs, &v0.inner_fs),
                forall|x: u64| x != id ==> #[trigger] vfs.inner_fs.spec_content(x) == v0.inner_fs.spec_content(x),
                forall|x: u64| x != id ==> #[trigger] vfs.inner_fs.spec_metadata(x) == v0.inner_fs.spec_metadata(x),
                v0.wf(),
                v0.cache().contains_key(id),
                fs_is_file(&v0.inner_fs, id),
                id == self.id,
                size == c0.len(),
                c0 == v0.inner_fs.spec_content(id),
                o <= size,
                o < size ==> o % PAGE_SIZE == 0,
                vfs.inner_fs.spec_content(id) == Seq::new(size as nat, |i: int|
                    if page_of(i) < o && v0.pc(id).dirty@.contains(page_of(i)) { v0.seen(id)[i] } else { c0[i] }),
            decreases size - o,
        {
            let ghost before = vfs.inner_fs.spec_content(id);
            let last = size - o <= PAGE_SIZE;
            let end = if last { size - o } else { PAGE_SIZE };
            let e = vfs.inode_cache.get(&self.id).unwrap();
            if e.page_cache.dirty.contains(&o) && e.page_cache.table.contains_key(&o) {
                let data = match &e.page_cache.table.get(&o).unwrap().frame {
                    Some(f) => sub_bytes(f, 0, end),
                    None => {
                        proof {
                            assert(false);
                        }
                        Vec::new()
                    },
                };
                proof {
                    assert(vfs.inner_fs.has(id));
                }
                vfs.inner_fs.write_at(self.id, o, &data);
                proof {
                    assert forall|i: int| 0 <= i < size implies #[trigger] vfs.inner_fs.spec_content(id)[i] == (
                        if page_of(i) < o + end && v0.pc(id).dirty@.contains(page_of(i)) { v0.seen(id)[i] } else { c0[i] }) by {
                        lemma_page_of_range(i);
                        if o <= i < o + end {
                            lemma_page_of(i, o as int);
                            assert(v0.seen(id)[i] == v0.seen_byte(id, i));
                        } else if i >= o + end {
                            if page_of(i) < o + end {
                                lemma_page_of(i, o as int);
                            }
                        }
                    }
                }
            } else {
                proof {
                    assert forall|i: int| 0 <= i < size implies #[trigger] vfs.inner_fs.spec_content(id)[i] == (
                        if page_of(i) < o + end && v0.pc(id).dirty@.contains(page_of(i)) { v0.seen(id)[i] } else { c0[i] }) by {
                        lemma_page_of_range(i);
                        if o <= i < o + end {
                            lemma_page_of(i, o as int);
                            assert(v0.seen(id)[i] == v0.seen_byte(id, i));
                        } else if i >= o + end {
                            if page_of(i) < o + end {
                                lemma_page_of(i, o as int);
                            }
                        }
                    }
                }
            }
            proof {
                assert forall|i: int| 0 <= i < size implies (page_of(i) < o + end) == (page_of(i) < (if last { size } else { (o + PAGE_SIZE) as usize })) by {
                    lemma_page_of_range(i);
                    if !last && page_of(i) >= o + PAGE_SIZE {
                    }
                }
            }
            o = if last { size } else { o + PAGE_SIZE };
            assert(vfs.inner_fs.spec_content(id) =~= Seq::new(size as nat, |i: int|
                if page_of(i) < o && v0.pc(id).dirty@.contains(page_of(i)) { v0.seen(id)[i] } else { c0[i] }));
        }
        let mut pc = vfs.take_pc(self.id);
        pc.dirty.clear();
        vfs.set_pc(self.id, pc);
        proof {
            assert forall|i: int| 0 <= i < size implies page_of(i) < size by {
                lemma_page_of_range(i);
            }
            assert(vfs.inner_fs.spec_content(id) =~= synced(v0, id));
            assert forall|i: int| 0 <= i < size implies #[trigger] vfs.seen_byte(id, i) == v0.seen_byte(id, i) by {
                assert(v0.seen(id)[i] == v0.seen_byte(id, i));
            }
            assert(vfs.seen(id) =~= v0.seen(id));
            assert forall|x: u64| #[trigger] vfs.cache().contains_key(x) implies {
                let e = vfs.cache()[x];
                &&& vfs.inner_fs.has(x)
                &&& e.id == x
                &&& e.inner_locked.inode == Some(x)
                &&& e.page_cache.wf()
                &&& vfs.inner_fs.spec_metadata(x).file_type == FileType::File
                    ==> e.page_cache.below(vfs.inner_fs.spec_content(x).len())
            } by {
                assert(v0.cache().contains_key(x));
            }
            assert forall|x: u64| #[trigger] vfs.mountpoints@.contains_key(x) implies fs_is_dir(&vfs.inner_fs, x) by {
                assert(v0.mountpoints@.contains_key(x));
            }
        }
    }

    /// Sets the size of the file: the file system beneath resizes it, and the cached pages
    /// that start at or past the new size are dropped.
    pub fn resize<F: FileSystem>(&self, vfs: &mut VirtualFileSystem<F>, new_size: usize)
        requires
            old(vfs).wf(),
            old(vfs).cache().contains_key(self.id),
            fs_is_file(&old(vfs).inner_fs, self.id),
        ensures
            final(vfs).wf(),
            final(vfs).same_but_content(old(vfs), self.id),
            final(vfs).inner_fs.spec_content(self.id) == resized(old(vfs).inner_fs.spec_content(self.id), new_size as nat),
            final(vfs).pc(self.id).dirty@ == old(vfs).pc(self.id).dirty@,
            forall|o: usize| #[trigger] final(vfs).pc(self.id).table@.contains_key(o)
                == (old(vfs).pc(self.id).table@.contains_key(o) && o < new_size),
            forall|o: usize| #[trigger] final(vfs).pc(self.id).table@.contains_key(o)
                ==> final(vfs).pc(self.id).table@[o] == old(vfs).pc(self.id).table@[o],
    {
        let ghost v0 = *vfs;
        let ghost id = self.id;
        proof {
            assert(vfs.inner_fs.has(id));
        }
        let old_size = vfs.inner_fs.metadata(self.id).size;
        vfs.inner_fs.resize(self.id, new_size);
        let mut pc = vfs.take_pc(self.id);
        let ghost t0 = pc.table@;
        if new_size < old_size {
            let rem = new_size % PAGE_SIZE;
            let mut o: u128 = if rem == 0 { new_size as u128 } else { (new_size - rem) as u128 + PAGE_SIZE as u128 };
            proof {
                assert forall|k: usize| #[trigger] t0.contains_key(k) && new_size <= k < o implies false by {
                    assert(k % PAGE_SIZE == 0);
                    lemma_page_of(k as int, k as int);
                    lemma_page_of(k as int, (new_size - rem) as int);
                }
            }
            while o < old_size as u128
                invariant
                    o >= new_size,
                    o <= old_size as u128 + PAGE_SIZE as u128,
                    o % (PAGE_SIZE as u128) == 0,
                    pc.dirty@ == v0.pc(id).dirty@,
                    forall|k: usize| #[trigger] t0.contains_key(k) ==> k % PAGE_SIZE == 0,
                    old_size < usize::MAX + 1,
                    forall|k: usize| #[trigger] pc.table@.contains_key(k)
                        == (t0.contains_key(k) && (k < new_size || k >= o)),
                    forall|k: usize| #[trigger] pc.table@.contains_key(k) ==> pc.table@[k] == t0[k],
                decreases old_size as u128 + PAGE_SIZE as u128 - o,
            {
                let k = o as usize;
                pc.table.remove(&k);
                o = o + PAGE_SIZE as u128;
                proof {
                    vstd::arithmetic::div_mod::lemma_mod_add_multiples_vanish((o - PAGE_SIZE) as int, PAGE_SIZE as int);
                    assert forall|x: usize| #[trigger] t0.contains_key(x) && k < x < o implies false by {
                        assert(x % PAGE_SIZE == 0);
                        lemma_page_of(x as int, x as int);
                        lemma_page_of(x as int, k as int);
                    }
                }
            }
        }
        let ghost t1 = pc.table@;
        vfs.set_pc(self.id, pc);
        proof {
            assert forall|k: usize| #[trigger] t1.contains_key(k) == (t0.contains_key(k) && k < new_size) by {
                if t0.contains_key(k) && new_size >= old_size {
                    assert(v0.pc(id).below(old_size as nat));
                }
                if t0.contains_key(k) {
                    assert(v0.pc(id).below(old_size as nat));
                }
            }
            assert forall|x: u64| #[trigger] vfs.cache().contains_key(x) implies {
                let e = vfs.cache()[x];
                &&& vfs.inner_fs.has(x)
                &&& e.id == x
                &&& e.inner_locked.inode == Some(x)
                &&& e.page_cache.wf()
                &&& vfs.inner_fs.spec_metadata(x).file_type == FileType::File
                    ==> e.page_cache.below(vfs.inner_fs.spec_content(x).len())
            } by {
                assert(v0.cache().contains_key(x));
            }
            assert forall|x: u64| #[trigger] vfs.mountpoints@.contains_key(x) implies fs_is_dir(&vfs.inner_fs, x) by {
                assert(v0.mountpoints@.contains_key(x));
            }
        }
    }
}

/// A read gives back what a write wrote: after `write_at(offset, data)` has written `n`
/// bytes, the `n` bytes that reads see from `offset` on are the first `n` bytes of `data`,
/// and a read of `n` bytes there reads all `n`.
pub proof fn lemma_read_after_write(seen0: Seq<u8>, seen1: Seq<u8>, offset: int, data: Seq<u8>, n: int)
    requires
        0 <= offset,
        n == span(offset, data.len() as int, seen0.len() as int),
        seen1 == overwrite(seen0, offset, data.subrange(0, n)),
    ensures
        span(offset, n, seen1.len() as int) == n,
        forall|j: int| 0 <= j < n ==> #[trigger] seen1[offset + j] == data[j],
{
    assert forall|j: int| 0 <= j < n implies #[trigger] seen1[offset + j] == data[j] by {
        assert(seen1[offset + j] == data.subrange(0, n)[j]);
    }
}

/// A write reaches the file system beneath at the next sync: after `write_at(offset, data)`
/// has written `n` bytes and `sync` has run, the file holds those bytes at `offset`.
pub proof fn lemma_write_then_sync<F: FileSystem>(
    before: VirtualFileSystem<F>,
    written: VirtualFileSystem<F>,
    id: u64,
    offset: int,
    data: Seq<u8>,
    n: int,
)
    requires
        0 <= offset,
        written.inner_fs.spec_content(id).len() <= usize::MAX,
        written.inner_fs.spec_content(id) == before.inner_fs.spec_content(id),
        n == span(offset, data.len() as int, before.inner_fs.spec_content(id).len() as int),
        written.seen(id) == overwrite(before.seen(id), offset, data.subrange(0, n)),
        written.pc(id).dirty@ == before.pc(id).dirty@.union(touched(offset, n)),
    ensures
        forall|j: int| 0 <= j < n ==> #[trigger] synced(written, id)[offset + j] == data[j],
{
    assert forall|j: int| 0 <= j < n implies #[trigger] synced(written, id)[offset + j] == data[j] by {
        assert(touched(offset, n).contains(page_of(offset + j)));
        assert(written.seen(id)[offset + j] == data.subrange(0, n)[j]);
    }
}

} // verus!
