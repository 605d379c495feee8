//! ext2 inodes: mapping file blocks to device blocks, reading files and directories.
use vstd::prelude::*;
use crate::fs::block_device::{BlockDevice, copy_bytes};
use crate::fs::ext2::fs::{Ext2Error, FileSystem, u32_at, lemma_block_size_bounds};
use crate::fs::ext2::layout::{self, DirEntryHeader, InodeView, spec_dir_entry_header, DIR_ENTRY_HEADER_SIZE};
use crate::fs::vfs::interface::{DirectoryEntry, FileType, Metadata};
use crate::utils::{le_u16, le_u32, BlockIterator, bytes_eq, is_valid_utf8, lemma_block_piece, sub_bytes, zeros};

verus! {

/// The block pointer at index `idx` of pointer block `block`.
pub open spec fn ptr_at(disk: Seq<u8>, block: int, idx: int, bs: int) -> Option<u32> {
    u32_at(disk, block * bs + idx * 4)
}

/// How many file blocks an inode can address: 12 direct ones, then one, two and three
/// levels of pointer blocks of `p` pointers each.
pub open spec fn max_file_blocks(p: int) -> int {
    12 + p + p * p + p * p * p
}

/// The device block that holds file block `lb` (0 for a hole), or `None` when a
/// pointer on the way lies past the end of the device.
pub open spec fn spec_map_block(disk: Seq<u8>, l: InodeView, bs: int, lb: int) -> Option<u32> {
    let p = bs / 4;
    if lb < 12 {
        Some(l.direct_blocks[lb])
    } else if lb - 12 < p {
        if l.level1_indirect_block == 0 {
            Some(0)
        } else {
            ptr_at(disk, l.level1_indirect_block as int, lb - 12, bs)
        }
    } else if lb - 12 - p < p * p {
        let r = lb - 12 - p;
        if l.level2_indirect_block == 0 {
            Some(0)
        } else {
            match ptr_at(disk, l.level2_indirect_block as int, r / p, bs) {
                None => None,
                Some(b1) => if b1 == 0 {
                    Some(0)
                } else {
                    ptr_at(disk, b1 as int, r % p, bs)
                },
            }
        }
    } else {
        let r = lb - 12 - p - p * p;
        if l.level3_indirect_block == 0 {
            Some(0)
        } else {
            match ptr_at(disk, l.level3_indirect_block as int, r / (p * p), bs) {
                None => None,
                Some(b2) => if b2 == 0 {
                    Some(0)
                } else {
                    match ptr_at(disk, b2 as int, (r % (p * p)) / p, bs) {
                        None => None,
                        Some(b1) => if b1 == 0 {
                            Some(0)
                        } else {
                            ptr_at(disk, b1 as int, (r % (p * p)) % p, bs)
                        },
                    }
                },
            }
        }
    }
}

/// Byte `i` of the file: 0 in a hole, `None` when it lies past the end of the device.
pub open spec fn file_byte(disk: Seq<u8>, l: InodeView, bs: int, i: int) -> Option<u8> {
    match spec_map_block(disk, l, bs, i / bs) {
        None => None,
        Some(b) => if b == 0 {
            Some(0u8)
        } else if b * bs + i % bs < disk.len() {
            Some(disk[b * bs + i % bs])
        } else {
            None
        },
    }
}

/// Every byte in `[start, end)` of the file can be read.
pub open spec fn file_readable(disk: Seq<u8>, l: InodeView, bs: int, start: int, end: int) -> bool {
    forall|i: int| start <= i < end ==> (#[trigger] file_byte(disk, l, bs, i)) is Some
}

/// The bytes `[start, end)` of the file, where they can be read.
pub open spec fn file_bytes(disk: Seq<u8>, l: InodeView, bs: int, start: int, end: int) -> Seq<u8> {
    Seq::new((end - start) as nat, |k: int| file_byte(disk, l, bs, start + k).unwrap())
}

/// The directory entry found by starting at byte `offset` of the directory data `buf`:
/// deleted entries (inode 0) are skipped, and a deleted entry of length 0, or one that
/// reaches past the end of the data, ends the directory. Gives the offset of the next entry, the header and the name.
pub open spec fn spec_read_dir_entry(buf: Seq<u8>, offset: int) -> Option<(int, DirEntryHeader, Seq<u8>)>
    decreases buf.len() - offset,
{
    if offset < 0 || offset + 8 > buf.len() {
        None
    } else {
        let h = spec_dir_entry_header(buf, offset);
        if h.inode == 0 {
            if h.rec_len == 0 || offset + h.rec_len > buf.len() {
                None
            } else {
                spec_read_dir_entry(buf, offset + h.rec_len)
            }
        } else {
            let name_end = offset + 8 + h.name_len;
            if name_end > buf.len() {
                None
            } else {
                let name = buf.subrange(offset + 8, name_end);
                if vstd::utf8::valid_utf8(name) {
                    Some((offset + h.rec_len, h, name))
                } else {
                    None
                }
            }
        }
    }
}

/// The inode number of the entry named `name`, looking from byte `offset` of the
/// directory data `buf` on. A live entry of length 0 ends the search.
pub open spec fn spec_dir_find(buf: Seq<u8>, offset: int, name: Seq<u8>) -> Option<u64>
    decreases buf.len() - offset,
{
    match spec_read_dir_entry(buf, offset) {
        None => None,
        Some((next, h, n)) => if n == name {
            Some(h.inode as u64)
        } else if next <= offset || next > buf.len() {
            None
        } else {
            spec_dir_find(buf, next, name)
        },
    }
}

/// Reads the directory entry found from byte `offset` of the directory data `buf`.
pub fn read_dir_entry(buf: &Vec<u8>, offset: u64) -> (r: Option<(u64, DirEntryHeader, Vec<u8>)>)
    requires
        // directory data comes from a file, whose size is a u32
        buf.len() <= u32::MAX,
    ensures
        r matches Some((next, h, name)) ==> spec_read_dir_entry(buf@, offset as int) == Some(
            (next as int, h, name@),
        ),
        r is None ==> spec_read_dir_entry(buf@, offset as int) is None,
{
    let len = buf.len() as u64;
    let mut cur = offset;
    loop
        invariant
            len == buf.len(),
            len <= u32::MAX,
            spec_read_dir_entry(buf@, cur as int) == spec_read_dir_entry(buf@, offset as int),
        decreases len + 1 - cur,
    {
        if cur > len || len - cur < 8 {
            assert(spec_read_dir_entry(buf@, cur as int) is None);
            return None;
        }
        let o = cur as usize;
        let header = DirEntryHeader::read_at(buf, o);
        if header.inode == 0 {
            // a deleted entry: skip it
            if header.rec_len == 0 || header.rec_len as u64 > len - cur {
                return None;
            }
            cur = cur + header.rec_len as u64;
            continue;
        }
        if header.name_len as u64 > len - cur - 8 {
            return None;
        }
        let name_end = o + 8 + header.name_len as usize;
        let name = sub_bytes(buf, o + 8, name_end);
        if !is_valid_utf8(&name) {
            return None;
        }
        return Some((cur + header.rec_len as u64, header, name));
    }
}

} // verus!

verus! {

/// The whole contents of the file described by `l`, if every byte can be read.
pub open spec fn file_data(disk: Seq<u8>, l: InodeView, bs: int) -> Option<Seq<u8>> {
    if file_readable(disk, l, bs, 0, l.size as int) {
        Some(file_bytes(disk, l, bs, 0, l.size as int))
    } else {
        None
    }
}

/// The file type that an inode's mode gives.
pub open spec fn spec_file_type(mode: u16) -> Result<FileType, Ext2Error> {
    let t = mode & 0xF000u16;
    if t == 0x8000u16 {
        Ok(FileType::File)
    } else if t == 0x4000u16 {
        Ok(FileType::Directory)
    } else {
        Err(Ext2Error::BadFileType(t))
    }
}

/// What looking up `name` in the directory described by `l` gives.
pub open spec fn spec_find(disk: Seq<u8>, l: InodeView, bs: int, name: Seq<u8>) -> Result<Option<u64>, Ext2Error> {
    match file_data(disk, l, bs) {
        None => Err(Ext2Error::OutOfRange),
        Some(d) => Ok(spec_dir_find(d, 0, name)),
    }
}

/// The name `..`.
pub open spec fn dot_dot() -> Seq<u8> {
    seq![0x2eu8, 0x2eu8]
}

/// An ext2 inode: its on-disk record and its number.
pub struct Inode {
    layout: layout::Inode,
    id: u32,
}

impl Inode {
    pub closed spec fn spec_layout(&self) -> layout::Inode {
        self.layout
    }

    pub closed spec fn spec_id(&self) -> u32 {
        self.id
    }

    /// The record has its twelve direct pointers.
    pub open spec fn wf(&self) -> bool {
        self.spec_layout()@.direct_blocks.len() == 12
    }

    pub fn new(layout: layout::Inode, id: u32) -> (r: Self)
        ensures
            r.spec_layout() == layout,
            r.spec_id() == id,
    {
        Inode { layout, id }
    }

    /// The inode's number.
    pub fn id(&self) -> (r: u64)
        ensures
            r == self.spec_id(),
    {
        self.id as u64
    }

    /// The file size recorded in the inode.
    pub fn size(&self) -> (r: u32)
        ensures
            r == self.spec_layout()@.size,
    {
        self.layout.size
    }

    /// Reads pointer `idx` of pointer block `block`.
    fn read_ptr<D: BlockDevice>(fs: &FileSystem<D>, block: u32, idx: u64) -> (r: Result<u32, Ext2Error>)
        requires
            fs.wf(),
            idx < 0x1_0000_0000,
        ensures
            r == match ptr_at(fs.disk(), block as int, idx as int, fs.spec_block_size() as int) {
                Some(v) => Ok::<u32, Ext2Error>(v),
                None => Err(Ext2Error::OutOfRange),
            },
    {
        let bs = fs.block_size() as u64;
        assert(block as u64 * bs <= 0xFFFF_FFFF * 0x8000_0000) by (nonlinear_arith)
            requires
                bs <= 0x8000_0000,
        ;
        fs.read_u32_at(block as u64 * bs + idx * 4)
    }

    /// Finds the device block that holds file block `logical_block_id`; 0 stands for a hole.
    pub fn map_logical_block<D: BlockDevice>(&self, fs: &FileSystem<D>, logical_block_id: u32) -> (r: Result<u32, Ext2Error>)
        requires
            fs.wf(),
            self.wf(),
            logical_block_id < max_file_blocks(fs.spec_block_size() as int / 4),
        ensures
            r == match spec_map_block(fs.disk(), self.spec_layout()@, fs.spec_block_size() as int, logical_block_id as int) {
                Some(v) => Ok::<u32, Ext2Error>(v),
                None => Err(Ext2Error::OutOfRange),
            },
    {
        let bs = fs.block_size() as u64;
        // pointers per pointer block
        let ptrs: u64 = bs / 4;
        proof {
            assert(256 <= ptrs <= 0x2000_0000);
            assert(ptrs * ptrs <= 0x2000_0000 * 0x2000_0000) by (nonlinear_arith)
                requires ptrs <= 0x2000_0000;
        }
        let lb0 = logical_block_id as u64;
        if lb0 < 12 {
            return Ok(self.layout.direct_blocks[logical_block_id as usize]);
        }
        let mut lb = lb0 - 12;
        // singly indirect
        if lb < ptrs {
            if self.layout.level1_indirect_block == 0 {
                return Ok(0);
            }
            return Self::read_ptr(fs, self.layout.level1_indirect_block, lb);
        }
        lb = lb - ptrs;
        // doubly indirect
        if lb < ptrs * ptrs {
            if self.layout.level2_indirect_block == 0 {
                return Ok(0);
            }
            proof {
                vstd::arithmetic::div_mod::lemma_div_is_ordered_by_denominator(lb as int, 1, ptrs as int);
                vstd::arithmetic::div_mod::lemma_mod_decreases(lb as nat, ptrs as nat);
            }
            let level1 = Self::read_ptr(fs, self.layout.level2_indirect_block, lb / ptrs)?;
            if level1 == 0 {
                return Ok(0);
            }
            return Self::read_ptr(fs, level1, lb % ptrs);
        }
        lb = lb - ptrs * ptrs;
        // triply indirect
        if self.layout.level3_indirect_block == 0 {
            return Ok(0);
        }
        let pp = ptrs * ptrs;
        proof {
            assert(pp >= 1) by (nonlinear_arith)
                requires pp == ptrs * ptrs, ptrs >= 256;
            vstd::arithmetic::div_mod::lemma_div_is_ordered_by_denominator(lb as int, 1, pp as int);
            vstd::arithmetic::div_mod::lemma_mod_decreases(lb as nat, pp as nat);
            vstd::arithmetic::div_mod::lemma_div_is_ordered_by_denominator((lb % pp) as int, 1, ptrs as int);
            vstd::arithmetic::div_mod::lemma_mod_decreases((lb % pp) as nat, ptrs as nat);
        }
        let level2 = Self::read_ptr(fs, self.layout.level3_indirect_block, lb / pp)?;
        if level2 == 0 {
            return Ok(0);
        }
        let level1 = Self::read_ptr(fs, level2, (lb % pp) / ptrs)?;
        if level1 == 0 {
            return Ok(0);
        }
        Self::read_ptr(fs, level1, (lb % pp) % ptrs)
    }

    /// Reads bytes `[offset, offset + buf.len())` of the file into `buf`; holes read as
    /// zeros. Fails when some of them lie past the end of the device.
    pub fn read_at<D: BlockDevice>(&self, fs: &FileSystem<D>, offset: usize, buf: &mut Vec<u8>) -> (r: Result<(), Ext2Error>)
        requires
            fs.wf(),
            self.wf(),
            offset + old(buf).len() <= self.spec_layout()@.size,
        ensures
            final(buf).len() == old(buf).len(),
            r is Ok <==> file_readable(fs.disk(), self.spec_layout()@, fs.spec_block_size() as int,
                offset as int, offset + old(buf).len()),
            r is Ok ==> final(buf)@ == file_bytes(fs.disk(), self.spec_layout()@,
                fs.spec_block_size() as int, offset as int, offset + old(buf).len()),
            r is Err ==> r == Err::<(), Ext2Error>(Ext2Error::OutOfRange),
    {
        let block_size = fs.block_size();
        let capacity = fs.block_device().capacity();
        let len = buf.len();
        let ghost disk = fs.disk();
        let ghost l = self.spec_layout()@;
        let ghost bs = block_size as int;
        let mut pos: usize = 0;
        let mut blocks = BlockIterator::new(block_size, offset, len);
        loop
            invariant
                fs.wf(),
                self.wf(),
                disk == fs.disk(),
                l == self.spec_layout()@,
                bs == fs.spec_block_size(),
                block_size == bs,
                1024 <= bs <= 0x8000_0000,
                capacity == disk.len(),
                blocks.wf(),
                blocks.spec_block_size() == block_size,
                blocks.spec_end() == offset + len,
                blocks.spec_pos() == offset + pos,
                pos <= len,
                len == old(buf).len(),
                buf.len() == len,
                offset + len <= l.size,
                forall|i: int| 0 <= i < pos ==> file_byte(disk, l, bs, offset + i) == Some(#[trigger] buf@[i]),
            ensures
                pos == len,
                forall|i: int| 0 <= i < pos ==> file_byte(disk, l, bs, offset + i) == Some(#[trigger] buf@[i]),
            decreases offset + len - blocks.spec_pos(),
        {
            let next = blocks.next();
            let block = match next {
                None => {
                    break;
                },
                Some(block) => block,
            };
            let ghost start = offset + pos;
            proof {
                // the file block number is small enough to be addressed by the inode
                let b = block.block_id as int;
                assert(b * bs <= start);
                assert(b < 0x40_0000) by (nonlinear_arith)
                    requires b * bs <= start, start < 0x1_0000_0000, bs >= 1024, b >= 0;
                let p = bs / 4;
                assert(p >= 256);
                assert(p * p * p >= 0x100_0000) by (nonlinear_arith)
                    requires p >= 256;
                assert(b < max_file_blocks(p)) by (nonlinear_arith)
                    requires b < 0x40_0000, p * p * p >= 0x100_0000, p >= 256;
                assert forall|k: int| 0 <= k < block.size implies
                    (#[trigger] ((start + k) / bs)) == b && (start + k) % bs == block.offset + k by {
                    lemma_block_piece(bs as nat, b as nat, block.offset as nat, k as nat);
                }
            }
            let ghost old_buf = buf@;
            let mapped = self.map_logical_block(fs, block.block_id() as u32);
            let block_id = match mapped {
                Ok(b) => b,
                Err(e) => {
                    proof {
                        assert(file_byte(disk, l, bs, start + 0) is None);
                    }
                    return Err(e);
                },
            };
            if block_id == 0 {
                // a hole reads as zeros
                let zero = zeros(block.size());
                copy_bytes(buf, pos, &zero, 0, block.size());
            } else {
                proof {
                    assert(block_id as u64 * block_size as u64 <= 0xFFFF_FFFF * 0x8000_0000) by (nonlinear_arith)
                        requires block_size <= 0x8000_0000, block_id <= 0xFFFF_FFFF;
                }
                let addr = block_id as u64 * block_size as u64 + block.offset() as u64;
                if addr > capacity as u64 || ((capacity as u64 - addr) as usize) < block.size() {
                    proof {
                        let k = block.size - 1;
                        assert(file_byte(disk, l, bs, start + k) is None);
                    }
                    return Err(Ext2Error::OutOfRange);
                }
                let mut part = zeros(block.size());
                fs.block_device().read_at(addr as usize, &mut part);
                copy_bytes(buf, pos, &part, 0, block.size());
            }
            proof {
                assert forall|i: int| 0 <= i < pos + block.size implies
                    file_byte(disk, l, bs, offset + i) == Some(#[trigger] buf@[i]) by {
                    if i < pos {
                        assert(buf@[i] == old_buf[i]);
                    } else {
                        let k = i - pos;
                        assert((start + k) / bs == block.block_id as int);
                    }
                }
            }
            pos = pos + block.size();
        }
        proof {
            assert(buf@ =~= file_bytes(disk, l, bs, offset as int, offset + len));
            assert forall|i: int| offset <= i < offset + len implies
                (#[trigger] file_byte(disk, l, bs, i)) is Some by {
                assert(file_byte(disk, l, bs, offset + (i - offset)) == Some(buf@[i - offset]));
            }
        }
        Ok(())
    }

    /// Reads the whole file.
    fn read_all<D: BlockDevice>(&self, fs: &FileSystem<D>) -> (r: Result<Vec<u8>, Ext2Error>)
        requires
            fs.wf(),
            self.wf(),
        ensures
            match file_data(fs.disk(), self.spec_layout()@, fs.spec_block_size() as int) {
                None => r == Err::<Vec<u8>, Ext2Error>(Ext2Error::OutOfRange),
                Some(d) => r matches Ok(v) && v@ == d,
            },
    {
        let mut data = zeros(self.layout.size as usize);
        self.read_at(fs, 0, &mut data)?;
        Ok(data)
    }

    /// Looks up `name` in this directory; the inode number of the entry, if there is one.
    pub fn find<D: BlockDevice>(&self, fs: &FileSystem<D>, name: &Vec<u8>) -> (r: Result<Option<u64>, Ext2Error>)
        requires
            fs.wf(),
            self.wf(),
        ensures
            r == spec_find(fs.disk(), self.spec_layout()@, fs.spec_block_size() as int, name@),
    {
        let data = self.read_all(fs)?;
        let ghost d = data@;
        let len = data.len() as u64;
        let mut cur: u64 = 0;
        loop
            invariant
                d == data@,
                file_data(fs.disk(), self.spec_layout()@, fs.spec_block_size() as int) == Some(d),
                len == data.len(),
                len <= u32::MAX,
                cur <= len,
                spec_dir_find(d, cur as int, name@) == spec_dir_find(d, 0, name@),
            decreases len - cur,
        {
            match read_dir_entry(&data, cur) {
                None => {
                    return Ok(None);
                },
                Some((next, header, entry_name)) => {
                    if bytes_eq(&entry_name, name) {
                        return Ok(Some(header.inode as u64));
                    }
                    if next <= cur || next > len {
                        return Ok(None);
                    }
                    cur = next;
                },
            }
        }
    }

    /// The inode number of the parent directory, or `None` for the root, whose `..` is
    /// itself.
    pub fn parent<D: BlockDevice>(&self, fs: &FileSystem<D>) -> (r: Result<Option<u64>, Ext2Error>)
        requires
            fs.wf(),
            self.wf(),
        ensures
            r == match spec_find(fs.disk(), self.spec_layout()@, fs.spec_block_size() as int, dot_dot()) {
                Err(e) => Err::<Option<u64>, Ext2Error>(e),
                Ok(None) => Err(Ext2Error::MissingParent),
                Ok(Some(id)) => if id == self.spec_id() { Ok(None) } else { Ok(Some(id)) },
            },
    {
        let mut name: Vec<u8> = Vec::new();
        name.push(0x2e);
        name.push(0x2e);
        assert(name@ =~= dot_dot());
        match self.find(fs, &name)? {
            None => Err(Ext2Error::MissingParent),
            Some(inode_id) => {
                if inode_id == self.id as u64 {
                    Ok(None)
                } else {
                    Ok(Some(inode_id))
                }
            },
        }
    }

    /// The inode's type and size.
    pub fn metadata(&self) -> (r: Result<Metadata, Ext2Error>)
        ensures
            r == match spec_file_type(self.spec_layout()@.mode) {
                Err(e) => Err::<Metadata, Ext2Error>(e),
                Ok(t) => Ok(Metadata { file_type: t, size: self.spec_layout()@.size as usize }),
            },
    {
        let t = self.layout.mode & 0xF000;
        let file_type = if t == 0x8000 {
            FileType::File
        } else if t == 0x4000 {
            FileType::Directory
        } else {
            return Err(Ext2Error::BadFileType(t));
        };
        Ok(Metadata { file_type, size: self.layout.size as usize })
    }

    /// The directory entry found from position `offset_cookie` of this directory, with the
    /// type of the inode it names.
    pub fn read_dir<D: BlockDevice>(&self, fs: &FileSystem<D>, offset_cookie: u64) -> (r: Result<Option<DirectoryEntry>, Ext2Error>)
        requires
            fs.wf(),
            self.wf(),
        ensures
            match file_data(fs.disk(), self.spec_layout()@, fs.spec_block_size() as int) {
                None => r == Err::<Option<DirectoryEntry>, Ext2Error>(Ext2Error::OutOfRange),
                Some(d) => match spec_read_dir_entry(d, offset_cookie as int) {
                    None => r is Ok && r->Ok_0 is None,
                    Some((next, h, n)) => match fs.spec_get_inode(h.inode as u64) {
                        Err(e) => r == Err::<Option<DirectoryEntry>, Ext2Error>(e),
                        Ok((lv, _)) => match spec_file_type(lv.mode) {
                            Err(e) => r == Err::<Option<DirectoryEntry>, Ext2Error>(e),
                            Ok(t) => r matches Ok(Some(e)) && e.name@ == n && e.offset_cookie == next
                                && e.inode == h.inode && e.file_type == t,
                        },
                    },
                },
            },
    {
        let data = self.read_all(fs)?;
        let (next_offset, header, name) = match read_dir_entry(&data, offset_cookie) {
            None => {
                return Ok(None);
            },
            Some(entry) => entry,
        };
        let inode = fs.get_inode(header.inode as u64)?;
        let metadata = inode.metadata()?;
        Ok(Some(DirectoryEntry {
            name,
            offset_cookie: next_offset,
            inode: header.inode as u64,
            file_type: metadata.file_type,
        }))
    }
}

/// How a file block is found, level by level, with pointer blocks of `p = bs / 4`
/// little-endian 32-bit pointers (pointer `k` of block `b` is the four bytes at
/// `b * bs + 4 * k`), where 0 stands for a hole: file blocks `0..12` are the direct
/// pointers; the next `p` are the pointers of the singly indirect block; for the next
/// `p * p`, numbered `j` from 0, the doubly indirect block's pointer `j / p` names a block
/// whose pointer `j % p` is the answer; for the rest, numbered `j` from 0, the triply
/// indirect block's pointer `j / (p * p)` names a block whose pointer `(j % (p * p)) / p`
/// names a block whose pointer `j % p` is the answer. `None` where a pointer lies past
/// the end of the device.
pub proof fn lemma_map_block_levels(disk: Seq<u8>, l: InodeView, bs: int, n: int)
    requires
        bs >= 4,
        0 <= n,
    ensures
        ({
            let p = bs / 4;
            let rd = |b: int, k: int| if 0 <= b * bs + 4 * k && b * bs + 4 * k + 4 <= disk.len() {
                Some(le_u32(disk, b * bs + 4 * k))
            } else {
                None
            };
            let via = |b: u32, k: int| if b == 0 { Some(0u32) } else { rd(b as int, k) };
            &&& n < 12 ==> spec_map_block(disk, l, bs, n) == Some(l.direct_blocks[n])
            &&& 12 <= n < 12 + p ==> spec_map_block(disk, l, bs, n) == via(l.level1_indirect_block, n - 12)
            &&& 12 + p <= n < 12 + p + p * p ==> {
                let j = n - 12 - p;
                spec_map_block(disk, l, bs, n) == match via(l.level2_indirect_block, j / p) {
                    None => None,
                    Some(a) => via(a, j % p),
                }
            }
            &&& 12 + p + p * p <= n ==> {
                let j = n - 12 - p - p * p;
                spec_map_block(disk, l, bs, n) == match via(l.level3_indirect_block, j / (p * p)) {
                    None => None,
                    Some(a) => match via(a, (j % (p * p)) / p) {
                        None => None,
                        Some(b) => via(b, j % p),
                    },
                }
            }
        }),
{
    let p = bs / 4;
    if 12 + p + p * p <= n {
        let j = n - 12 - p - p * p;
        assert(p > 0);
        assert((j % (p * p)) % p == j % p) by {
            assert(p * p > 0) by (nonlinear_arith) requires p > 0;
            vstd::arithmetic::div_mod::lemma_mod_mod(j, p, p);
        }
    }
}

/// How a directory entry is read at byte `offset` of the directory data: its inode number
/// is the little-endian 32-bit value at `offset`, its record length the 16-bit value at
/// `offset + 4`, its name length the byte at `offset + 6`, and its name the bytes that
/// follow the 8-byte header. A live entry (inode not 0) whose header and name fit, with a
/// UTF-8 name, is read there, and the next entry starts a record length further on; a
/// deleted entry (inode 0) that fits and has a record length is stepped over.
pub proof fn lemma_dir_entry_layout(buf: Seq<u8>, offset: int)
    requires
        0 <= offset,
        offset + 8 <= buf.len(),
    ensures
        ({
            let ino = le_u32(buf, offset);
            let rec_len = le_u16(buf, offset + 4);
            let name_len = buf[offset + 6];
            let name = buf.subrange(offset + 8, offset + 8 + name_len);
            &&& ino != 0 && offset + 8 + name_len <= buf.len() && vstd::utf8::valid_utf8(name)
                ==> spec_read_dir_entry(buf, offset) == Some((offset + rec_len,
                    DirEntryHeader { inode: ino, rec_len, name_len }, name))
            &&& ino != 0 && offset + 8 + name_len > buf.len() ==> spec_read_dir_entry(buf, offset).is_none()
            &&& ino == 0 && rec_len > 0 && offset + rec_len <= buf.len()
                ==> spec_read_dir_entry(buf, offset) == spec_read_dir_entry(buf, offset + rec_len)
        }),
{
}

} // verus!
