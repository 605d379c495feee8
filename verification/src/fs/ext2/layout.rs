//! On-disk records of the ext2 file system, decoded from their little-endian bytes.
use vstd::prelude::*;
use crate::utils::{le_u16, le_u32, read_le_u16, read_le_u32};

verus! {

/// The size of the superblock record.
pub const SUPER_BLOCK_SIZE: usize = 1024;
/// The size of a block group descriptor record.
pub const GROUP_DESC_SIZE: usize = 32;
/// The size of an inode record.
pub const INODE_SIZE: usize = 128;
/// The size of a directory entry header.
pub const DIR_ENTRY_HEADER_SIZE: usize = 8;

/// The fields of the superblock that the file system reads.
#[derive(Clone, Debug)]
pub struct SuperBlock {
    /// Number of inodes in the whole file system.
    pub inodes_count: u32,
    /// Number of blocks in the whole file system.
    pub blocks_count: u32,
    /// Number of free blocks.
    pub free_blocks_count: u32,
    /// Number of free inodes.
    pub free_inodes_count: u32,
    /// The block size is `1024 << log_block_size` bytes.
    pub log_block_size: u32,
    /// Number of blocks in each block group.
    pub blocks_per_group: u32,
    /// Number of inodes in each block group.
    pub inodes_per_group: u32,
    /// Magic number.
    pub magic: u16,
    /// Size of an on-disk inode record.
    pub inode_size: u16,
    /// Volume name (NUL-terminated ASCII), 16 bytes.
    pub volume_name: Vec<u8>,
}

/// The superblock stored in the 1024 bytes `s`.
pub open spec fn spec_super_block(s: Seq<u8>) -> (u32, u32, u32, u32, u32, u32, u32, u16, u16, Seq<u8>) {
    (
        le_u32(s, 0),
        le_u32(s, 4),
        le_u32(s, 12),
        le_u32(s, 16),
        le_u32(s, 24),
        le_u32(s, 32),
        le_u32(s, 40),
        le_u16(s, 56),
        le_u16(s, 88),
        s.subrange(120, 136),
    )
}

impl SuperBlock {
    /// The record as a tuple of its fields, in declaration order.
    pub open spec fn fields(&self) -> (u32, u32, u32, u32, u32, u32, u32, u16, u16, Seq<u8>) {
        (
            self.inodes_count,
            self.blocks_count,
            self.free_blocks_count,
            self.free_inodes_count,
            self.log_block_size,
            self.blocks_per_group,
            self.inodes_per_group,
            self.magic,
            self.inode_size,
            self.volume_name@,
        )
    }

    /// Decodes a superblock from exactly 1024 bytes; `None` for any other length.
    pub fn read_from_bytes(buf: &Vec<u8>) -> (r: Option<SuperBlock>)
        ensures
            r.is_some() <==> buf.len() == SUPER_BLOCK_SIZE,
            r matches Some(sb) ==> sb.fields() == spec_super_block(buf@),
    {
        if buf.len() != SUPER_BLOCK_SIZE {
            return None;
        }
        let mut volume_name: Vec<u8> = Vec::new();
        let mut i: usize = 120;
        while i < 136
            invariant
                120 <= i <= 136,
                buf.len() == SUPER_BLOCK_SIZE,
                volume_name@ == buf@.subrange(120, i as int),
            decreases 136 - i,
        {
            volume_name.push(buf[i]);
            i = i + 1;
            assert(volume_name@ =~= buf@.subrange(120, i as int));
        }
        Some(SuperBlock {
            inodes_count: read_le_u32(buf, 0),
            blocks_count: read_le_u32(buf, 4),
            free_blocks_count: read_le_u32(buf, 12),
            free_inodes_count: read_le_u32(buf, 16),
            log_block_size: read_le_u32(buf, 24),
            blocks_per_group: read_le_u32(buf, 32),
            inodes_per_group: read_le_u32(buf, 40),
            magic: read_le_u16(buf, 56),
            inode_size: read_le_u16(buf, 88),
            volume_name,
        })
    }
}

/// A block group descriptor.
#[derive(Clone, Copy, Debug, PartialEq, Eq)]
pub struct GroupDescriptor {
    /// First block of the block bitmap.
    pub block_bitmap: u32,
    /// First block of the inode bitmap.
    pub inode_bitmap: u32,
    /// First block of the inode table.
    pub inode_table: u32,
    /// Number of free blocks.
    pub free_blocks_count: u16,
    /// Number of free inodes.
    pub free_inodes_count: u16,
    /// Number of directories.
    pub dirs_count: u16,
}

/// The group descriptor stored in the 32 bytes `s`.
pub open spec fn spec_group_desc(s: Seq<u8>) -> GroupDescriptor {
    GroupDescriptor {
        block_bitmap: le_u32(s, 0),
        inode_bitmap: le_u32(s, 4),
        inode_table: le_u32(s, 8),
        free_blocks_count: le_u16(s, 12),
        free_inodes_count: le_u16(s, 14),
        dirs_count: le_u16(s, 16),
    }
}

impl GroupDescriptor {
    /// Decodes a group descriptor from exactly 32 bytes; `None` for any other length.
    pub fn read_from_bytes(buf: &Vec<u8>) -> (r: Option<GroupDescriptor>)
        ensures
            r.is_some() <==> buf.len() == GROUP_DESC_SIZE,
            r matches Some(g) ==> g == spec_group_desc(buf@),
    {
        if buf.len() != GROUP_DESC_SIZE {
            return None;
        }
        Some(GroupDescriptor {
            block_bitmap: read_le_u32(buf, 0),
            inode_bitmap: read_le_u32(buf, 4),
            inode_table: read_le_u32(buf, 8),
            free_blocks_count: read_le_u16(buf, 12),
            free_inodes_count: read_le_u16(buf, 14),
            dirs_count: read_le_u16(buf, 16),
        })
    }
}

/// The fields of an on-disk inode that the file system reads.
#[derive(Clone, Debug)]
pub struct Inode {
    /// File type and access rights.
    pub mode: u16,
    /// File size in bytes.
    pub size: u32,
    /// Number of 512-byte sectors the file occupies.
    pub logical_block_count: u32,
    /// The twelve direct block pointers.
    pub direct_blocks: Vec<u32>,
    /// Singly indirect block pointer.
    pub level1_indirect_block: u32,
    /// Doubly indirect block pointer.
    pub level2_indirect_block: u32,
    /// Triply indirect block pointer.
    pub level3_indirect_block: u32,
}

/// The view of an inode record: its fields as plain values.
pub struct InodeView {
    pub mode: u16,
    pub size: u32,
    pub logical_block_count: u32,
    pub direct_blocks: Seq<u32>,
    pub level1_indirect_block: u32,
    pub level2_indirect_block: u32,
    pub level3_indirect_block: u32,
}

impl View for Inode {
    type V = InodeView;

    open spec fn view(&self) -> InodeView {
        InodeView {
            mode: self.mode,
            size: self.size,
            logical_block_count: self.logical_block_count,
            direct_blocks: self.direct_blocks@,
            level1_indirect_block: self.level1_indirect_block,
            level2_indirect_block: self.level2_indirect_block,
            level3_indirect_block: self.level3_indirect_block,
        }
    }
}

/// The inode stored in the 128 bytes `s`.
pub open spec fn spec_inode(s: Seq<u8>) -> InodeView {
    InodeView {
        mode: le_u16(s, 0),
        size: le_u32(s, 4),
        logical_block_count: le_u32(s, 28),
        direct_blocks: Seq::new(12, |i: int| le_u32(s, 40 + 4 * i)),
        level1_indirect_block: le_u32(s, 88),
        level2_indirect_block: le_u32(s, 92),
        level3_indirect_block: le_u32(s, 96),
    }
}

impl Inode {
    /// Decodes an inode from exactly 128 bytes; `None` for any other length.
    pub fn read_from_bytes(buf: &Vec<u8>) -> (r: Option<Inode>)
        ensures
            r.is_some() <==> buf.len() == INODE_SIZE,
            r matches Some(inode) ==> inode@ == spec_inode(buf@),
    {
        if buf.len() != INODE_SIZE {
            return None;
        }
        let mut direct_blocks: Vec<u32> = Vec::new();
        let mut i: usize = 0;
        while i < 12
            invariant
                i <= 12,
                buf.len() == INODE_SIZE,
                direct_blocks.len() == i,
                forall|j: int| 0 <= j < i ==> direct_blocks@[j] == le_u32(buf@, 40 + 4 * j),
            decreases 12 - i,
        {
            direct_blocks.push(read_le_u32(buf, 40 + 4 * i));
            i = i + 1;
        }
        let r = Inode {
            mode: read_le_u16(buf, 0),
            size: read_le_u32(buf, 4),
            logical_block_count: read_le_u32(buf, 28),
            direct_blocks,
            level1_indirect_block: read_le_u32(buf, 88),
            level2_indirect_block: read_le_u32(buf, 92),
            level3_indirect_block: read_le_u32(buf, 96),
        };
        assert(r@.direct_blocks =~= spec_inode(buf@).direct_blocks);
        Some(r)
    }
}

/// The fixed-size head of a directory entry.
#[derive(Clone, Copy, Debug, PartialEq, Eq)]
pub struct DirEntryHeader {
    /// The inode that the entry names; 0 marks a deleted entry.
    pub inode: u32,
    /// Length of the whole entry: header, name and padding.
    pub rec_len: u16,
    /// Length of the name.
    pub name_len: u8,
}

/// The directory entry header stored at `s[o..o + 8]`.
pub open spec fn spec_dir_entry_header(s: Seq<u8>, o: int) -> DirEntryHeader {
    DirEntryHeader { inode: le_u32(s, o), rec_len: le_u16(s, o + 4), name_len: s[o + 6] }
}

impl DirEntryHeader {
    /// Decodes the header stored at `buf[off..off + 8]`.
    pub fn read_at(buf: &Vec<u8>, off: usize) -> (r: DirEntryHeader)
        requires
            off + DIR_ENTRY_HEADER_SIZE <= buf.len(),
        ensures
            r == spec_dir_entry_header(buf@, off as int),
    {
        DirEntryHeader {
            inode: read_le_u32(buf, off),
            rec_len: read_le_u16(buf, off + 4),
            name_len: buf[off + 6],
        }
    }
}

} // verus!
