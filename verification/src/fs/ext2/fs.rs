//! The ext2 file system as a whole: its superblock, group descriptors and inode table.
use vstd::prelude::*;
use crate::fs::block_device::BlockDevice;
use crate::fs::ext2::layout::{
    self, GroupDescriptor, SuperBlock, spec_group_desc, spec_inode, spec_super_block, InodeView,
    GROUP_DESC_SIZE, INODE_SIZE, SUPER_BLOCK_SIZE,
};
use crate::fs::ext2::inode::Inode;
use crate::utils::{le_u32, read_le_u32};

verus! {

/// The magic number of an ext2 superblock.
pub const EXT2_SUPER_MAGIC: u16 = 0xEF53;

/// The largest `log_block_size` for which the block size, `1024 << log_block_size`, fits in
/// 32 bits.
pub const MAX_LOG_BLOCK_SIZE: u32 = 21;

/// Why an ext2 file system could not be used.
#[derive(Clone, Copy, Debug, PartialEq, Eq, Structural)]
pub enum Ext2Error {
    /// The device is too small to hold a superblock.
    DeviceTooSmall,
    /// The superblock's magic number is wrong.
    BadMagic(u16),
    /// `1024 << log_block_size` does not fit in 32 bits.
    BadBlockSize(u32),
    /// A block group is declared to hold no blocks or no inodes.
    EmptyGroup,
    /// The block count and the inode count give different numbers of block groups.
    GroupCountMismatch(u32, u32),
    /// The on-disk inode record is not 128 bytes long.
    BadInodeSize(u16),
    /// A record lies past the end of the device.
    OutOfRange,
    /// Inode number 0 names no inode.
    InvalidInode,
    /// The inode's mode names neither a regular file nor a directory.
    BadFileType(u16),
    /// A directory has no `..` entry.
    MissingParent,
}

/// `a / b` rounded up.
pub open spec fn div_ceil(a: int, b: int) -> int {
    (a + b - 1) / b
}

/// The block size that `log_block_size` stands for.
pub open spec fn block_size_for(log: nat) -> nat
    decreases log,
{
    if log == 0 {
        1024
    } else {
        2 * block_size_for((log - 1) as nat)
    }
}

/// The first check that a superblock fails, in the order they are made, or `None`.
pub open spec fn super_block_check(
    f: (u32, u32, u32, u32, u32, u32, u32, u16, u16, Seq<u8>),
) -> Option<Ext2Error> {
    let (inodes_count, blocks_count, _, _, log, blocks_per_group, inodes_per_group, magic, inode_size, _) = f;
    if magic != EXT2_SUPER_MAGIC {
        Some(Ext2Error::BadMagic(magic))
    } else if log > MAX_LOG_BLOCK_SIZE {
        Some(Ext2Error::BadBlockSize(log))
    } else if blocks_per_group == 0 || inodes_per_group == 0 {
        Some(Ext2Error::EmptyGroup)
    } else if div_ceil(blocks_count as int, blocks_per_group as int) != div_ceil(
        inodes_count as int,
        inodes_per_group as int,
    ) {
        Some(Ext2Error::GroupCountMismatch(
            div_ceil(blocks_count as int, blocks_per_group as int) as u32,
            div_ceil(inodes_count as int, inodes_per_group as int) as u32,
        ))
    } else if inode_size != 128 {
        Some(Ext2Error::BadInodeSize(inode_size))
    } else {
        None
    }
}

/// Why the bytes `disk` cannot hold an ext2 file system, or `None`.
pub open spec fn mount_check(disk: Seq<u8>) -> Option<Ext2Error> {
    if disk.len() < 2048 {
        Some(Ext2Error::DeviceTooSmall)
    } else {
        super_block_check(spec_super_block(disk.subrange(1024, 2048)))
    }
}

/// The byte at which the descriptor of block group `group` starts: the descriptor table
/// begins at the first block boundary at or after byte 2048.
pub open spec fn group_desc_addr(bs: int, group: int) -> int {
    div_ceil(2048, bs) * bs + group * 32
}

/// The little-endian `u32` at byte `a` of `disk`, if all four bytes are on it.
pub open spec fn u32_at(disk: Seq<u8>, a: int) -> Option<u32> {
    if 0 <= a && a + 4 <= disk.len() {
        Some(le_u32(disk, a))
    } else {
        None
    }
}

/// An ext2 file system on a block device.
pub struct FileSystem<D: BlockDevice> {
    block_device: D,
    super_block: SuperBlock,
    block_size: u32,
}

/// Reads the superblock: the 1024 bytes that follow the boot block. The device must hold
/// them.
pub fn read_super_block<D: BlockDevice>(block_device: &D) -> (r: SuperBlock)
    requires
        block_device.disk().len() >= 2048,
    ensures
        r.fields() == spec_super_block(block_device.disk().subrange(1024, 2048)),
{
    let mut buf: Vec<u8> = Vec::new();
    let mut i: usize = 0;
    while i < SUPER_BLOCK_SIZE
        invariant
            i <= SUPER_BLOCK_SIZE,
            buf.len() == i,
        decreases SUPER_BLOCK_SIZE - i,
    {
        buf.push(0);
        i = i + 1;
    }
    block_device.read_at(1024, &mut buf);
    SuperBlock::read_from_bytes(&buf).unwrap()
}

impl<D: BlockDevice> FileSystem<D> {
    pub closed spec fn device(&self) -> D {
        self.block_device
    }

    /// The bytes on the device.
    pub open spec fn disk(&self) -> Seq<u8> {
        self.device().disk()
    }

    pub closed spec fn spec_super_block(&self) -> SuperBlock {
        self.super_block
    }

    pub closed spec fn spec_block_size(&self) -> nat {
        self.block_size as nat
    }

    /// The file system's parameters are the ones that its operations handle.
    pub closed spec fn wf(&self) -> bool {
        &&& super_block_check(self.super_block.fields()) is None
        &&& self.block_size == block_size_for(self.super_block.log_block_size as nat)
        &&& self.block_device.disk().len() <= usize::MAX
    }

    /// The inode whose number is `inode_id` (taken modulo 2^32, as on disk), or why it
    /// cannot be read.
    pub open spec fn spec_get_inode(&self, inode_id: u64) -> Result<(InodeView, u32), Ext2Error> {
        let id = inode_id as u32;
        let sb = self.spec_super_block();
        let bs = self.spec_block_size() as int;
        let group = (id - 1) / (sb.inodes_per_group as int);
        let local = (id - 1) % (sb.inodes_per_group as int);
        let gd_addr = group_desc_addr(bs, group);
        if id == 0 {
            Err(Ext2Error::InvalidInode)
        } else if gd_addr + 32 > self.disk().len() {
            Err(Ext2Error::OutOfRange)
        } else {
            let table = spec_group_desc(self.disk().subrange(gd_addr, gd_addr + 32)).inode_table;
            let addr = table * bs + local * (sb.inode_size as int);
            if addr + 128 > self.disk().len() {
                Err(Ext2Error::OutOfRange)
            } else {
                Ok((spec_inode(self.disk().subrange(addr, addr + 128)), id))
            }
        }
    }

    /// Why `block_device` cannot hold an ext2 file system, checked in this order, or `None`
    /// when it can: it must hold a superblock, with the right magic number, a block size
    /// that fits in 32 bits, non-empty block groups, as many groups by blocks as by inodes,
    /// and 128-byte inode records.
    pub fn check(block_device: &D) -> (r: Option<Ext2Error>)
        ensures
            r == mount_check(block_device.disk()),
    {
        let capacity = block_device.capacity();
        if capacity < 2048 {
            return Some(Ext2Error::DeviceTooSmall);
        }
        let super_block = read_super_block(block_device);
        if super_block.magic != EXT2_SUPER_MAGIC {
            return Some(Ext2Error::BadMagic(super_block.magic));
        }
        if super_block.log_block_size > MAX_LOG_BLOCK_SIZE {
            return Some(Ext2Error::BadBlockSize(super_block.log_block_size));
        }
        if super_block.blocks_per_group == 0 || super_block.inodes_per_group == 0 {
            return Some(Ext2Error::EmptyGroup);
        }
        proof {
            lemma_div_ceil(super_block.blocks_count as int, super_block.blocks_per_group as int);
            lemma_div_ceil(super_block.inodes_count as int, super_block.inodes_per_group as int);
        }
        // the last group may be only partly full, so round up
        let block_group_count = super_block.blocks_count / super_block.blocks_per_group
            + if super_block.blocks_count % super_block.blocks_per_group != 0 { 1 } else { 0 };
        let block_group_count_2 = super_block.inodes_count / super_block.inodes_per_group
            + if super_block.inodes_count % super_block.inodes_per_group != 0 { 1 } else { 0 };
        if block_group_count != block_group_count_2 {
            return Some(Ext2Error::GroupCountMismatch(block_group_count, block_group_count_2));
        }
        if super_block.inode_size != 128 {
            return Some(Ext2Error::BadInodeSize(super_block.inode_size));
        }
        None
    }

    /// Opens the ext2 file system on `block_device`, which must pass `check`.
    pub fn new(block_device: D) -> (r: Self)
        requires
            mount_check(block_device.disk()) is None,
        ensures
            ({
                let f = spec_super_block(block_device.disk().subrange(1024, 2048));
                &&& r.wf()
                &&& r.device() == block_device
                &&& r.spec_super_block().fields() == f
                &&& r.spec_block_size() == block_size_for(f.4 as nat)
            }),
    {
        // the device's size is a `usize`
        let _capacity = block_device.capacity();
        let super_block = read_super_block(&block_device);
        let mut block_size: u32 = 1024;
        let mut k: u32 = 0;
        while k < super_block.log_block_size
            invariant
                k <= super_block.log_block_size <= MAX_LOG_BLOCK_SIZE,
                block_size == block_size_for(k as nat),
                block_size <= 0x8000_0000,
            decreases super_block.log_block_size - k,
        {
            proof {
                lemma_block_size_bounds(k as nat);
                lemma_block_size_bounds((k + 1) as nat);
            }
            block_size = block_size * 2;
            k = k + 1;
        }
        FileSystem { block_device, super_block, block_size }
    }

    /// The device that holds the file system.
    pub fn block_device(&self) -> (r: &D)
        ensures
            *r == self.device(),
    {
        &self.block_device
    }

    /// The file system's block size in bytes.
    pub fn block_size(&self) -> (r: usize)
        requires
            self.wf(),
        ensures
            r == self.spec_block_size(),
            1024 <= r <= 0x8000_0000,
    {
        proof {
            lemma_block_size_bounds(self.super_block.log_block_size as nat);
        }
        self.block_size as usize
    }

    /// The superblock.
    pub fn super_block(&self) -> (r: &SuperBlock)
        ensures
            *r == self.spec_super_block(),
    {
        &self.super_block
    }

    /// Reads the `u32` at byte `addr` of the device, or fails if it is not all on the device.
    pub fn read_u32_at(&self, addr: u64) -> (r: Result<u32, Ext2Error>)
        requires
            self.wf(),
        ensures
            r == match u32_at(self.disk(), addr as int) {
                Some(v) => Ok::<u32, Ext2Error>(v),
                None => Err(Ext2Error::OutOfRange),
            },
    {
        let capacity = self.block_device.capacity();
        if addr > capacity as u64 || capacity as u64 - addr < 4 {
            return Err(Ext2Error::OutOfRange);
        }
        let mut buf: Vec<u8> = Vec::new();
        buf.push(0);
        buf.push(0);
        buf.push(0);
        buf.push(0);
        self.block_device.read_at(addr as usize, &mut buf);
        proof {
            assert(le_u32(buf@, 0) == le_u32(self.disk(), addr as int));
        }
        Ok(read_le_u32(&buf, 0))
    }

    /// Reads `len` bytes at byte `addr` of the device, or fails if they are not all on it.
    fn read_bytes(&self, addr: u64, len: usize) -> (r: Result<Vec<u8>, Ext2Error>)
        requires
            self.wf(),
        ensures
            addr + len > self.disk().len() ==> r == Err::<Vec<u8>, Ext2Error>(Ext2Error::OutOfRange),
            addr + len <= self.disk().len() ==> (r matches Ok(v) && v@ == self.disk().subrange(
                addr as int,
                addr + len,
            )),
    {
        let capacity = self.block_device.capacity();
        if addr > capacity as u64 || ((capacity as u64 - addr) as usize) < len {
            return Err(Ext2Error::OutOfRange);
        }
        let mut buf: Vec<u8> = Vec::new();
        let mut i: usize = 0;
        while i < len
            invariant
                i <= len,
                buf.len() == i,
            decreases len - i,
        {
            buf.push(0);
            i = i + 1;
        }
        self.block_device.read_at(addr as usize, &mut buf);
        Ok(buf)
    }

    /// Reads the descriptor of block group `group_id`.
    pub fn read_group_desc(&self, group_id: u32) -> (r: Result<GroupDescriptor, Ext2Error>)
        requires
            self.wf(),
        ensures
            ({
                let a = group_desc_addr(self.spec_block_size() as int, group_id as int);
                &&& a + 32 > self.disk().len() ==> r == Err::<GroupDescriptor, Ext2Error>(Ext2Error::OutOfRange)
                &&& a + 32 <= self.disk().len() ==> r == Ok::<GroupDescriptor, Ext2Error>(
                    spec_group_desc(self.disk().subrange(a, a + 32)),
                )
            }),
    {
        proof {
            lemma_block_size_bounds(self.super_block.log_block_size as nat);
        }
        let bs = self.block_size as u64;
        let gdt_block = (2048 + bs - 1) / bs;
        proof {
            vstd::arithmetic::div_mod::lemma_div_is_ordered_by_denominator((2048 + bs - 1) as int, 1, bs as int);
            assert(gdt_block * bs <= 0x8000_07FF * 0x8000_0000) by (nonlinear_arith)
                requires gdt_block <= 0x8000_07FF, bs <= 0x8000_0000;
        }
        let addr = gdt_block * bs + group_id as u64 * 32;
        let buf = self.read_bytes(addr, GROUP_DESC_SIZE)?;
        match GroupDescriptor::read_from_bytes(&buf) {
            Some(g) => Ok(g),
            None => Err(Ext2Error::OutOfRange),
        }
    }

    /// The number of the root directory's inode.
    pub fn root_inode(&self) -> (r: u64)
        ensures
            r == 2,
    {
        2
    }

    /// Reads inode number `inode_id` from the inode table.
    pub fn get_inode(&self, inode_id: u64) -> (r: Result<Inode, Ext2Error>)
        requires
            self.wf(),
        ensures
            r matches Ok(inode) ==> self.spec_get_inode(inode_id) == Ok::<(InodeView, u32), Ext2Error>(
                (inode.spec_layout()@, inode.spec_id()),
            ),
            r matches Err(e) ==> self.spec_get_inode(inode_id) == Err::<(InodeView, u32), Ext2Error>(e),
    {
        proof {
            lemma_block_size_bounds(self.super_block.log_block_size as nat);
        }
        let inode_id = #[verifier::truncate] (inode_id as u32);
        if inode_id == 0 {
            return Err(Ext2Error::InvalidInode);
        }
        let group_id = (inode_id - 1) / self.super_block.inodes_per_group;
        let local_index = (inode_id - 1) % self.super_block.inodes_per_group;
        let group_desc = self.read_group_desc(group_id)?;
        let inode_byte_offset = local_index as u64 * self.super_block.inode_size as u64;
        proof {
            let t = group_desc.inode_table as u64;
            let b = self.block_size as u64;
            assert(t * b <= 0xFFFF_FFFF * 0x8000_0000) by (nonlinear_arith)
                requires b <= 0x8000_0000, t <= 0xFFFF_FFFF;
            assert(local_index * (self.super_block.inode_size as int) <= 0xFFFF_FFFF * 128) by (nonlinear_arith)
                requires self.super_block.inode_size == 128, local_index <= 0xFFFF_FFFF;
        }
        let inode_addr = group_desc.inode_table as u64 * self.block_size as u64 + inode_byte_offset;
        proof {
            assert(inode_addr == group_desc.inode_table as int * (self.block_size as int)
                + local_index * (self.super_block.inode_size as int));
        }
        let buf = self.read_bytes(inode_addr, INODE_SIZE)?;
        match layout::Inode::read_from_bytes(&buf) {
            Some(inode_info) => Ok(Inode::new(inode_info, inode_id)),
            None => Err(Ext2Error::OutOfRange),
        }
    }

    /// The file system's name.
    pub fn name(&self) -> (r: &'static str)
        ensures
            r@ == "ext2"@,
    {
        "ext2"
    }
}

/// Where inode `id` is read: its group is `(id - 1) / inodes_per_group` and its index in
/// the group `(id - 1) % inodes_per_group`; the group's descriptor, 32 bytes at the first
/// block boundary at or after byte 2048 plus 32 per group, names the group's inode table
/// in its little-endian 32-bit field at byte 8, and the inode's 128-byte record lies at
/// that block plus 128 bytes per index. Inode 0 is refused, as is a record or a descriptor
/// that lies past the end of the device.
pub proof fn lemma_get_inode_location<D: BlockDevice>(fs: FileSystem<D>, inode_id: u64)
    requires
        fs.wf(),
    ensures
        ({
            let id = inode_id as u32;
            let ipg = fs.spec_super_block().inodes_per_group as int;
            let bs = fs.spec_block_size() as int;
            let disk = fs.disk();
            let group = (id - 1) / ipg;
            let index = (id - 1) % ipg;
            let desc = (2048 + bs - 1) / bs * bs + 32 * group;
            let table = le_u32(disk, desc + 8) as int;
            let record = table * bs + 128 * index;
            &&& id == 0 ==> fs.spec_get_inode(inode_id) == Err::<(InodeView, u32), Ext2Error>(Ext2Error::InvalidInode)
            &&& id != 0 && desc + 32 > disk.len() ==> fs.spec_get_inode(inode_id)
                == Err::<(InodeView, u32), Ext2Error>(Ext2Error::OutOfRange)
            &&& id != 0 && desc + 32 <= disk.len() && record + 128 > disk.len() ==> fs.spec_get_inode(inode_id)
                == Err::<(InodeView, u32), Ext2Error>(Ext2Error::OutOfRange)
            &&& id != 0 && desc + 32 <= disk.len() && record + 128 <= disk.len() ==> fs.spec_get_inode(inode_id)
                == Ok::<(InodeView, u32), Ext2Error>((spec_inode(disk.subrange(record, record + 128)), id))
        }),
{
    let id = inode_id as u32;
    let bs = fs.spec_block_size() as int;
    let disk = fs.disk();
    let ipg = fs.spec_super_block().inodes_per_group as int;
    let desc = (2048 + bs - 1) / bs * bs + 32 * ((id - 1) / ipg);
    if id != 0 && desc + 32 <= disk.len() {
        let sub = disk.subrange(desc, desc + 32);
        assert(spec_group_desc(sub).inode_table == le_u32(disk, desc + 8));
    }
}

pub proof fn lemma_block_size_bounds(log: nat)
    requires
        log <= MAX_LOG_BLOCK_SIZE,
    ensures
        1024 <= block_size_for(log) <= 0x8000_0000,
        block_size_for(log) % 4 == 0,
{
    lemma_block_size_pow2(log);
    vstd::arithmetic::power2::lemma2_to64();
    vstd::arithmetic::power2::lemma_pow2_pos(log);
    if log < MAX_LOG_BLOCK_SIZE {
        vstd::arithmetic::power2::lemma_pow2_strictly_increases(log, 21);
    }
    let p = vstd::arithmetic::power2::pow2(log);
    assert((1024 * p) % 4 == 0) by (nonlinear_arith);
}

/// `block_size_for(log)` is `1024 * 2^log`.
proof fn lemma_block_size_pow2(log: nat)
    ensures
        block_size_for(log) == 1024 * vstd::arithmetic::power2::pow2(log),
    decreases log,
{
    if log > 0 {
        vstd::arithmetic::power2::lemma_pow2_unfold(log);
        lemma_block_size_pow2((log - 1) as nat);
    } else {
        vstd::arithmetic::power2::lemma2_to64();
    }
}

proof fn lemma_div_ceil(a: int, b: int)
    requires
        a >= 0,
        b > 0,
    ensures
        div_ceil(a, b) == a / b + if a % b != 0 { 1int } else { 0int },
        div_ceil(a, b) <= a,
{
    vstd::arithmetic::div_mod::lemma_fundamental_div_mod(a, b);
    let q = a / b;
    let r = a % b;
    vstd::arithmetic::mul::lemma_mul_is_commutative(b, q);
    assert((q + 1) * b == q * b + b) by (nonlinear_arith);
    if r == 0 {
        vstd::arithmetic::div_mod::lemma_fundamental_div_mod_converse(a + b - 1, b, q, b - 1);
    } else {
        vstd::arithmetic::div_mod::lemma_fundamental_div_mod_converse(a + b - 1, b, q + 1, r - 1);
    }
    assert(div_ceil(a, b) <= a) by (nonlinear_arith)
        requires
            a == b * q + r,
            0 <= r < b,
            div_ceil(a, b) == q + if r != 0 { 1int } else { 0int },
            b > 0,
            q >= 0,
    {
    }
}

} // verus!
