//! Block devices: storage that is read and written in whole blocks, and read at
//! arbitrary byte offsets on top of that.
use vstd::prelude::*;
use crate::utils::{BlockIterator, block_at};
use vstd::arithmetic::div_mod::lemma_fundamental_div_mod;

verus! {

/// Copies `len` bytes from `src[src_off..]` into `dst[dst_off..]`.
pub fn copy_bytes(dst: &mut Vec<u8>, dst_off: usize, src: &Vec<u8>, src_off: usize, len: usize)
    requires
        dst_off + len <= old(dst).len(),
        src_off + len <= src.len(),
    ensures
        final(dst).len() == old(dst).len(),
        final(dst)@ == old(dst)@.subrange(0, dst_off as int)
            + src@.subrange(src_off as int, src_off + len)
            + old(dst)@.subrange(dst_off + len, old(dst).len() as int),
{
    let mut k: usize = 0;
    while k < len
        invariant
            k <= len,
            dst_off + len <= dst.len(),
            src_off + len <= src.len(),
            dst.len() == old(dst).len(),
            forall|i: int| 0 <= i < dst_off ==> dst@[i] == old(dst)@[i],
            forall|i: int| dst_off + len <= i < dst.len() ==> dst@[i] == old(dst)@[i],
            forall|i: int| dst_off <= i < dst_off + k ==> dst@[i] == src@[src_off + (i - dst_off)],
        decreases len - k,
    {
        dst.set(dst_off + k, src[src_off + k]);
        k = k + 1;
    }
    assert(dst@ =~= old(dst)@.subrange(0, dst_off as int)
        + src@.subrange(src_off as int, src_off + len)
        + old(dst)@.subrange(dst_off + len, old(dst).len() as int));
}

/// A block that holds a byte of a device whose size is a whole number of blocks lies
/// wholly on the device.
pub proof fn lemma_block_on_device(b: int, bs: int, off: int, n: int)
    requires
        bs > 0,
        b >= 0,
        0 <= off,
        n % bs == 0,
        b * bs + off < n,
    ensures
        (b + 1) * bs <= n,
        (b + 1) * bs == b * bs + bs,
{
    assert((b + 1) * bs == b * bs + bs) by (nonlinear_arith);
    lemma_fundamental_div_mod(n, bs);
    let q = n / bs;
    assert(n == bs * q);
    assert((b + 1) * bs <= n) by (nonlinear_arith)
        requires
            bs > 0,
            b >= 0,
            off >= 0,
            n == bs * q,
            b * bs + off < n,
    {
        if b + 1 > q {
            assert(b >= q);
            assert(b * bs >= q * bs);
        }
    }
}

/// A read gives back what a write wrote: after `write_at(offset, data)`, the bytes at
/// `[offset, offset + data.len())` (what `read_at` returns there) are `data`, and every
/// other byte is as it was.
pub proof fn lemma_write_then_read(before: Seq<u8>, offset: int, data: Seq<u8>)
    requires
        0 <= offset,
        offset + data.len() <= before.len(),
    ensures
        ({
            let after = before.subrange(0, offset) + data + before.subrange(offset + data.len(), before.len() as int);
            &&& after.len() == before.len()
            &&& after.subrange(offset, offset + data.len()) == data
            &&& forall|i: int| 0 <= i < before.len() && !(offset <= i < offset + data.len()) ==> #[trigger] after[i] == before[i]
        }),
{
    let after = before.subrange(0, offset) + data + before.subrange(offset + data.len(), before.len() as int);
    assert(after.subrange(offset, offset + data.len()) =~= data);
}

/// Storage that reads and writes in blocks of a fixed size.
pub trait BlockDevice {
    /// Every byte that the device holds, in order.
    spec fn disk(&self) -> Seq<u8>;

    /// The size of one block, in bytes.
    spec fn spec_block_size(&self) -> nat;

    /// The block size. The device holds a whole number of blocks.
    fn block_size(&self) -> (r: usize)
        ensures
            r == self.spec_block_size(),
            r > 0,
            self.disk().len() % self.spec_block_size() == 0;

    /// The number of bytes on the device.
    fn capacity(&self) -> (r: usize)
        ensures
            r == self.disk().len();

    /// Reads block `block_id` into `buf`, which is one block long.
    fn read_block(&self, block_id: usize, buf: &mut Vec<u8>)
        requires
            old(buf).len() == self.spec_block_size(),
            (block_id + 1) * self.spec_block_size() <= self.disk().len(),
        ensures
            final(buf)@ == self.disk().subrange(
                block_id * self.spec_block_size(),
                (block_id + 1) * self.spec_block_size(),
            );

    /// Writes the one-block buffer `buf` over block `block_id`.
    fn write_block(&mut self, block_id: usize, buf: &Vec<u8>)
        requires
            buf.len() == old(self).spec_block_size(),
            (block_id + 1) * old(self).spec_block_size() <= old(self).disk().len(),
        ensures
            final(self).spec_block_size() == old(self).spec_block_size(),
            final(self).disk() == old(self).disk().subrange(0, block_id * old(self).spec_block_size())
                + buf@
                + old(self).disk().subrange(
                    (block_id + 1) * old(self).spec_block_size(),
                    old(self).disk().len() as int,
                );

    /// Reads `buf.len()` bytes starting at byte `offset` of the device.
    fn read_at(&self, offset: usize, buf: &mut Vec<u8>)
        requires
            offset + old(buf).len() <= self.disk().len(),
        ensures
            final(buf)@ == self.disk().subrange(offset as int, offset + old(buf).len()),
    {
        let block_size = self.block_size();
        let _capacity = self.capacity();
        let mut block_buf: Vec<u8> = Vec::new();
        let mut z: usize = 0;
        while z < block_size
            invariant
                z <= block_size,
                block_buf.len() == z,
            decreases block_size - z,
        {
            block_buf.push(0);
            z = z + 1;
        }
        let len = buf.len();
        let mut pos: usize = 0;
        let mut blocks = BlockIterator::new(block_size, offset, len);
        loop
            invariant
                blocks.wf(),
                blocks.spec_block_size() == block_size,
                block_size == self.spec_block_size(),
                block_size > 0,
                blocks.spec_end() == offset + len,
                blocks.spec_pos() == offset + pos,
                pos <= len,
                offset + len <= self.disk().len(),
                self.disk().len() % self.spec_block_size() == 0,
                buf.len() == len,
                len == old(buf).len(),
                block_buf.len() == block_size,
                buf@.subrange(0, pos as int) == self.disk().subrange(offset as int, offset + pos),
            ensures
                pos == len,
            decreases offset + len - blocks.spec_pos(),
        {
            let ghost before = blocks.spec_pos();
            let next = blocks.next();
            match next {
                None => {
                    break;
                },
                Some(block) => {
                    proof {
                        lemma_block_on_device(block.block_id as int, block_size as int,
                            block.offset as int, self.disk().len() as int);
                    }
                    self.read_block(block.block_id(), &mut block_buf);
                    let ghost old_buf = buf@;
                    copy_bytes(buf, pos, &block_buf, block.offset(), block.size());
                    proof {
                        let bs = block_size as int;
                        let b = block.block_id as int;
                        assert(block_buf@ == self.disk().subrange(b * bs, (b + 1) * bs));
                        assert(buf@.subrange(0, pos + block.size) =~= self.disk().subrange(
                            offset as int, offset + pos + block.size)) by {
                            assert forall|i: int| 0 <= i < pos + block.size implies
                                #[trigger] buf@.subrange(0, pos + block.size)[i] == self.disk().subrange(
                                    offset as int, offset + pos + block.size)[i] by {
                                if i < pos {
                                    assert(buf@[i] == old_buf[i]);
                                    assert(old_buf.subrange(0, pos as int)[i] == old_buf[i]);
                                } else {
                                    let k = i - pos;
                                    assert(buf@[i] == block_buf@[block.offset + k]);
                                    assert(block_buf@[block.offset + k] == self.disk()[b * bs + block.offset + k]);
                                }
                            }
                        }
                    }
                    pos = pos + block.size();
                },
            }
        }
        assert(buf@ =~= buf@.subrange(0, pos as int));
    }

    /// Writes `buf` onto the device starting at byte `offset`, keeping the bytes around it.
    fn write_at(&mut self, offset: usize, buf: &Vec<u8>)
        requires
            offset + buf.len() <= old(self).disk().len(),
        ensures
            final(self).spec_block_size() == old(self).spec_block_size(),
            final(self).disk() == old(self).disk().subrange(0, offset as int) + buf@
                + old(self).disk().subrange(offset + buf.len(), old(self).disk().len() as int),
    {
        let block_size = self.block_size();
        let _capacity = self.capacity();
        let mut block_buf: Vec<u8> = Vec::new();
        let mut z: usize = 0;
        while z < block_size
            invariant
                z <= block_size,
                block_buf.len() == z,
            decreases block_size - z,
        {
            block_buf.push(0);
            z = z + 1;
        }
        let len = buf.len();
        let mut pos: usize = 0;
        let mut blocks = BlockIterator::new(block_size, offset, len);
        let ghost d0 = self.disk();
        loop
            invariant
                blocks.wf(),
                blocks.spec_block_size() == block_size,
                block_size == self.spec_block_size(),
                block_size == old(self).spec_block_size(),
                block_size > 0,
                blocks.spec_end() == offset + len,
                blocks.spec_pos() == offset + pos,
                pos <= len,
                offset + len <= d0.len(),
                d0 == old(self).disk(),
                self.disk().len() == d0.len(),
                d0.len() % (block_size as nat) == 0,
                buf.len() == len,
                block_buf.len() == block_size,
                self.disk() == d0.subrange(0, offset as int) + buf@.subrange(0, pos as int)
                    + d0.subrange(offset + pos, d0.len() as int),
            ensures
                pos == len,
            decreases offset + len - blocks.spec_pos(),
        {
            let next = blocks.next();
            match next {
                None => {
                    break;
                },
                Some(block) => {
                    let ghost dcur = self.disk();
                    proof {
                        lemma_block_on_device(block.block_id as int, block_size as int,
                            block.offset as int, d0.len() as int);
                    }
                    self.read_block(block.block_id(), &mut block_buf);
                    copy_bytes(&mut block_buf, block.offset(), buf, pos, block.size());
                    self.write_block(block.block_id(), &block_buf);
                    proof {
                        let bs = block_size as int;
                        let b = block.block_id as int;
                        let p2 = pos + block.size;
                        let target = d0.subrange(0, offset as int) + buf@.subrange(0, p2 as int)
                            + d0.subrange(offset + p2, d0.len() as int);
                        assert(self.disk() =~= target) by {
                            assert forall|i: int| 0 <= i < d0.len() implies #[trigger] self.disk()[i] == target[i] by {
                                if b * bs <= i < (b + 1) * bs {
                                    let j = i - b * bs;
                                    if block.offset <= j < block.offset + block.size {
                                        assert(self.disk()[i] == buf@[pos + (j - block.offset)]);
                                    } else {
                                        assert(self.disk()[i] == dcur[i]);
                                    }
                                } else {
                                    assert(self.disk()[i] == dcur[i]);
                                }
                            }
                        }
                    }
                    pos = pos + block.size();
                },
            }
        }
        assert(buf@.subrange(0, pos as int) =~= buf@);
    }
}

} // verus!

verus! {

/// A block device kept in memory.
pub struct RamDisk {
    block_size: usize,
    data: Vec<u8>,
}

impl RamDisk {
    #[verifier::type_invariant]
    spec fn wf(&self) -> bool {
        &&& self.block_size > 0
        &&& self.data@.len() % (self.block_size as nat) == 0
    }

    /// A disk holding `data`, cut into blocks of `block_size` bytes; `None` unless
    /// `data` is a whole number of blocks.
    pub fn new(block_size: usize, data: Vec<u8>) -> (r: Option<RamDisk>)
        ensures
            r.is_some() <==> block_size > 0 && data@.len() % (block_size as nat) == 0,
            r matches Some(d) ==> d.disk() == data@ && d.spec_block_size() == block_size,
    {
        if block_size == 0 || data.len() % block_size != 0 {
            None
        } else {
            Some(RamDisk { block_size, data })
        }
    }
}

impl BlockDevice for RamDisk {
    closed spec fn disk(&self) -> Seq<u8> {
        self.data@
    }

    closed spec fn spec_block_size(&self) -> nat {
        self.block_size as nat
    }

    fn block_size(&self) -> (r: usize) {
        proof {
            use_type_invariant(self);
            assert(self.spec_block_size() == self.block_size as nat);
        }
        self.block_size
    }

    fn capacity(&self) -> (r: usize) {
        self.data.len()
    }

    fn read_block(&self, block_id: usize, buf: &mut Vec<u8>) {
        proof {
            use_type_invariant(self);
            assert((block_id + 1) * self.block_size == block_id * self.block_size + self.block_size)
                by (nonlinear_arith);
        }
        let _n = self.data.len();
        let bs = self.block_size;
        let start = block_id * bs;
        copy_bytes(buf, 0, &self.data, start, bs);
        assert(buf@ =~= self.data@.subrange(start as int, start + bs));
    }

    fn write_block(&mut self, block_id: usize, buf: &Vec<u8>) {
        proof {
            use_type_invariant(&*self);
            assert((block_id + 1) * self.block_size == block_id * self.block_size + self.block_size)
                by (nonlinear_arith);
        }
        let _n = self.data.len();
        let bs = self.block_size;
        let start = block_id * bs;
        let mut data = self.data.clone();
        copy_bytes(&mut data, start, buf, 0, bs);
        assert(buf@.subrange(0, bs as int) =~= buf@);
        self.data = data;
    }
}

} // verus!
