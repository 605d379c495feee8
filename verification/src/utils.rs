//! Splitting a byte range into pieces that each lie within one fixed-size block.
use vstd::prelude::*;
use vstd::arithmetic::div_mod::{lemma_fundamental_div_mod, lemma_fundamental_div_mod_converse};

verus! {

/// One piece of a byte range: the part of block `block_id` that starts `offset` bytes
/// into the block and is `size` bytes long.
#[derive(Clone, Copy, Debug, PartialEq, Eq)]
pub struct Block {
    pub block_id: usize,
    pub offset: usize,
    pub size: usize,
}

impl Block {
    pub fn block_id(&self) -> (r: usize)
        ensures r == self.block_id,
    {
        self.block_id
    }

    pub fn offset(&self) -> (r: usize)
        ensures r == self.offset,
    {
        self.offset
    }

    pub fn size(&self) -> (r: usize)
        ensures r == self.size,
    {
        self.size
    }
}

/// The piece of the range `[pos, end)` that starts at `pos` and stays within the block
/// holding `pos`.
pub open spec fn block_at(block_size: nat, pos: nat, end: nat) -> Block {
    let off = pos % block_size;
    let rest = (block_size - off) as nat;
    let left = (end - pos) as nat;
    Block {
        block_id: (pos / block_size) as usize,
        offset: off as usize,
        size: (if rest < left { rest } else { left }) as usize,
    }
}

/// Walks the byte range `[start, start + len)` block by block.
pub struct BlockIterator {
    block_size: usize,
    pos: usize,
    end: usize,
}

impl BlockIterator {
    pub closed spec fn spec_block_size(&self) -> nat {
        self.block_size as nat
    }

    /// The first byte not yet handed out.
    pub closed spec fn spec_pos(&self) -> nat {
        self.pos as nat
    }

    /// One past the last byte of the range.
    pub closed spec fn spec_end(&self) -> nat {
        self.end as nat
    }

    pub closed spec fn wf(&self) -> bool {
        &&& self.block_size > 0
        &&& self.pos <= self.end
    }

    pub fn new(block_size: usize, start: usize, len: usize) -> (r: Self)
        requires
            block_size > 0,
            start + len <= usize::MAX,
        ensures
            r.wf(),
            r.spec_block_size() == block_size,
            r.spec_pos() == start,
            r.spec_end() == start + len,
    {
        BlockIterator { block_size, pos: start, end: start + len }
    }

    /// Hands out the next piece, or `None` once the whole range has been covered.
    pub fn next(&mut self) -> (r: Option<Block>)
        requires
            old(self).wf(),
        ensures
            final(self).wf(),
            final(self).spec_block_size() == old(self).spec_block_size(),
            final(self).spec_end() == old(self).spec_end(),
            old(self).spec_pos() >= old(self).spec_end() ==> r.is_none() && *final(self) == *old(self),
            old(self).spec_pos() < old(self).spec_end() ==> {
                &&& r == Some(block_at(old(self).spec_block_size(), old(self).spec_pos(), old(self).spec_end()))
                &&& final(self).spec_pos() == old(self).spec_pos() + r.unwrap().size
                &&& r.unwrap().size > 0
                &&& r.unwrap().offset + r.unwrap().size <= old(self).spec_block_size()
                &&& r.unwrap().block_id * old(self).spec_block_size() + r.unwrap().offset == old(self).spec_pos()
            },
    {
        if self.pos >= self.end {
            return None;
        }
        let block_id = self.pos / self.block_size;
        let offset = self.pos % self.block_size;
        let rest = self.block_size - offset;
        let left = self.end - self.pos;
        let size = if rest < left { rest } else { left };
        proof {
            lemma_fundamental_div_mod(self.pos as int, self.block_size as int);
            vstd::arithmetic::mul::lemma_mul_is_commutative(block_id as int, self.block_size as int);
        }
        self.pos = self.pos + size;
        Some(Block { block_id, offset, size })
    }
}

/// Every byte of a piece lies in the piece's block, at the expected place.
pub proof fn lemma_block_piece(block_size: nat, block_id: nat, offset: nat, k: nat)
    requires
        block_size > 0,
        offset + k < block_size,
    ensures
        ((block_id * block_size + offset + k) as int) / (block_size as int) == block_id,
        ((block_id * block_size + offset + k) as int) % (block_size as int) == offset + k,
{
    lemma_fundamental_div_mod_converse(
        (block_id * block_size + offset + k) as int,
        block_size as int,
        block_id as int,
        (offset + k) as int,
    );
}

} // verus!

verus! {

/// The little-endian `u16` stored at `s[o..o + 2]`.
pub open spec fn le_u16(s: Seq<u8>, o: int) -> u16 {
    (s[o] + 256 * s[o + 1]) as u16
}

/// The little-endian `u32` stored at `s[o..o + 4]`.
pub open spec fn le_u32(s: Seq<u8>, o: int) -> u32 {
    (s[o] + 256 * s[o + 1] + 65536 * s[o + 2] + 16777216 * s[o + 3]) as u32
}

/// The little-endian `u64` stored at `s[o..o + 8]`.
pub open spec fn le_u64(s: Seq<u8>, o: int) -> u64 {
    (le_u32(s, o) + 4294967296 * le_u32(s, o + 4)) as u64
}

pub fn read_le_u16(buf: &Vec<u8>, off: usize) -> (r: u16)
    requires
        off + 2 <= buf.len(),
    ensures
        r == le_u16(buf@, off as int),
{
    buf[off] as u16 + 256 * (buf[off + 1] as u16)
}

pub fn read_le_u32(buf: &Vec<u8>, off: usize) -> (r: u32)
    requires
        off + 4 <= buf.len(),
    ensures
        r == le_u32(buf@, off as int),
{
    buf[off] as u32 + 256 * (buf[off + 1] as u32) + 65536 * (buf[off + 2] as u32)
        + 16777216 * (buf[off + 3] as u32)
}

/// The `n` little-endian bytes of `v`, lowest first.
pub open spec fn le_bytes(v: nat, n: nat) -> Seq<u8>
    decreases n,
{
    if n == 0 {
        Seq::empty()
    } else {
        seq![(v % 256) as u8] + le_bytes(v / 256, (n - 1) as nat)
    }
}

/// Writes the `n` lowest bytes of `v` into `buf[off..off + n]`, lowest first.
pub fn write_le(buf: &mut Vec<u8>, off: usize, v: u64, n: usize)
    requires
        off + n <= old(buf).len(),
    ensures
        final(buf).len() == old(buf).len(),
        final(buf)@ == old(buf)@.subrange(0, off as int) + le_bytes(v as nat, n as nat)
            + old(buf)@.subrange(off + n, old(buf).len() as int),
{
    let mut k: usize = 0;
    let mut rest: u64 = v;
    assert(le_bytes(v as nat, n as nat).take(0) =~= Seq::<u8>::empty());
    while k < n
        invariant
            k <= n,
            off + n <= buf.len(),
            buf.len() == old(buf).len(),
            forall|i: int| 0 <= i < off ==> buf@[i] == old(buf)@[i],
            forall|i: int| off + n <= i < buf.len() ==> buf@[i] == old(buf)@[i],
            forall|i: int| off <= i < off + k ==> buf@[i] == le_bytes(v as nat, n as nat)[i - off],
            le_bytes(v as nat, n as nat) == le_bytes(v as nat, n as nat).take(k as int)
                + le_bytes(rest as nat, (n - k) as nat),
        decreases n - k,
    {
        proof {
            lemma_le_bytes_split(v as nat, n as nat, k as nat, rest as nat);
        }
        buf.set(off + k, (rest % 256) as u8);
        rest = rest / 256;
        k = k + 1;
    }
    proof {
        lemma_le_bytes_len(v as nat, n as nat);
    }
    assert(buf@ =~= old(buf)@.subrange(0, off as int) + le_bytes(v as nat, n as nat)
        + old(buf)@.subrange(off + n, old(buf).len() as int));
}

proof fn lemma_le_bytes_split(v: nat, n: nat, k: nat, rest: nat)
    requires
        k < n,
        le_bytes(v, n) == le_bytes(v, n).take(k as int) + le_bytes(rest, (n - k) as nat),
    ensures
        le_bytes(v, n)[k as int] == (rest % 256) as u8,
        le_bytes(v, n) == le_bytes(v, n).take((k + 1) as int) + le_bytes(rest / 256, (n - k - 1) as nat),
{
    let tail = le_bytes(rest, (n - k) as nat);
    assert(tail == seq![(rest % 256) as u8] + le_bytes(rest / 256, (n - k - 1) as nat));
    assert(le_bytes(v, n).len() == n) by {
        lemma_le_bytes_len(v, n);
    }
    assert(le_bytes(v, n).take((k + 1) as int) =~= le_bytes(v, n).take(k as int) + seq![(rest % 256) as u8]);
    assert(le_bytes(v, n) =~= le_bytes(v, n).take((k + 1) as int) + le_bytes(rest / 256, (n - k - 1) as nat));
}

pub proof fn lemma_le_bytes_len(v: nat, n: nat)
    ensures
        le_bytes(v, n).len() == n,
    decreases n,
{
    if n > 0 {
        lemma_le_bytes_len(v / 256, (n - 1) as nat);
    }
}

} // verus!

verus! {

/// Whether two byte strings are equal.
pub fn bytes_eq(a: &Vec<u8>, b: &Vec<u8>) -> (r: bool)
    ensures
        r == (a@ == b@),
{
    if a.len() != b.len() {
        return false;
    }
    let mut i: usize = 0;
    while i < a.len()
        invariant
            i <= a.len(),
            a.len() == b.len(),
            forall|j: int| 0 <= j < i ==> a@[j] == b@[j],
        decreases a.len() - i,
    {
        if a[i] != b[i] {
            return false;
        }
        i = i + 1;
    }
    assert(a@ =~= b@);
    true
}

/// A copy of `s[start..end]`.
pub fn sub_bytes(s: &Vec<u8>, start: usize, end: usize) -> (r: Vec<u8>)
    requires
        start <= end <= s.len(),
    ensures
        r@ == s@.subrange(start as int, end as int),
{
    let mut r: Vec<u8> = Vec::new();
    let mut i: usize = start;
    while i < end
        invariant
            start <= i <= end <= s.len(),
            r@ == s@.subrange(start as int, i as int),
        decreases end - i,
    {
        r.push(s[i]);
        i = i + 1;
        assert(r@ =~= s@.subrange(start as int, i as int));
    }
    r
}

/// A vector of `n` zero bytes.
pub fn zeros(n: usize) -> (r: Vec<u8>)
    ensures
        r@ == Seq::new(n as nat, |i: int| 0u8),
{
    let mut r: Vec<u8> = Vec::new();
    let mut i: usize = 0;
    while i < n
        invariant
            i <= n,
            r@ == Seq::new(i as nat, |j: int| 0u8),
        decreases n - i,
    {
        r.push(0);
        i = i + 1;
        assert(r@ =~= Seq::new(i as nat, |j: int| 0u8));
    }
    r
}

} // verus!

verus! {

/// Whether `bytes` is well-formed UTF-8. Calls `core::str::from_utf8`, which is documented
/// to succeed exactly on well-formed UTF-8; the contract states this with vstd's
/// `valid_utf8`.
#[verifier::external_body]
pub(crate) fn is_valid_utf8(bytes: &Vec<u8>) -> (r: bool)
    ensures
        r == vstd::utf8::valid_utf8(bytes@),
{
    core::str::from_utf8(bytes.as_slice()).is_ok()
}

} // verus!

verus! {

/// A first-in first-out queue of at most `N` elements, kept in a ring.
pub struct RingBuffer<T, const N: usize> {
    buf: Vec<T>,
    head: usize,
    len: usize,
}

impl<T: Copy, const N: usize> RingBuffer<T, N> {
    /// The queued elements, oldest first.
    pub closed spec fn view(&self) -> Seq<T> {
        Seq::new(self.len as nat, |i: int| self.buf@[(self.head + i) % (N as int)])
    }

    pub closed spec fn wf(&self) -> bool {
        &&& N > 0
        &&& self.buf.len() == N
        &&& self.head < N
        &&& self.len <= N
    }

    /// An empty queue whose ring is filled with `fill`.
    pub fn new(fill: T) -> (r: Self)
        requires
            N > 0,
        ensures
            r.wf(),
            r.view() == Seq::<T>::empty(),
    {
        let mut buf: Vec<T> = Vec::new();
        let mut i: usize = 0;
        while i < N
            invariant
                i <= N,
                buf.len() == i,
            decreases N - i,
        {
            buf.push(fill);
            i = i + 1;
        }
        let r = RingBuffer { buf, head: 0, len: 0 };
        assert(r.view() =~= Seq::<T>::empty());
        r
    }

    pub fn len(&self) -> (r: usize)
        requires
            self.wf(),
        ensures
            r == self.view().len(),
    {
        self.len
    }

    pub fn is_empty(&self) -> (r: bool)
        requires
            self.wf(),
        ensures
            r == (self.view().len() == 0),
    {
        self.len == 0
    }

    pub fn is_full(&self) -> (r: bool)
        requires
            self.wf(),
        ensures
            r == (self.view().len() == N),
            self.view().len() <= N,
    {
        self.len == N
    }

    /// Appends `x`; the queue must not be full.
    pub fn push(&mut self, x: T)
        requires
            old(self).wf(),
            old(self).view().len() < N,
        ensures
            final(self).wf(),
            final(self).view() == old(self).view().push(x),
    {
        let ghost old_view = self.view();
        let slot = if self.head < N - self.len { self.head + self.len } else { self.head - (N - self.len) };
        proof {
            if self.head < N - self.len {
                vstd::arithmetic::div_mod::lemma_small_mod((self.head + self.len) as nat, N as nat);
            } else {
                vstd::arithmetic::div_mod::lemma_fundamental_div_mod_converse(
                    self.head + self.len, N as int, 1, slot as int);
            }
        }
        self.buf.set(slot, x);
        self.len = self.len + 1;
        proof {
            assert forall|i: int| 0 <= i < old_view.len() implies
                #[trigger] self.view()[i] == old_view[i] by {
                let a = (self.head + i) % (N as int);
                assert(a != slot) by {
                    vstd::arithmetic::div_mod::lemma_mod_equivalence(self.head + i, (self.head + old_view.len()) as int, N as int);
                    vstd::arithmetic::div_mod::lemma_fundamental_div_mod(self.head + i, N as int);
                    vstd::arithmetic::div_mod::lemma_fundamental_div_mod((self.head + old_view.len()) as int, N as int);
                    if a == slot {
                        vstd::arithmetic::div_mod::lemma_mod_sub_multiples_vanish(0, N as int);
                        assert(((self.head + old_view.len()) - (self.head + i)) % (N as int) == 0) by {
                            vstd::arithmetic::div_mod::lemma_sub_mod_noop((self.head + old_view.len()) as int, self.head + i, N as int);
                        }
                        vstd::arithmetic::div_mod::lemma_small_mod((old_view.len() - i) as nat, N as nat);
                    }
                }
            }
        }
        assert(self.view() =~= old_view.push(x));
    }

    /// Removes and gives the oldest element, or `None` when the queue is empty.
    pub fn pop(&mut self) -> (r: Option<T>)
        requires
            old(self).wf(),
        ensures
            final(self).wf(),
            old(self).view().len() == 0 ==> r.is_none() && final(self).view() == old(self).view(),
            old(self).view().len() > 0 ==> r == Some(old(self).view()[0])
                && final(self).view() == old(self).view().drop_first(),
    {
        if self.len == 0 {
            return None;
        }
        let ghost old_view = self.view();
        let x = self.buf[self.head];
        proof {
            vstd::arithmetic::div_mod::lemma_small_mod(self.head as nat, N as nat);
        }
        self.head = (self.head + 1) % N;
        self.len = self.len - 1;
        proof {
            assert forall|i: int| 0 <= i < self.len implies #[trigger] self.view()[i] == old_view[i + 1] by {
                vstd::arithmetic::div_mod::lemma_add_mod_noop(old(self).head + 1, i, N as int);
                vstd::arithmetic::div_mod::lemma_small_mod(i as nat, N as nat);
                vstd::arithmetic::div_mod::lemma_mod_twice(old(self).head + 1 + i, N as int);
                vstd::arithmetic::div_mod::lemma_add_mod_noop((old(self).head + 1) % (N as int), i, N as int);
            }
        }
        assert(self.view() =~= old_view.drop_first());
        Some(x)
    }
}

} // verus!
