//! A user address space as the kernel sees it: which pages are mapped, with what rights
//! and contents; and copying bytes and strings in and out of it.
use vstd::prelude::*;
use std::collections::BTreeMap;
use crate::arch::mm::PAGE_SIZE;
use crate::arch::pte::MemoryPermission;
use crate::error::SystemError;
use crate::utils::{BlockIterator, lemma_block_piece, zeros};
use crate::fs::block_device::copy_bytes;

verus! {

broadcast use {vstd::std_specs::btree::group_btree_axioms, vstd::laws_cmp::group_laws_cmp};

/// A mapped page: its bytes and the rights it is mapped with.
pub struct MappedPage {
    pub data: Vec<u8>,
    pub permission: MemoryPermission,
}

/// An address space: its mapped pages, by virtual page number.
pub struct MemorySpace {
    pages: BTreeMap<usize, MappedPage>,
}

/// How a scan for a NUL-terminated string ends.
pub enum StrScan {
    /// The string is the first `n` bytes.
    Found(nat),
    /// An unmapped page was reached first.
    Fault,
    /// The string reached the length limit first.
    TooLong,
}

/// How many bytes byte `b` takes once it is read as a character (`b as char`) and
/// stored in UTF-8.
pub open spec fn utf8_width(b: u8) -> int {
    if b < 0x80 { 1 } else { 2 }
}

/// `String::push`: the string's characters are those it had, then `c`.
#[verifier::external_body]
fn push_char(s: &mut String, c: char)
    ensures
        final(s)@ == old(s)@.push(c),
{
    s.push(c);
}

/// `after` is `before` with `data` written at `vaddr`: the same pages with the same rights,
/// the bytes of `[vaddr, vaddr + data.len())` replaced by `data`, and every other byte kept.
pub open spec fn written(before: MemorySpace, after: MemorySpace, vaddr: int, data: Seq<u8>) -> bool {
    &&& after.view().dom() == before.view().dom()
    &&& forall|v: usize| #[trigger] before.view().contains_key(v)
        ==> after.view()[v].permission == before.view()[v].permission
    &&& forall|a: int| #[trigger] before.mapped(a) ==> after.byte(a) == (
        if vaddr <= a < vaddr + data.len() { data[a - vaddr] } else { before.byte(a) })
}

/// What is written to user memory is read back: after writing `data` at `vaddr` (as
/// `copyout` does), the range is still mapped and its bytes (what `copyin` returns) are
/// `data`; bytes outside the range keep their value.
pub proof fn lemma_copyout_copyin(before: MemorySpace, after: MemorySpace, vaddr: int, data: Seq<u8>)
    requires
        before.range_mapped(vaddr, vaddr + data.len()),
        written(before, after, vaddr, data),
    ensures
        after.range_mapped(vaddr, vaddr + data.len()),
        after.bytes(vaddr, vaddr + data.len()) == data,
        forall|a: int| #[trigger] before.mapped(a) && !(vaddr <= a < vaddr + data.len())
            ==> after.byte(a) == before.byte(a),
{
    assert forall|a: int| vaddr <= a < vaddr + data.len() implies #[trigger] after.mapped(a) by {
        assert(before.mapped(a));
    }
    assert forall|k: int| 0 <= k < data.len() implies after.bytes(vaddr, vaddr + data.len())[k] == data[k] by {
        assert(before.mapped(vaddr + k));
    }
    assert(after.bytes(vaddr, vaddr + data.len()) =~= data);
}

/// The page that holds virtual address `a`.
pub open spec fn vpn(a: int) -> int {
    a / (PAGE_SIZE as int)
}

impl MemorySpace {
    /// The mapped pages.
    pub closed spec fn view(&self) -> Map<usize, MappedPage> {
        self.pages@
    }

    pub open spec fn wf(&self) -> bool {
        forall|v: usize| #[trigger] self.view().contains_key(v) ==> self.view()[v].data@.len() == PAGE_SIZE
    }

    /// Whether the page holding address `a` is mapped.
    pub open spec fn mapped(&self, a: int) -> bool {
        0 <= vpn(a) <= usize::MAX && self.view().contains_key(vpn(a) as usize)
    }

    /// The byte at address `a`, where it is mapped.
    pub open spec fn byte(&self, a: int) -> u8 {
        self.view()[vpn(a) as usize].data@[a % (PAGE_SIZE as int)]
    }

    /// The rights of the page holding address `a`, where it is mapped.
    pub open spec fn perm(&self, a: int) -> u8 {
        self.view()[vpn(a) as usize].permission.bits
    }

    /// Every address in `[from, to)` is mapped.
    pub open spec fn range_mapped(&self, from: int, to: int) -> bool {
        forall|a: int| from <= a < to ==> #[trigger] self.mapped(a)
    }

    /// The bytes at `[from, to)`.
    pub open spec fn bytes(&self, from: int, to: int) -> Seq<u8> {
        Seq::new((to - from) as nat, |k: int| self.byte(from + k))
    }

    /// An empty address space.
    pub fn new() -> (r: Self)
        ensures
            r.wf(),
            r.view() == Map::<usize, MappedPage>::empty(),
    {
        MemorySpace { pages: BTreeMap::new() }
    }

    /// Maps page `vpn` with rights `permission`, filled with zeros.
    pub fn map_page(&mut self, vpn: usize, permission: MemoryPermission)
        requires
            old(self).wf(),
        ensures
            final(self).wf(),
            final(self).view().dom() == old(self).view().dom().insert(vpn),
            final(self).view()[vpn].permission == permission,
            final(self).view()[vpn].data@ == Seq::new(PAGE_SIZE as nat, |i: int| 0u8),
            forall|v: usize| v != vpn && #[trigger] old(self).view().contains_key(v) ==> final(self).view()[v] == old(self).view()[v],
    {
        let data = zeros(PAGE_SIZE);
        assert(data@.len() == PAGE_SIZE);
        self.pages.insert(vpn, MappedPage { data, permission });
        assert forall|v: usize| #[trigger] self.view().contains_key(v) implies self.view()[v].data@.len() == PAGE_SIZE by {
            if v != vpn {
                assert(old(self).view().contains_key(v));
            }
        }
    }

    /// The rights of the page holding `vaddr`, or `None` when it is not mapped.
    pub fn translate_vaddr(&self, vaddr: usize) -> (r: Option<MemoryPermission>)
        ensures
            self.mapped(vaddr as int) ==> r == Some(self.view()[vpn(vaddr as int) as usize].permission),
            !self.mapped(vaddr as int) ==> r.is_none(),
    {
        match self.pages.get(&(vaddr / PAGE_SIZE)) {
            Some(page) => Some(page.permission),
            None => None,
        }
    }

    /// The rights shared by every page that `[from, to)` touches, or `EFAULT` when part of
    /// it is not mapped. `from` must be below `to`.
    pub fn check_permission(&self, from: usize, to: usize) -> (r: Result<MemoryPermission, SystemError>)
        requires
            from < to,
        ensures
            self.range_mapped(from as int, to as int) ==> r == Ok::<MemoryPermission, SystemError>(
                MemoryPermission { bits: self.perm_fold(vpn(from as int), vpn(to - 1)) }),
            !self.range_mapped(from as int, to as int) ==> r == Err::<MemoryPermission, SystemError>(SystemError::EFAULT),
    {
        let mut permission: Option<MemoryPermission> = None;
        let mut vaddr = from;
        let mut blocks = BlockIterator::new(PAGE_SIZE, from, to - from);
        loop
            invariant
                blocks.wf(),
                blocks.spec_block_size() == PAGE_SIZE,
                blocks.spec_end() == to,
                blocks.spec_pos() == vaddr,
                from <= vaddr <= to,
                from < to,
                vaddr == from <==> permission.is_none(),
                vaddr > from ==> self.range_mapped(from as int, vaddr as int),
                vaddr > from ==> vaddr == to || vaddr % PAGE_SIZE == 0,
                permission matches Some(p) ==> p.bits == self.perm_fold(vpn(from as int), vpn(vaddr - 1)),
            ensures
                vaddr == to,
            decreases to - vaddr,
        {
            let block = match blocks.next() {
                None => {
                    break;
                },
                Some(b) => b,
            };
            let page_permission = match self.translate_vaddr(vaddr) {
                Some(p) => p,
                None => {
                    proof {
                        assert(!self.mapped(vaddr as int));
                    }
                    return Err(SystemError::EFAULT);
                },
            };
            proof {
                assert forall|k: int| 0 <= k < block.size implies
                    (#[trigger] vpn(vaddr + k)) == vpn(vaddr as int) by {
                    lemma_block_piece(PAGE_SIZE as nat, block.block_id as nat, block.offset as nat, k as nat);
                }
                assert forall|a: int| from <= a < vaddr + block.size implies #[trigger] self.mapped(a) by {
                    if a >= vaddr {
                        assert(vpn(vaddr + (a - vaddr)) == vpn(vaddr as int));
                    }
                }
                if vaddr > from {
                    // the previous piece ended on a page boundary, so this is a new page
                    lemma_block_piece(PAGE_SIZE as nat, block.block_id as nat, block.offset as nat, 0);
                    assert(vpn(vaddr - 1) + 1 == vpn(vaddr as int)) by {
                        vstd::arithmetic::div_mod::lemma_fundamental_div_mod(vaddr as int, PAGE_SIZE as int);
                        vstd::arithmetic::div_mod::lemma_fundamental_div_mod_converse(
                            vaddr - 1, PAGE_SIZE as int, vpn(vaddr as int) - 1, PAGE_SIZE - 1);
                    }
                }
                lemma_block_piece(PAGE_SIZE as nat, block.block_id as nat, block.offset as nat, (block.size - 1) as nat);
                assert(vpn(vaddr + block.size - 1) == vpn(vaddr as int));
            }
            vaddr = vaddr + block.size();
            permission = match permission {
                None => Some(page_permission),
                Some(p) => Some(p.intersect(&page_permission)),
            };
            proof {
                let end = blocks.spec_pos();
                if end < to {
                    assert(block.offset + block.size == PAGE_SIZE);
                    lemma_block_piece(PAGE_SIZE as nat, block.block_id as nat, 0, 0);
                    vstd::arithmetic::div_mod::lemma_mod_multiples_basic(block.block_id as int + 1, PAGE_SIZE as int);
                    assert((block.block_id + 1) * PAGE_SIZE == block.block_id * PAGE_SIZE + PAGE_SIZE) by (nonlinear_arith);
                }
            }
        }
        match permission {
            Some(p) => Ok(p),
            None => Ok(MemoryPermission::empty()),
        }
    }

    /// Copies the bytes at `[vaddr, vaddr + buf.len())` into `buf`. Every page of that range
    /// must be mapped (see `check_permission`).
    pub fn copyin(&self, vaddr: usize, buf: &mut Vec<u8>)
        requires
            self.wf(),
            vaddr + old(buf).len() <= usize::MAX,
            self.range_mapped(vaddr as int, vaddr + old(buf).len()),
        ensures
            final(buf).len() == old(buf).len(),
            final(buf)@ == self.bytes(vaddr as int, vaddr + old(buf).len()),
    {
        let ghost len = buf.len();
        let mut pos: usize = 0;
        let mut blocks = BlockIterator::new(PAGE_SIZE, vaddr, buf.len());
        loop
            invariant
                self.wf(),
                blocks.wf(),
                blocks.spec_block_size() == PAGE_SIZE,
                blocks.spec_end() == vaddr + len,
                blocks.spec_pos() == vaddr + pos,
                pos <= len,
                buf.len() == len,
                self.range_mapped(vaddr as int, vaddr + len),
                forall|j: int| 0 <= j < pos ==> buf@[j] == #[trigger] self.byte(vaddr + j),
            ensures
                pos == len,
            decreases len - pos,
        {
            let block = match blocks.next() {
                None => {
                    break;
                },
                Some(b) => b,
            };
            proof {
                lemma_block_piece(PAGE_SIZE as nat, block.block_id as nat, block.offset as nat, 0);
                assert(self.mapped(vaddr + pos));
            }
            let page = match self.pages.get(&block.block_id) {
                Some(p) => p,
                None => {
                    proof {
                        assert(false);
                    }
                    break;
                },
            };
            let ghost before = buf@;
            copy_bytes(buf, pos, &page.data, block.offset, block.size);
            proof {
                assert forall|j: int| 0 <= j < pos + block.size implies buf@[j] == #[trigger] self.byte(vaddr + j) by {
                    if j >= pos {
                        lemma_block_piece(PAGE_SIZE as nat, block.block_id as nat, block.offset as nat, (j - pos) as nat);
                    } else {
                        assert(buf@[j] == before[j]);
                    }
                }
            }
            pos = pos + block.size;
        }
        assert(buf@ =~= self.bytes(vaddr as int, vaddr + len));
    }

    /// Copies `buf` to `[vaddr, vaddr + buf.len())`. Every page of that range must be mapped
    /// (see `check_permission`); nothing else changes.
    pub fn copyout(&mut self, vaddr: usize, buf: &Vec<u8>)
        requires
            old(self).wf(),
            vaddr + buf.len() <= usize::MAX,
            old(self).range_mapped(vaddr as int, vaddr + buf.len()),
        ensures
            final(self).wf(),
            written(*old(self), *final(self), vaddr as int, buf@),
    {
        let ghost len = buf.len();
        let ghost start = *self;
        let mut pos: usize = 0;
        let mut blocks = BlockIterator::new(PAGE_SIZE, vaddr, buf.len());
        loop
            invariant
                self.wf(),
                blocks.wf(),
                blocks.spec_block_size() == PAGE_SIZE,
                blocks.spec_end() == vaddr + len,
                blocks.spec_pos() == vaddr + pos,
                pos <= len,
                buf.len() == len,
                start.wf(),
                start.range_mapped(vaddr as int, vaddr + len),
                self.view().dom() == start.view().dom(),
                forall|v: usize| #[trigger] start.view().contains_key(v)
                    ==> self.view()[v].permission == start.view()[v].permission,
                forall|a: int| #[trigger] start.mapped(a) ==> self.byte(a) == (
                    if vaddr <= a < vaddr + pos { buf@[a - vaddr] } else { start.byte(a) }),
            ensures
                pos == len,
            decreases len - pos,
        {
            let block = match blocks.next() {
                None => {
                    break;
                },
                Some(b) => b,
            };
            proof {
                lemma_block_piece(PAGE_SIZE as nat, block.block_id as nat, block.offset as nat, 0);
                assert(start.mapped(vaddr + pos));
            }
            let ghost mid = *self;
            let mut page = match self.pages.remove(&block.block_id) {
                Some(p) => p,
                None => {
                    proof {
                        assert(false);
                    }
                    break;
                },
            };
            let ghost old_data = page.data@;
            copy_bytes(&mut page.data, block.offset, buf, pos, block.size);
            self.pages.insert(block.block_id, page);
            proof {
                assert(self.view() == mid.view().insert(block.block_id, self.view()[block.block_id]));
                assert forall|v: usize| #[trigger] self.view().contains_key(v) implies self.view()[v].data@.len() == PAGE_SIZE by {
                    if v != block.block_id {
                        assert(mid.view().contains_key(v));
                    }
                }
                assert(self.view().dom() =~= start.view().dom());
                assert forall|a: int| #[trigger] start.mapped(a) implies self.byte(a) == (
                    if vaddr <= a < vaddr + pos + block.size { buf@[a - vaddr] } else { start.byte(a) }) by {
                    assert(mid.byte(a) == (if vaddr <= a < vaddr + pos { buf@[a - vaddr] } else { start.byte(a) }));
                    if vpn(a) == block.block_id {
                        let i = a % (PAGE_SIZE as int);
                        vstd::arithmetic::div_mod::lemma_fundamental_div_mod(a, PAGE_SIZE as int);
                        if block.offset <= i < block.offset + block.size {
                            lemma_block_piece(PAGE_SIZE as nat, block.block_id as nat, block.offset as nat, (i - block.offset) as nat);
                        } else {
                            assert(self.byte(a) == old_data[i]);
                            if i < block.offset {
                                assert(a < vaddr + pos);
                            } else {
                                assert(a >= vaddr + pos + block.size);
                            }
                        }
                    } else {
                        assert(mid.view().contains_key(vpn(a) as usize));
                        assert(self.byte(a) == mid.byte(a));
                        if vaddr + pos <= a < vaddr + pos + block.size {
                            lemma_block_piece(PAGE_SIZE as nat, block.block_id as nat, block.offset as nat, (a - vaddr - pos) as nat);
                        }
                    }
                }
            }
            pos = pos + block.size;
        }
    }

    /// The characters `b as char` of the `n` bytes at `start`.
    pub open spec fn chars(&self, start: int, n: nat) -> Seq<char> {
        Seq::new(n, |j: int| self.byte(start + j) as char)
    }

    /// Scans for a NUL-terminated string at `start` from its `i`th byte on, when the
    /// characters before it take `len` bytes in UTF-8 (each byte becomes one character):
    /// the string is too long once those characters take more than `max_len` bytes; else
    /// the scan faults at an unmapped page and stops at a NUL.
    pub open spec fn scan_str(&self, start: int, max_len: int, i: nat, len: int) -> StrScan
        decreases max_len + 2 - len,
    {
        if len > max_len {
            StrScan::TooLong
        } else if !self.mapped(start + i) {
            StrScan::Fault
        } else if self.byte(start + i) == 0 {
            StrScan::Found(i)
        } else {
            self.scan_str(start, max_len, i + 1, len + utf8_width(self.byte(start + i)))
        }
    }

    /// Reads the NUL-terminated string at `vaddr`, of at most `max_len` bytes; each byte
    /// becomes one character.
    ///
    /// Errors: `EFAULT` when an unmapped page is reached before the string ends;
    /// `ENAMETOOLONG` when the string, stored in UTF-8, is longer than `max_len` bytes
    /// before its NUL is reached.
    pub fn copyin_str(&self, vaddr: usize, max_len: usize) -> (r: Result<String, SystemError>)
        requires
            self.wf(),
            max_len > 0,
            vaddr + max_len <= usize::MAX,
        ensures
            match self.scan_str(vaddr as int, max_len as int, 0, 0) {
                StrScan::Found(n) => r matches Ok(s) && s@ == self.chars(vaddr as int, n),
                StrScan::Fault => r == Err::<String, SystemError>(SystemError::EFAULT),
                StrScan::TooLong => r == Err::<String, SystemError>(SystemError::ENAMETOOLONG),
            },
    {
        let mut s = String::new();
        let mut slen: usize = 0;
        let mut pos: usize = 0;
        loop
            invariant
                self.wf(),
                vaddr + max_len <= usize::MAX,
                pos <= slen <= max_len,
                s@ == self.chars(vaddr as int, pos as nat),
                self.scan_str(vaddr as int, max_len as int, 0, 0)
                    == self.scan_str(vaddr as int, max_len as int, pos as nat, slen as int),
            decreases max_len - slen,
        {
            let a = vaddr + pos;
            let page = match self.pages.get(&(a / PAGE_SIZE)) {
                Some(p) => p,
                None => {
                    proof {
                        assert(!self.mapped(a as int));
                    }
                    return Err(SystemError::EFAULT);
                },
            };
            assert(self.mapped(a as int));
            let c = page.data[a % PAGE_SIZE];
            assert(c == self.byte(a as int));
            if c == 0 {
                return Ok(s);
            }
            let w: usize = if c < 0x80 { 1 } else { 2 };
            if w > max_len - slen {
                assert(self.scan_str(vaddr as int, max_len as int, (pos + 1) as nat, slen + w)
                    == StrScan::TooLong);
                return Err(SystemError::ENAMETOOLONG);
            }
            push_char(&mut s, c as char);
            slen = slen + w;
            pos = pos + 1;
            assert(s@ =~= self.chars(vaddr as int, pos as nat));
        }
    }

    /// Writes the bytes of `s`, then a NUL, at `vaddr`. Every page of that range must be
    /// mapped (see `check_permission`); nothing else changes.
    pub fn copyout_str(&mut self, vaddr: usize, s: String)
        requires
            old(self).wf(),
            vaddr + vstd::utf8::encode_utf8(s@).len() + 1 <= usize::MAX,
            old(self).range_mapped(vaddr as int, vaddr + vstd::utf8::encode_utf8(s@).len() + 1),
        ensures
            final(self).wf(),
            written(*old(self), *final(self), vaddr as int, vstd::utf8::encode_utf8(s@).push(0u8)),
    {
        let mut bytes = vstd::slice::slice_to_vec(s.as_str().as_bytes());
        bytes.push(0);
        self.copyout(vaddr, &bytes);
        assert(bytes@ == vstd::utf8::encode_utf8(s@).push(0u8));
    }

    /// Copies the bytes at `[vaddr, vaddr + buf.len())` into `buf`, or `EFAULT` (nothing
    /// copied) when part of that range is not mapped or the range passes the end of the
    /// address space.
    pub fn copyin_bytes(&self, vaddr: usize, buf: &mut Vec<u8>) -> (r: Result<(), SystemError>)
        requires
            self.wf(),
        ensures
            final(buf).len() == old(buf).len(),
            (vaddr + old(buf).len() <= usize::MAX && self.range_mapped(vaddr as int, vaddr + old(buf).len()))
                ==> r is Ok && final(buf)@ == self.bytes(vaddr as int, vaddr + old(buf).len()),
            !(vaddr + old(buf).len() <= usize::MAX && self.range_mapped(vaddr as int, vaddr + old(buf).len()))
                ==> r == Err::<(), SystemError>(SystemError::EFAULT) && final(buf)@ == old(buf)@,
    {
        let len = buf.len();
        if len == 0 {
            assert(buf@ =~= self.bytes(vaddr as int, vaddr as int));
            return Ok(());
        }
        if vaddr > usize::MAX - len {
            return Err(SystemError::EFAULT);
        }
        match self.check_permission(vaddr, vaddr + len) {
            Err(e) => Err(e),
            Ok(_) => {
                self.copyin(vaddr, buf);
                Ok(())
            },
        }
    }

    /// Writes `buf` to `[vaddr, vaddr + buf.len())`, or `EFAULT` (nothing written) when part
    /// of that range is not mapped or the range passes the end of the address space.
    pub fn copyout_bytes(&mut self, vaddr: usize, buf: &Vec<u8>) -> (r: Result<(), SystemError>)
        requires
            old(self).wf(),
        ensures
            final(self).wf(),
            (vaddr + buf.len() <= usize::MAX && old(self).range_mapped(vaddr as int, vaddr + buf.len()))
                ==> r is Ok && written(*old(self), *final(self), vaddr as int, buf@),
            !(vaddr + buf.len() <= usize::MAX && old(self).range_mapped(vaddr as int, vaddr + buf.len()))
                ==> r == Err::<(), SystemError>(SystemError::EFAULT) && *final(self) == *old(self),
    {
        let len = buf.len();
        if len == 0 {
            assert(written(*self, *self, vaddr as int, buf@));
            return Ok(());
        }
        if vaddr > usize::MAX - len {
            return Err(SystemError::EFAULT);
        }
        match self.check_permission(vaddr, vaddr + len) {
            Err(e) => Err(e),
            Ok(_) => {
                self.copyout(vaddr, buf);
                Ok(())
            },
        }
    }

    /// The rights shared by the pages `lo..=hi`, combined from the lowest page up.
    pub open spec fn perm_fold(&self, lo: int, hi: int) -> u8
        decreases hi - lo,
    {
        if hi <= lo {
            self.perm(lo * PAGE_SIZE)
        } else {
            self.perm_fold(lo, hi - 1) & self.perm(hi * PAGE_SIZE)
        }
    }
}

/// A string written with `copyout_str` is read back by `copyin_str`: after writing the
/// UTF-8 bytes of `s` and a NUL at `vaddr` (as `copyout_str` does), where `s` is ASCII,
/// holds no NUL and is at most `max_len` bytes long, the scan finds a string of `s.len()`
/// bytes whose characters are those of `s`.
pub proof fn lemma_copyout_str_copyin_str(
    before: MemorySpace,
    after: MemorySpace,
    vaddr: int,
    s: Seq<char>,
    max_len: int,
)
    requires
        vstd::utf8::is_ascii_chars(s),
        forall|i: int| 0 <= i < s.len() ==> #[trigger] s[i] != '\0',
        s.len() <= max_len,
        before.range_mapped(vaddr, vaddr + s.len() + 1),
        written(before, after, vaddr, vstd::utf8::encode_utf8(s).push(0u8)),
    ensures
        after.scan_str(vaddr, max_len, 0, 0) == StrScan::Found(s.len()),
        after.chars(vaddr, s.len()) == s,
{
    let data = vstd::utf8::encode_utf8(s).push(0u8);
    vstd::utf8::is_ascii_chars_encode_utf8(s);
    lemma_copyout_copyin(before, after, vaddr, data);
    assert forall|a: int| vaddr <= a <= vaddr + s.len() implies after.mapped(a) && #[trigger] after.byte(a) == (
        if a < vaddr + s.len() { s[a - vaddr] as u8 } else { 0u8 }) by {
        assert(after.bytes(vaddr, vaddr + data.len())[a - vaddr] == data[a - vaddr]);
    }
    assert(holds_str(after, vaddr, s));
    lemma_scan_ascii(after, vaddr, s, max_len, 0);
    assert forall|j: int| 0 <= j < s.len() implies #[trigger] after.chars(vaddr, s.len())[j] == s[j] by {
        assert(after.byte(vaddr + j) == s[j] as u8);
        let c = s[j];
        assert(c <= '\u{7f}');
        assert((c as u8) as char == c);
    }
    assert(after.chars(vaddr, s.len()) =~= s);
}

/// The bytes at `vaddr` are mapped and hold the characters of `s` as bytes, then a NUL.
spec fn holds_str(m: MemorySpace, vaddr: int, s: Seq<char>) -> bool {
    forall|a: int| vaddr <= a <= vaddr + s.len() ==> m.mapped(a) && #[trigger] m.byte(a) == (
        if a < vaddr + s.len() { s[a - vaddr] as u8 } else { 0u8 })
}

/// From byte `i` on, the scan of a NUL-terminated ASCII string of length at most `max_len`
/// finds it whole.
proof fn lemma_scan_ascii(m: MemorySpace, vaddr: int, s: Seq<char>, max_len: int, i: int)
    requires
        vstd::utf8::is_ascii_chars(s),
        forall|k: int| 0 <= k < s.len() ==> #[trigger] s[k] != '\0',
        s.len() <= max_len,
        0 <= i <= s.len(),
        holds_str(m, vaddr, s),
    ensures
        m.scan_str(vaddr, max_len, i as nat, i) == StrScan::Found(s.len()),
    decreases s.len() - i,
{
    assert(m.byte(vaddr + i) == (if i < s.len() { s[i] as u8 } else { 0u8 }));
    if i < s.len() {
        let c = s[i];
        assert(c != '\0' && c <= '\u{7f}');
        assert((c as u8) != 0u8 && (c as u8) < 0x80u8);
        lemma_scan_ascii(m, vaddr, s, max_len, i + 1);
    }
}

} // verus!
