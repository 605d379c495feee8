//! A VirtIO split virtqueue: the descriptor table with its free list, the available ring
//! that the driver fills and the used ring that the device fills.
use vstd::prelude::*;
use vstd::set_lib::{lemma_int_range, lemma_len_subset, set_int_range};
use crate::arch::mm::PAGE_SIZE;

verus! {

/// Flags of a descriptor.
#[derive(Clone, Copy, Debug, PartialEq, Eq, Structural)]
pub struct DescFlags {
    pub bits: u16,
}

impl DescFlags {
    /// The buffer continues in the descriptor named by `next`.
    pub const NEXT: u16 = 1;
    /// The device writes into the buffer (otherwise it reads it).
    pub const WRITE: u16 = 2;

    pub fn empty() -> (r: DescFlags)
        ensures
            r.bits == 0,
    {
        DescFlags { bits: 0 }
    }

    pub fn from_bits_truncate(bits: u16) -> (r: DescFlags)
        ensures
            r.bits == bits & 3,
    {
        DescFlags { bits: bits & 3 }
    }

    pub fn bits(&self) -> (r: u16)
        ensures
            r == self.bits,
    {
        self.bits
    }

    /// Whether the flags hold `NEXT`.
    pub open spec fn has_next(self) -> bool {
        self.bits & 1 != 0
    }

    pub fn is_next(&self) -> (r: bool)
        ensures
            r == self.has_next(),
    {
        self.bits & 1 != 0
    }
}

/// One entry of the descriptor table: a buffer in guest-physical memory.
#[derive(Clone, Copy, Debug, PartialEq, Eq, Structural)]
pub struct Descriptor {
    pub addr: u64,
    pub len: u32,
    pub flags: DescFlags,
    pub next: u16,
}

impl Descriptor {
    pub fn new(addr: u64, len: u32, flags: DescFlags, next: u16) -> (r: Self)
        ensures
            r == (Descriptor { addr, len, flags, next }),
    {
        Descriptor { addr, len, flags, next }
    }
}

/// One entry of the used ring: the head of a finished chain and how much was written.
#[derive(Clone, Copy, Debug, PartialEq, Eq, Structural)]
pub struct UsedElem {
    pub id: u32,
    pub len: u32,
}

/// The byte sizes of the descriptor table, the available ring and the used ring of a
/// queue of `queue_size` entries.
pub fn queue_part_sizes(queue_size: u16) -> (r: (usize, usize, usize))
    ensures
        r.0 == 16 * queue_size,
        r.1 == 2 * (queue_size + 3),
        r.2 == 2 * 3 + 8 * queue_size,
{
    let queue_size = queue_size as usize;
    let desc = 16 * queue_size;
    let avail = 2 * (queue_size + 3);
    let used = 2 * 3 + 8 * queue_size;
    (desc, avail, used)
}

/// `a` rounded up to a whole number of pages.
pub open spec fn round_up(a: int, page: int) -> int {
    (a + page - 1) / page * page
}

/// Where the parts of a queue lie in its DMA memory: the descriptor table at the start,
/// the available ring right after it, and the used ring on the next page boundary.
#[derive(Clone, Copy, Debug, PartialEq, Eq, Structural)]
pub struct VirtQueueLayout {
    /// Physical address of the DMA memory.
    pub dma_paddr: usize,
    /// Number of pages of DMA memory.
    pub dma_pages: usize,
    pub avail_offset: usize,
    pub used_offset: usize,
}

impl VirtQueueLayout {
    /// The layout of a queue of `queue_size` entries placed in DMA memory at `dma_paddr`.
    pub fn new(queue_size: u16, dma_paddr: usize) -> (r: Self)
        ensures
            r.avail_offset == 16 * queue_size,
            r.used_offset == round_up(16 * queue_size + 2 * (queue_size + 3), PAGE_SIZE as int),
            r.dma_pages * PAGE_SIZE == r.used_offset + round_up(6 + 8 * queue_size, PAGE_SIZE as int),
            r.dma_paddr == dma_paddr,
    {
        let (desc, avail, used) = queue_part_sizes(queue_size);
        let part1_pages = (desc + avail + PAGE_SIZE - 1) / PAGE_SIZE;
        let part2_pages = (used + PAGE_SIZE - 1) / PAGE_SIZE;
        proof {
            vstd::arithmetic::mul::lemma_mul_is_distributive_add_other_way(PAGE_SIZE as int,
                part1_pages as int, part2_pages as int);
        }
        VirtQueueLayout {
            dma_paddr,
            dma_pages: part1_pages + part2_pages,
            avail_offset: desc,
            used_offset: part1_pages * PAGE_SIZE,
        }
    }

    pub fn descriptors_paddr(&self) -> (r: usize)
        ensures
            r == self.dma_paddr,
    {
        self.dma_paddr
    }

    pub fn avail_paddr(&self) -> (r: usize)
        requires
            self.dma_paddr + self.avail_offset <= usize::MAX,
        ensures
            r == self.dma_paddr + self.avail_offset,
    {
        self.dma_paddr + self.avail_offset
    }

    pub fn used_paddr(&self) -> (r: usize)
        requires
            self.dma_paddr + self.used_offset <= usize::MAX,
        ensures
            r == self.dma_paddr + self.used_offset,
    {
        self.dma_paddr + self.used_offset
    }
}

/// A sequence of distinct numbers below `n` has at most `n` elements.
pub proof fn lemma_distinct_bounded(s: Seq<u16>, n: nat)
    requires
        s.no_duplicates(),
        forall|i: int| 0 <= i < s.len() ==> (s[i] as int) < n,
    ensures
        s.len() <= n,
{
    let t = s.map_values(|x: u16| x as int);
    assert(t.no_duplicates()) by {
        assert forall|i: int, j: int| 0 <= i < t.len() && 0 <= j < t.len() && i != j implies t[i] != t[j] by {
            assert(s[i] != s[j]);
        }
    }
    t.unique_seq_to_set();
    lemma_int_range(0, n as int);
    assert(t.to_set().subset_of(set_int_range(0, n as int))) by {
        assert forall|x: int| t.to_set().contains(x) implies set_int_range(0, n as int).contains(x) by {
            let i = choose|i: int| 0 <= i < t.len() && t[i] == x;
        }
    }
    lemma_len_subset(t.to_set(), set_int_range(0, n as int));
}

/// `c` is a well-formed descriptor chain in `desc`: its descriptors are distinct entries of
/// the table, each but the last has `NEXT` set and names the following one, and the last
/// has `NEXT` clear.
pub open spec fn valid_chain(desc: Seq<Descriptor>, c: Seq<u16>) -> bool {
    &&& c.len() >= 1
    &&& c.no_duplicates()
    &&& forall|i: int| 0 <= i < c.len() ==> (c[i] as int) < desc.len()
    &&& forall|i: int| 0 <= i < c.len() - 1 ==> (#[trigger] desc[c[i] as int]).flags.has_next()
        && desc[c[i] as int].next == c[i + 1]
    &&& !desc[c.last() as int].flags.has_next()
}

/// A virtqueue of `SIZE` entries, where `SIZE` is a power of two.
pub struct VirtQueue<const SIZE: usize> {
    layout: VirtQueueLayout,
    /// The descriptor table.
    desc: Vec<Descriptor>,
    /// The ring of the available ring, and its index.
    avail_ring: Vec<u16>,
    avail_idx: u16,
    /// Number of free descriptors.
    free_num: u16,
    /// Head of the free list, which is chained through `next`.
    free_head: u16,
    /// The queue's index on its device.
    queue_idx: u16,
    /// How many entries of the used ring have been taken back.
    last_used_idx: u16,
    /// The free list, head first.
    free_list: Ghost<Seq<u16>>,
}

/// `n` is a power of two.
pub open spec fn is_power_of_two(n: nat) -> bool
    decreases n,
{
    if n == 1 {
        true
    } else if n == 0 || n % 2 == 1 {
        false
    } else {
        is_power_of_two(n / 2)
    }
}

impl<const SIZE: usize> VirtQueue<SIZE> {
    pub closed spec fn descriptors(&self) -> Seq<Descriptor> {
        self.desc@
    }

    /// The free descriptors, in the order they will be handed out.
    pub closed spec fn free_list(&self) -> Seq<u16> {
        self.free_list@
    }

    pub closed spec fn avail(&self) -> Seq<u16> {
        self.avail_ring@
    }

    pub closed spec fn spec_avail_idx(&self) -> u16 {
        self.avail_idx
    }

    pub closed spec fn spec_last_used_idx(&self) -> u16 {
        self.last_used_idx
    }

    pub closed spec fn spec_free_head(&self) -> u16 {
        self.free_head
    }

    pub closed spec fn spec_queue_idx(&self) -> u16 {
        self.queue_idx
    }

    pub closed spec fn spec_layout(&self) -> VirtQueueLayout {
        self.layout
    }

    pub closed spec fn wf(&self) -> bool {
        &&& 1 <= SIZE <= 32768
        &&& is_power_of_two(SIZE as nat)
        &&& self.desc.len() == SIZE
        &&& self.avail_ring.len() == SIZE
        &&& self.free_num == self.free_list@.len()
        &&& self.free_list@.no_duplicates()
        &&& forall|i: int| 0 <= i < self.free_list@.len() ==> (self.free_list@[i] as int) < SIZE
        &&& self.free_list@.len() > 0 ==> self.free_head == self.free_list@[0]
        &&& forall|i: int| 0 <= i < self.free_list@.len() - 1 ==>
            (#[trigger] self.desc@[self.free_list@[i] as int]).next == self.free_list@[i + 1]
    }

    /// A well-formed queue has `SIZE` descriptors and `SIZE` available-ring slots.
    pub proof fn lemma_wf_len(&self)
        requires
            self.wf(),
        ensures
            self.descriptors().len() == SIZE,
            self.avail().len() == SIZE,
            1 <= SIZE <= 32768,
    {
    }

    /// A queue whose descriptors are all free, chained in order. The device's largest
    /// queue for this index, `max_queue_size`, must hold `SIZE` descriptors.
    pub fn new(max_queue_size: u32, idx: u16, dma_paddr: usize) -> (r: Self)
        requires
            1 <= SIZE <= 32768,
            is_power_of_two(SIZE as nat),
            max_queue_size >= SIZE,
        ensures
            r.wf(),
            r.free_list() == Seq::new(SIZE as nat, |i: int| i as u16),
            r.spec_queue_idx() == idx,
            r.spec_avail_idx() == 0,
            r.spec_last_used_idx() == 0,
            r.spec_layout().dma_paddr == dma_paddr,
            r.spec_layout().avail_offset == 16 * SIZE,
    {
        let layout = VirtQueueLayout::new(SIZE as u16, dma_paddr);
        let mut desc: Vec<Descriptor> = Vec::new();
        let mut avail_ring: Vec<u16> = Vec::new();
        let mut i: usize = 0;
        while i < SIZE
            invariant
                i <= SIZE <= 32768,
                desc.len() == i,
                avail_ring.len() == i,
                forall|j: int| 0 <= j < i ==> (#[trigger] desc@[j]).next == (if j + 1 < SIZE { j + 1 } else { 0 }),
            decreases SIZE - i,
        {
            // each descriptor starts out naming the following one
            let next: u16 = if i + 1 < SIZE { (i + 1) as u16 } else { 0 };
            desc.push(Descriptor::new(0, 0, DescFlags::empty(), next));
            avail_ring.push(0);
            i = i + 1;
        }
        let ghost fl = Seq::new(SIZE as nat, |j: int| j as u16);
        assert forall|j: int, k: int| 0 <= j < fl.len() && 0 <= k < fl.len() && j != k implies fl[j] != fl[k] by {}
        VirtQueue {
            layout,
            desc,
            avail_ring,
            avail_idx: 0,
            free_num: SIZE as u16,
            free_head: 0,
            queue_idx: idx,
            last_used_idx: 0,
            free_list: Ghost(fl),
        }
    }

    /// Takes a free descriptor, or `None` when there is none.
    pub fn alloc_descriptor(&mut self) -> (r: Option<u16>)
        requires
            old(self).wf(),
        ensures
            final(self).wf(),
            final(self).descriptors() == old(self).descriptors(),
            final(self).avail() == old(self).avail(),
            final(self).spec_avail_idx() == old(self).spec_avail_idx(),
            final(self).spec_last_used_idx() == old(self).spec_last_used_idx(),
            final(self).spec_queue_idx() == old(self).spec_queue_idx(),
            final(self).spec_layout() == old(self).spec_layout(),
            old(self).free_list().len() == 0 ==> r.is_none() && final(self).free_list() == old(self).free_list(),
            old(self).free_list().len() > 0 ==> r == Some(old(self).free_list()[0])
                && final(self).free_list() == old(self).free_list().skip(1),
    {
        if self.free_num == 0 {
            None
        } else {
            let head = self.free_head;
            self.free_head = self.desc[head as usize].next;
            self.free_num = self.free_num - 1;
            self.free_list = Ghost(self.free_list@.skip(1));
            proof {
                let fl = self.free_list@;
                assert forall|i: int| 0 <= i < fl.len() - 1 implies
                    (#[trigger] self.desc@[fl[i] as int]).next == fl[i + 1] by {
                    assert(fl[i] == old(self).free_list@[i + 1]);
                    assert(old(self).desc@[old(self).free_list@[i + 1] as int].next == old(self).free_list@[i + 2]);
                }
                if fl.len() > 0 {
                    assert(old(self).desc@[old(self).free_list@[0] as int].next == old(self).free_list@[1]);
                }
            }
            Some(head)
        }
    }

    /// Writes descriptor `idx`, which the caller has taken from the free list.
    pub fn write_descriptor(&mut self, idx: u16, desc: Descriptor)
        requires
            old(self).wf(),
            (idx as int) < SIZE,
            !old(self).free_list().contains(idx),
        ensures
            final(self).wf(),
            final(self).descriptors() == old(self).descriptors().update(idx as int, desc),
            final(self).free_list() == old(self).free_list(),
            final(self).avail() == old(self).avail(),
            final(self).spec_avail_idx() == old(self).spec_avail_idx(),
            final(self).spec_last_used_idx() == old(self).spec_last_used_idx(),
            final(self).spec_queue_idx() == old(self).spec_queue_idx(),
            final(self).spec_layout() == old(self).spec_layout(),
    {
        self.desc.set(idx as usize, desc);
        proof {
            let fl = self.free_list@;
            assert forall|i: int| 0 <= i < fl.len() - 1 implies
                (#[trigger] self.desc@[fl[i] as int]).next == fl[i + 1] by {
                assert(fl[i] != idx);
                assert(old(self).desc@[fl[i] as int].next == fl[i + 1]);
            }
        }
    }

    /// Offers the chain starting at `desc_idx` to the device: puts it in the next slot of
    /// the available ring and advances the ring's index. Gives the queue's index, which the
    /// caller passes on to the device's notify register.
    pub fn request(&mut self, desc_idx: u16) -> (r: u16)
        requires
            old(self).wf(),
        ensures
            final(self).wf(),
            r == old(self).spec_queue_idx(),
            final(self).avail() == old(self).avail().update(
                (old(self).spec_avail_idx() % (SIZE as u16)) as int, desc_idx),
            final(self).spec_avail_idx() == (old(self).spec_avail_idx() + 1) % 0x1_0000,
            final(self).descriptors() == old(self).descriptors(),
            final(self).free_list() == old(self).free_list(),
            final(self).spec_last_used_idx() == old(self).spec_last_used_idx(),
            final(self).spec_queue_idx() == old(self).spec_queue_idx(),
            final(self).spec_layout() == old(self).spec_layout(),
    {
        let slot = self.avail_idx % (SIZE as u16);
        self.avail_ring.set(slot as usize, desc_idx);
        self.avail_idx = self.avail_idx.wrapping_add(1);
        self.queue_idx
    }

    /// The used ring holds an entry not yet taken back whose chain can be returned to the
    /// free list: the device hands back only chains that were offered to it.
    pub open spec fn used_entry_ok(&self, used_idx: u16, used_ring: Seq<UsedElem>) -> bool {
        used_idx != self.spec_last_used_idx() ==> {
            let head = used_ring[(self.spec_last_used_idx() % (SIZE as u16)) as int].id;
            &&& head < SIZE
            &&& exists|c: Seq<u16>| #[trigger] valid_chain(self.descriptors(), c) && c[0] == head
                && forall|i: int| 0 <= i < c.len() ==> !self.free_list().contains(#[trigger] c[i])
        }
    }

    /// Takes back the next chain that the device has finished with, given the device's used
    /// index `used_idx` and the used ring `used_ring`: returns its head and puts the whole
    /// chain back at the front of the free list. `None` when the device has finished
    /// nothing new.
    pub fn recycle_descriptor(&mut self, used_idx: u16, used_ring: &Vec<UsedElem>) -> (r: Option<u16>)
        requires
            old(self).wf(),
            used_ring.len() == SIZE,
            old(self).used_entry_ok(used_idx, used_ring@),
        ensures
            final(self).wf(),
            final(self).avail() == old(self).avail(),
            final(self).spec_avail_idx() == old(self).spec_avail_idx(),
            final(self).spec_queue_idx() == old(self).spec_queue_idx(),
            final(self).spec_layout() == old(self).spec_layout(),
            used_idx == old(self).spec_last_used_idx() ==> r.is_none() && *final(self) == *old(self),
            used_idx != old(self).spec_last_used_idx() ==> {
                let head = used_ring@[(old(self).spec_last_used_idx() % (SIZE as u16)) as int].id as u16;
                &&& r == Some(head)
                &&& final(self).spec_last_used_idx() == (old(self).spec_last_used_idx() + 1) % 0x1_0000
                &&& exists|c: Seq<u16>| valid_chain(old(self).descriptors(), c) && c[0] == head
                    && final(self).free_list() == c + old(self).free_list()
                    && final(self).descriptors() == old(self).descriptors().update(
                        c.last() as int,
                        Descriptor { next: old(self).spec_free_head(), ..old(self).descriptors()[c.last() as int] },
                    )
            },
    {
        if self.last_used_idx == used_idx {
            return None;
        }
        let used_slot = self.last_used_idx % (SIZE as u16);
        let head = used_ring[used_slot as usize].id as u16;
        self.last_used_idx = self.last_used_idx.wrapping_add(1);
        let ghost c = choose|c: Seq<u16>| #[trigger] valid_chain(old(self).descriptors(), c) && c[0] == head
            && forall|i: int| 0 <= i < c.len() ==> !old(self).free_list().contains(#[trigger] c[i]);
        let mut tail = head;
        let mut chain_len: u16 = 1;
        let ghost mut k: int = 0;
        proof {
            let all = c + self.free_list@;
            assert(all.no_duplicates()) by {
                assert forall|i: int, j: int| 0 <= i < all.len() && 0 <= j < all.len() && i != j implies all[i] != all[j] by {
                    if i < c.len() && j >= c.len() {
                        assert(self.free_list@.contains(all[j]));
                    } else if j < c.len() && i >= c.len() {
                        assert(self.free_list@.contains(all[i]));
                    }
                }
            }
            lemma_distinct_bounded(all, SIZE as nat);
        }
        while self.desc[tail as usize].flags.is_next()
            invariant
                self.wf(),
                self.desc@ == old(self).desc@,
                self.free_list@ == old(self).free_list@,
                valid_chain(self.desc@, c),
                c.len() + self.free_list@.len() <= SIZE,
                0 <= k < c.len(),
                tail == c[k],
                chain_len == k + 1,
            decreases c.len() - k,
        {
            proof {
                if k == c.len() - 1 {
                    assert(!self.desc@[c.last() as int].flags.has_next());
                }
                assert(self.desc@[c[k] as int].next == c[k + 1]);
            }
            tail = self.desc[tail as usize].next;
            chain_len = chain_len + 1;
            proof {
                k = k + 1;
            }
        }
        proof {
            if k < c.len() - 1 {
                assert(self.desc@[c[k] as int].flags.has_next());
            }
            assert(k == c.len() - 1);
        }
        let old_head = self.free_head;
        let tail_desc = self.desc[tail as usize];
        self.desc.set(tail as usize, Descriptor { next: old_head, ..tail_desc });
        self.free_head = head;
        self.free_num = self.free_num + chain_len;
        let ghost old_fl = self.free_list@;
        self.free_list = Ghost(c + old_fl);
        proof {
            let fl = self.free_list@;
            assert(fl.no_duplicates()) by {
                assert forall|i: int, j: int| 0 <= i < fl.len() && 0 <= j < fl.len() && i != j implies fl[i] != fl[j] by {
                    if i < c.len() && j >= c.len() {
                        assert(old_fl.contains(fl[j]));
                    } else if j < c.len() && i >= c.len() {
                        assert(old_fl.contains(fl[i]));
                    }
                }
            }
            assert forall|i: int| 0 <= i < fl.len() - 1 implies
                (#[trigger] self.desc@[fl[i] as int]).next == fl[i + 1] by {
                if i < c.len() - 1 {
                    assert(fl[i] != tail);
                    assert(old(self).desc@[c[i] as int].next == c[i + 1]);
                } else if i == c.len() - 1 {
                    assert(fl[i] == tail);
                } else {
                    assert(fl[i] == old_fl[i - c.len()]);
                    assert(!c.contains(fl[i]));
                    assert(fl[i] != tail);
                    assert(old(self).desc@[old_fl[i - c.len()] as int].next == old_fl[i - c.len() + 1]);
                }
            }
        }
        Some(head)
    }
}

} // verus!
