//! The VirtIO block device: feature negotiation, request layout and the bookkeeping of
//! requests in flight.
use vstd::prelude::*;
use std::collections::BTreeMap;
use crate::driver::virtio::queue::{DescFlags, Descriptor, UsedElem, VirtQueue, valid_chain};
use crate::utils::{le_bytes, lemma_le_bytes_len, write_le, zeros};

verus! {

broadcast use {vstd::std_specs::btree::group_btree_axioms, vstd::laws_cmp::group_laws_cmp};

/// Number of entries of the request queue.
pub const QUEUE_SIZE: u16 = 8;
/// The device counts in sectors of 512 bytes.
pub const SECTOR_SIZE: usize = 512;

/// Feature bits of a block device.
pub struct BlkFeature;

impl BlkFeature {
    pub const BARRIER: u64 = 1 << 0;
    pub const SIZE_MAX: u64 = 1 << 1;
    pub const SEG_MAX: u64 = 1 << 2;
    pub const GEOMETRY: u64 = 1 << 4;
    pub const RO: u64 = 1 << 5;
    pub const BLK_SIZE: u64 = 1 << 6;
    pub const SCSI: u64 = 1 << 7;
    pub const FLUSH: u64 = 1 << 9;
    pub const TOPOLOGY: u64 = 1 << 10;
    pub const CONFIG_WCE: u64 = 1 << 11;
    pub const MQ: u64 = 1 << 12;
    pub const DISCARD: u64 = 1 << 13;
    pub const WRITE_ZEROES: u64 = 1 << 14;
    pub const LIFETIME: u64 = 1 << 15;
    pub const SECURE_ERASE: u64 = 1 << 16;
    pub const NOTIFY_ON_EMPTY: u64 = 1 << 24;
    pub const ANY_LAYOUT: u64 = 1 << 27;
    pub const RING_INDIRECT_DESC: u64 = 1 << 28;
    pub const RING_EVENT_IDX: u64 = 1 << 29;
    pub const UNUSED: u64 = 1 << 30;
    pub const VERSION_1: u64 = 1 << 32;
    pub const ACCESS_PLATFORM: u64 = 1 << 33;
    pub const RING_PACKED: u64 = 1 << 34;
    pub const IN_ORDER: u64 = 1 << 35;
    pub const ORDER_PLATFORM: u64 = 1 << 36;
    pub const SR_IOV: u64 = 1 << 37;
    pub const NOTIFICATION_DATA: u64 = 1 << 38;

    /// Every feature bit that has a name.
    pub fn all() -> (r: u64)
        ensures
            r == 0x7f7901fef7,
    {
        0x7f7901fef7
    }

    /// The features this driver asks for: all of them but read-only, SCSI, cache mode
    /// toggling, multiqueue, any-layout, event index and indirect descriptors.
    pub fn supported() -> (r: u64)
        ensures
            r == 0x7f4101e657,
    {
        let mut features = Self::all();
        features = features & !Self::RO;
        features = features & !Self::SCSI;
        features = features & !Self::CONFIG_WCE;
        features = features & !Self::MQ;
        features = features & !Self::ANY_LAYOUT;
        features = features & !Self::RING_EVENT_IDX;
        features = features & !Self::RING_INDIRECT_DESC;
        assert(features == 0x7f4101e657) by (bit_vector)
            requires features == 0x7f7901fef7u64 & !(1u64 << 5) & !(1u64 << 7) & !(1u64 << 11)
                & !(1u64 << 12) & !(1u64 << 27) & !(1u64 << 29) & !(1u64 << 28);
        features
    }
}

/// The kind of a block request.
#[derive(Clone, Copy, Debug, PartialEq, Eq, Structural)]
pub enum ReqType {
    In,
    Out,
}

/// A block request header: its kind and the sector it starts at.
#[derive(Clone, Copy, Debug, PartialEq, Eq, Structural)]
pub struct BlkReq {
    pub type_: ReqType,
    pub reserved: u32,
    pub sector: u64,
}

/// The 16 bytes of a request header as the device reads them.
pub open spec fn spec_blk_req_bytes(r: BlkReq) -> Seq<u8> {
    le_bytes(if r.type_ == ReqType::In { 0 } else { 1 }, 4) + le_bytes(r.reserved as nat, 4)
        + le_bytes(r.sector as nat, 8)
}

impl BlkReq {
    /// The header's bytes, little-endian, in field order.
    pub fn to_bytes(&self) -> (r: Vec<u8>)
        ensures
            r@ == spec_blk_req_bytes(*self),
    {
        let mut buf = zeros(16);
        let t: u64 = match self.type_ {
            ReqType::In => 0,
            ReqType::Out => 1,
        };
        write_le(&mut buf, 0, t, 4);
        write_le(&mut buf, 4, self.reserved as u64, 4);
        write_le(&mut buf, 8, self.sector, 8);
        proof {
            lemma_le_bytes_len(t as nat, 4);
            lemma_le_bytes_len(self.reserved as nat, 4);
            lemma_le_bytes_len(self.sector as nat, 8);
        }
        assert(buf@ =~= spec_blk_req_bytes(*self));
        buf
    }
}

/// The size of the device in bytes, from the two halves of its sector count.
pub fn capacity_from_config(capacity_low: u32, capacity_high: u32) -> (r: u64)
    requires
        (capacity_low + capacity_high * 0x1_0000_0000) * 512 <= u64::MAX,
    ensures
        r == (capacity_low + capacity_high * 0x1_0000_0000) * 512,
{
    (capacity_low as u64 + capacity_high as u64 * 0x1_0000_0000) * SECTOR_SIZE as u64
}

/// A VirtIO block device: its request queue, its size and the requests in flight, each
/// known by the head of its descriptor chain and the token of the thread waiting for it.
pub struct VirtIOBlk {
    queue: VirtQueue<8>,
    /// Size of the disk in bytes.
    capacity: u64,
    pending_requests: BTreeMap<u16, u64>,
}

impl VirtIOBlk {
    pub closed spec fn spec_queue(&self) -> VirtQueue<8> {
        self.queue
    }

    pub closed spec fn spec_capacity(&self) -> u64 {
        self.capacity
    }

    /// The requests in flight: chain head to waiting token.
    pub closed spec fn pending(&self) -> Map<u16, u64> {
        self.pending_requests@
    }

    pub open spec fn wf(&self) -> bool {
        self.spec_queue().wf()
    }

    /// A device with request queue `queue` and `capacity` bytes, with nothing in flight.
    pub fn new(queue: VirtQueue<8>, capacity: u64) -> (r: Self)
        requires
            queue.wf(),
        ensures
            r.wf(),
            r.spec_queue() == queue,
            r.spec_capacity() == capacity,
            r.pending() == Map::<u16, u64>::empty(),
    {
        VirtIOBlk { queue, capacity, pending_requests: BTreeMap::new() }
    }

    /// The size of the disk in bytes.
    pub fn capacity(&self) -> (r: u64)
        ensures
            r == self.spec_capacity(),
    {
        self.capacity
    }

    /// Takes a free descriptor, or `None` when the caller has to wait for one.
    pub fn alloc_descriptor(&mut self) -> (r: Option<u16>)
        requires
            old(self).wf(),
        ensures
            final(self).wf(),
            final(self).pending() == old(self).pending(),
            final(self).spec_capacity() == old(self).spec_capacity(),
            old(self).spec_queue().free_list().len() == 0 ==> r.is_none(),
            old(self).spec_queue().free_list().len() > 0 ==> r == Some(old(self).spec_queue().free_list()[0])
                && final(self).spec_queue().free_list() == old(self).spec_queue().free_list().skip(1),
    {
        self.queue.alloc_descriptor()
    }

    /// Starts reading sector `block_id` into the 512-byte buffer at `buf_paddr`: the chain
    /// `d1 -> d2 -> d3` describes the request header at `req_paddr`, the buffer and the
    /// status byte at `status_paddr`; the chain is offered to the device and recorded as
    /// waited on by `waiter`. Gives the queue index to notify and the bytes of the request
    /// header, `BlkReq { In, 0, block_id }`, to place at `req_paddr` before notifying.
    pub fn read_block(
        &mut self,
        block_id: usize,
        d1: u16,
        d2: u16,
        d3: u16,
        req_paddr: u64,
        buf_paddr: u64,
        buf_len: usize,
        status_paddr: u64,
        waiter: u64,
    ) -> (r: (u16, Vec<u8>))
        requires
            old(self).wf(),
            buf_len == SECTOR_SIZE,
            d1 < 8 && d2 < 8 && d3 < 8,
            d1 != d2 && d2 != d3 && d1 != d3,
            !old(self).spec_queue().free_list().contains(d1),
            !old(self).spec_queue().free_list().contains(d2),
            !old(self).spec_queue().free_list().contains(d3),
        ensures
            final(self).wf(),
            r.0 == old(self).spec_queue().spec_queue_idx(),
            r.1@ == spec_blk_req_bytes(BlkReq { type_: ReqType::In, reserved: 0, sector: block_id as u64 }),
            final(self).pending() == old(self).pending().insert(d1, waiter),
            final(self).spec_queue().free_list() == old(self).spec_queue().free_list(),
            final(self).spec_queue().descriptors() == old(self).spec_queue().descriptors()
                .update(d3 as int, Descriptor { addr: status_paddr, len: 1, flags: DescFlags { bits: 2 }, next: 0 })
                .update(d2 as int, Descriptor { addr: buf_paddr, len: 512, flags: DescFlags { bits: 3 }, next: d3 })
                .update(d1 as int, Descriptor { addr: req_paddr, len: 16, flags: DescFlags { bits: 1 }, next: d2 }),
            valid_chain(final(self).spec_queue().descriptors(), seq![d1, d2, d3]),
            final(self).spec_queue().avail() == old(self).spec_queue().avail().update(
                (old(self).spec_queue().spec_avail_idx() % 8) as int, d1),
    {
        assert((2u16 | 1u16) == 3u16) by (bit_vector);
        let header = BlkReq { type_: ReqType::In, reserved: 0, sector: block_id as u64 }.to_bytes();
        // the status byte, written by the device
        self.queue.write_descriptor(d3, Descriptor::new(status_paddr, 1, DescFlags { bits: DescFlags::WRITE }, 0));
        // the data buffer, written by the device
        self.queue.write_descriptor(
            d2,
            Descriptor::new(buf_paddr, buf_len as u32, DescFlags { bits: DescFlags::WRITE | DescFlags::NEXT }, d3),
        );
        // the request header, read by the device
        self.queue.write_descriptor(d1, Descriptor::new(req_paddr, 16, DescFlags { bits: DescFlags::NEXT }, d2));
        self.pending_requests.insert(d1, waiter);
        let r = self.queue.request(d1);
        proof {
            let d = self.queue.descriptors();
            let c = seq![d1, d2, d3];
            self.queue.lemma_wf_len();
            old(self).queue.lemma_wf_len();
            assert((1u16 & 1u16) != 0u16 && (3u16 & 1u16) != 0u16 && (2u16 & 1u16) == 0u16) by (bit_vector);
            assert(c.last() == d3);
            assert(c.no_duplicates()) by {
                assert forall|i: int, j: int| 0 <= i < 3 && 0 <= j < 3 && i != j implies c[i] != c[j] by {}
            }
            assert(c[0] == d1 && c[1] == d2 && c[2] == d3);
            assert(d[d1 as int].next == d2);
            assert(d[d2 as int].next == d3);
            assert(d[c[0] as int].next == c[1]);
            assert(d[c[1] as int].next == c[2]);
            assert forall|i: int| 0 <= i < c.len() - 1 implies
                (#[trigger] d[c[i] as int]).flags.has_next() && d[c[i] as int].next == c[i + 1] by {
                if i == 0 {} else {}
            }
        }
        (r, header)
    }

    /// Whether a finished read succeeded: the device writes status 0 for success.
    pub fn read_succeeded(status: i8) -> (r: bool)
        ensures
            r == (status == 0),
    {
        status == 0
    }

    /// Takes back the next request that the device has finished, given its used index and
    /// used ring: frees its chain and gives its head with the token of the thread waiting
    /// for it (`None` for a chain nobody waits on). `None` when nothing new has finished.
    pub fn handle_interrupt(&mut self, used_idx: u16, used_ring: &Vec<UsedElem>) -> (r: Option<(u16, Option<u64>)>)
        requires
            old(self).wf(),
            used_ring.len() == 8,
            old(self).spec_queue().used_entry_ok(used_idx, used_ring@),
        ensures
            final(self).wf(),
            r matches Some((head, w)) ==> {
                &&& final(self).pending() == old(self).pending().remove(head)
                &&& w == if old(self).pending().contains_key(head) { Some(old(self).pending()[head]) } else { None }
            },
            r is None ==> final(self).pending() == old(self).pending()
                && used_idx == old(self).spec_queue().spec_last_used_idx(),
    {
        match self.queue.recycle_descriptor(used_idx, used_ring) {
            None => None,
            Some(desc_idx) => {
                let waker = self.pending_requests.remove(&desc_idx);
                Some((desc_idx, waker))
            },
        }
    }
}

} // verus!
