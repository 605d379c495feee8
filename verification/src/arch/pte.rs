//! Sv39 page table entries and the memory permissions they encode.
use vstd::prelude::*;

verus! {

/// Access rights of a mapping.
#[derive(Clone, Copy, Debug, PartialEq, Eq, Structural)]
pub struct MemoryPermission {
    pub bits: u8,
}

impl MemoryPermission {
    pub const READABLE: u8 = 0x1;
    pub const WRITABLE: u8 = 0x2;
    pub const EXECUTABLE: u8 = 0x4;
    pub const USER_ACCESSIBLE: u8 = 0x8;

    pub fn empty() -> (r: Self)
        ensures
            r.bits == 0,
    {
        MemoryPermission { bits: 0 }
    }

    pub fn from_bits_truncate(bits: u8) -> (r: Self)
        ensures
            r.bits == bits & 0xf,
    {
        MemoryPermission { bits: bits & 0xf }
    }

    pub open spec fn has(self, flag: u8) -> bool {
        self.bits & flag == flag
    }

    /// Whether every right in `other` is in `self`.
    pub fn contains(&self, other: u8) -> (r: bool)
        ensures
            r == self.has(other),
    {
        self.bits & other == other
    }

    /// The rights in both.
    pub fn intersect(&self, other: &Self) -> (r: Self)
        ensures
            r.bits == self.bits & other.bits,
    {
        MemoryPermission { bits: self.bits & other.bits }
    }

    /// The rights in either.
    pub fn union(&self, other: &Self) -> (r: Self)
        ensures
            r.bits == self.bits | other.bits,
    {
        MemoryPermission { bits: self.bits | other.bits }
    }
}

/// The flag bits of an Sv39 entry.
#[derive(Clone, Copy, Debug, PartialEq, Eq, Structural)]
pub struct Sv39PTEFlags {
    pub bits: u8,
}

impl Sv39PTEFlags {
    pub const V: u8 = 0x01;
    pub const R: u8 = 0x02;
    pub const W: u8 = 0x04;
    pub const X: u8 = 0x08;
    pub const U: u8 = 0x10;
    pub const G: u8 = 0x20;
    pub const A: u8 = 0x40;
    pub const D: u8 = 0x80;

    /// Every one of the eight bits names a flag, so any byte is a valid set of flags.
    pub fn from_bits(bits: u8) -> (r: Option<Self>)
        ensures
            r == Some(Sv39PTEFlags { bits }),
    {
        Some(Sv39PTEFlags { bits })
    }

    pub fn contains(&self, flag: u8) -> (r: bool)
        ensures
            r == (self.bits & flag == flag),
    {
        self.bits & flag == flag
    }
}

/// The flag bits of a leaf entry with permission `p`: valid, plus R, W, X and U where `p`
/// grants reading, writing, execution and user access.
pub open spec fn leaf_flags(p: MemoryPermission) -> u8 {
    (1u8 | (if p.has(MemoryPermission::READABLE) { 2u8 } else { 0u8 })
        | (if p.has(MemoryPermission::WRITABLE) { 4u8 } else { 0u8 })
        | (if p.has(MemoryPermission::EXECUTABLE) { 8u8 } else { 0u8 })
        | (if p.has(MemoryPermission::USER_ACCESSIBLE) { 16u8 } else { 0u8 })) as u8
}

/// An Sv39 page table entry.
#[derive(Clone, Copy, Debug, PartialEq, Eq, Structural)]
pub struct Sv39PTE {
    pub bits: u64,
}

/// The bits of an entry that points at physical address `paddr` with flag bits `flags`:
/// the page number in bits 10 and up, the flags in the low byte.
pub open spec fn pte_bits(paddr: u64, flags: u8) -> u64 {
    ((paddr >> 12u64) << 10u64) | (flags as u64)
}

/// The physical address that entry bits `bits` point at.
pub open spec fn pte_paddr(bits: u64) -> u64 {
    ((bits >> 10u64) & 0xFFF_FFFF_FFFFu64) << 12u64
}

impl Sv39PTE {
    /// The entry's flag bits.
    pub fn flags(&self) -> (r: Sv39PTEFlags)
        ensures
            r.bits == self.bits as u8,
    {
        match Sv39PTEFlags::from_bits(#[verifier::truncate] (self.bits as u8)) {
            Some(f) => f,
            None => Sv39PTEFlags { bits: 0 },
        }
    }

    /// A valid leaf entry mapping the page at `paddr` with permission `permission`.
    pub fn new_leaf(paddr: usize, permission: MemoryPermission) -> (r: Self)
        ensures
            r.bits == pte_bits(paddr as u64, leaf_flags(permission)),
    {
        let r = permission.contains(MemoryPermission::READABLE);
        let w = permission.contains(MemoryPermission::WRITABLE);
        let x = permission.contains(MemoryPermission::EXECUTABLE);
        let u = permission.contains(MemoryPermission::USER_ACCESSIBLE);
        let flags: u8 = Sv39PTEFlags::V | (if r { Sv39PTEFlags::R } else { 0 })
            | (if w { Sv39PTEFlags::W } else { 0 }) | (if x { Sv39PTEFlags::X } else { 0 })
            | (if u { Sv39PTEFlags::U } else { 0 });
        Sv39PTE { bits: ((paddr as u64 >> 12) << 10) | flags as u64 }
    }

    /// A valid non-leaf entry pointing at the page table at `paddr`, open to user mode
    /// when `is_user`.
    pub fn new_non_leaf(paddr: usize, is_user: bool) -> (r: Self)
        ensures
            r.bits == pte_bits(paddr as u64, if is_user { 17u8 } else { 1u8 }),
    {
        assert((1u8 | 16u8) == 17u8) by (bit_vector);
        let flags: u8 = if is_user { Sv39PTEFlags::V | Sv39PTEFlags::U } else { Sv39PTEFlags::V };
        Sv39PTE { bits: ((paddr as u64 >> 12) << 10) | flags as u64 }
    }

    /// Whether the entry is valid.
    pub fn is_valid(&self) -> (r: bool)
        ensures
            r == (self.bits & 1 == 1),
    {
        let f = self.flags();
        let b = self.bits;
        assert(((b as u8) & 1u8 == 1u8) == (b & 1u64 == 1u64)) by (bit_vector);
        assert(f.bits == b as u8);
        f.contains(Sv39PTEFlags::V)
    }

    /// The physical address the entry points at.
    pub fn paddr(&self) -> (r: usize)
        requires
            pte_paddr(self.bits) <= usize::MAX,
        ensures
            r == pte_paddr(self.bits),
    {
        let ppn = (self.bits >> 10) & 0xFFF_FFFF_FFFF;
        let shifted = ppn << 12;
        shifted as usize
    }
}

/// An entry made for a page-aligned physical address below 2^56 points back at that
/// address, and is valid.
pub proof fn lemma_pte_roundtrip(paddr: u64, flags: u8)
    requires
        paddr % 4096 == 0,
        paddr < 0x100_0000_0000_0000,
        flags & 1 == 1,
    ensures
        pte_paddr(pte_bits(paddr, flags)) == paddr,
        pte_bits(paddr, flags) & 1 == 1,
        pte_bits(paddr, flags) as u8 == flags,
{
    assert(((((paddr >> 12u64) << 10u64) | (flags as u64)) >> 10u64) & 0xFFF_FFFF_FFFFu64 == paddr >> 12u64)
        by (bit_vector)
        requires paddr < 0x100_0000_0000_0000u64;
    assert(((paddr >> 12u64) << 12u64) == paddr) by (bit_vector)
        requires paddr % 4096 == 0;
    assert(((((paddr >> 12u64) << 10u64) | (flags as u64)) & 1u64 == 1u64)) by (bit_vector)
        requires flags & 1u8 == 1u8;
    assert(((((paddr >> 12u64) << 10u64) | (flags as u64)) as u8 == flags)) by (bit_vector);
}

/// What a leaf entry grants: made for page address `paddr` (below 2^56) with permission
/// `p`, the entry is valid (bit 0) and points at `paddr`'s page (bits 10 and up hold
/// `paddr >> 12`); its R bit (bit 1) is set exactly when `p` grants reading (bit 0 of `p`),
/// its W bit (bit 2) exactly when `p` grants writing (bit 1), its X bit (bit 3) exactly when
/// `p` grants execution (bit 2) and its U bit (bit 4) exactly when `p` grants user access
/// (bit 3); the G, A and D bits (5 to 7) are clear.
pub proof fn lemma_leaf_rights(paddr: u64, p: MemoryPermission)
    requires
        paddr < 0x100_0000_0000_0000,
    ensures
        ({
            let b = pte_bits(paddr, leaf_flags(p));
            &&& b & 1 == 1
            &&& (b & 2 != 0) == (p.bits & 1 != 0)
            &&& (b & 4 != 0) == (p.bits & 2 != 0)
            &&& (b & 8 != 0) == (p.bits & 4 != 0)
            &&& (b & 16 != 0) == (p.bits & 8 != 0)
            &&& b & 0xe0 == 0
            &&& b >> 10u64 == paddr >> 12u64
        }),
{
    let pb = p.bits;
    let r = pb & 1u8 == 1u8;
    let w = pb & 2u8 == 2u8;
    let x = pb & 4u8 == 4u8;
    let u = pb & 8u8 == 8u8;
    let f = leaf_flags(p);
    assert(f == (1u8 | (if r { 2u8 } else { 0u8 }) | (if w { 4u8 } else { 0u8 })
        | (if x { 8u8 } else { 0u8 }) | (if u { 16u8 } else { 0u8 })) as u8);
    assert(r == (pb & 1 != 0) && w == (pb & 2 != 0) && x == (pb & 4 != 0) && u == (pb & 8 != 0)) by (bit_vector)
        requires r == (pb & 1u8 == 1u8), w == (pb & 2u8 == 2u8), x == (pb & 4u8 == 4u8), u == (pb & 8u8 == 8u8);
    let b = pte_bits(paddr, f);
    assert(b == ((paddr >> 12u64) << 10u64) | (f as u64));
    assert({
        &&& b & 1 == 1
        &&& (b & 2 != 0) == r
        &&& (b & 4 != 0) == w
        &&& (b & 8 != 0) == x
        &&& (b & 16 != 0) == u
        &&& b & 0xe0 == 0
        &&& b >> 10u64 == paddr >> 12u64
    }) by (bit_vector)
        requires
            paddr < 0x100_0000_0000_0000u64,
            f == (1u8 | (if r { 2u8 } else { 0u8 }) | (if w { 4u8 } else { 0u8 })
                | (if x { 8u8 } else { 0u8 }) | (if u { 16u8 } else { 0u8 })) as u8,
            b == ((paddr >> 12u64) << 10u64) | (f as u64);
}

} // verus!
