//! Which CPUs are online, and the bookkeeping of a TLB shootdown across them.
use vstd::prelude::*;

verus! {

/// One more than the largest CPU id; no more CPUs than this are used.
pub const MAX_CPU_COUNT: usize = 8;
/// The base clock frequency: QEMU runs 10 000 000 cycles a second.
pub const CLOCK_CYCLE: usize = 10000000;
/// Size of each CPU's boot stack in machine mode.
pub const BOOT_STACK_SIZE: usize = 1024 * 1024;
/// Base address of the core-local interruptor.
pub const CLINT_ADDR: usize = 0x2000000;

/// Bit `h` of `x`.
pub open spec fn bit(x: u64, h: u64) -> bool {
    (x >> h) & 1 == 1
}

pub proof fn lemma_bit_set(m: u64, x: u64, h: u64)
    requires
        x < 64,
        h < 64,
    ensures
        bit(m | (1u64 << x), h) == (bit(m, h) || h == x),
{
    assert(((m | (1u64 << x)) >> h) & 1 == 1 <==> (((m >> h) & 1 == 1) || h == x)) by (bit_vector)
        requires x < 64, h < 64;
}

pub proof fn lemma_bit_clear(m: u64, x: u64, h: u64)
    requires
        x < 64,
        h < 64,
    ensures
        bit(m & !(1u64 << x), h) == (bit(m, h) && h != x),
{
    assert(((m & !(1u64 << x)) >> h) & 1 == 1 <==> (((m >> h) & 1 == 1) && h != x)) by (bit_vector)
        requires x < 64, h < 64;
}

/// The number of set bits of `x`.
pub open spec fn popcount(x: nat) -> nat
    decreases x,
{
    if x == 0 {
        0
    } else {
        (x % 2) + popcount(x / 2)
    }
}

/// The number of set bits of `x`.
pub fn count_ones(x: u64) -> (r: u32)
    ensures
        r == popcount(x as nat),
        r <= 64,
{
    let mut rest = x;
    let mut count: u32 = 0;
    let mut steps: u32 = 0;
    proof {
        lemma_pow2_u64_eq(64);
        vstd::arithmetic::power2::lemma2_to64();
    }
    while rest != 0
        invariant
            count + popcount(rest as nat) == popcount(x as nat),
            count <= steps,
            steps <= 64,
            rest < pow2_u64(64 - steps),
        decreases rest,
    {
        proof {
            lemma_halve_bound(rest, steps);
        }
        count = count + (rest % 2) as u32;
        rest = rest / 2;
        steps = steps + 1;
    }
    count
}

/// `2^k`, for `k <= 64`.
pub open spec fn pow2_u64(k: int) -> nat
    decreases k,
{
    if k <= 0 {
        1
    } else {
        2 * pow2_u64(k - 1)
    }
}

proof fn lemma_pow2_u64_eq(k: nat)
    ensures
        pow2_u64(k as int) == vstd::arithmetic::power2::pow2(k),
    decreases k,
{
    if k == 0 {
        vstd::arithmetic::power2::lemma2_to64();
    } else {
        vstd::arithmetic::power2::lemma_pow2_unfold(k);
        lemma_pow2_u64_eq((k - 1) as nat);
    }
}

proof fn lemma_halve_bound(rest: u64, steps: u32)
    requires
        rest != 0,
        steps <= 64,
        rest < pow2_u64(64 - steps),
    ensures
        steps < 64,
        rest / 2 < pow2_u64(64 - steps - 1),
{
    if steps == 64 {
        assert(pow2_u64(0) == 1);
    }
    assert(pow2_u64(64 - steps) == 2 * pow2_u64(64 - steps - 1));
}

/// Why an online CPU mask was refused.
#[derive(Clone, Copy, Debug, PartialEq, Eq, Structural)]
pub enum CpuMaskError {
    /// A CPU id is `MAX_CPU_COUNT` or more.
    IdTooLarge,
    /// More than `MAX_CPU_COUNT` CPUs.
    TooMany,
}

/// Checks the mask of online CPUs set at boot: every id must be below `MAX_CPU_COUNT`,
/// and there must be at most `MAX_CPU_COUNT` of them.
pub fn check_online_cpu_mask(cpu_mask: u64) -> (r: Result<(), CpuMaskError>)
    ensures
        cpu_mask >= 256 ==> r == Err::<(), CpuMaskError>(CpuMaskError::IdTooLarge),
        cpu_mask < 256 ==> r == Ok::<(), CpuMaskError>(()),
{
    let count = count_ones(cpu_mask);
    assert((1u64 << 8u64) == 256) by (bit_vector);
    if cpu_mask >= (1u64 << 8) {
        return Err(CpuMaskError::IdTooLarge);
    }
    proof {
        lemma_pow2_u64_eq(8);
        vstd::arithmetic::power2::lemma2_to64();
        lemma_popcount_small(cpu_mask as nat, 8);
    }
    if count > 8 {
        return Err(CpuMaskError::TooMany);
    }
    Ok(())
}

proof fn lemma_popcount_small(x: nat, k: nat)
    requires
        x < pow2_u64(k as int),
    ensures
        popcount(x) <= k,
    decreases k,
{
    if k == 0 {
        assert(x == 0);
    } else {
        assert(pow2_u64(k as int) == 2 * pow2_u64(k - 1));
        lemma_popcount_small(x / 2, (k - 1) as nat);
    }
}

/// A CPU node of the device tree: whether its status lets it be used, and its hart id.
#[derive(Clone, Copy, Debug, PartialEq, Eq, Structural)]
pub struct CpuNode {
    pub enabled: bool,
    pub hart_id: usize,
}

/// The mask of usable CPUs: bit `h` is set when some enabled CPU node has hart id `h`.
pub fn cpu_mask_from_nodes(cpus: &Vec<CpuNode>) -> (r: u64)
    requires
        forall|i: int| 0 <= i < cpus.len() ==> cpus@[i].hart_id < 64,
    ensures
        forall|h: u64| h < 64 ==> (bit(r, h) <==> exists|i: int| 0 <= i < cpus.len()
            && cpus@[i].enabled && #[trigger] (cpus@[i].hart_id as u64) == h),
{
    let mut mask: u64 = 0;
    let mut k: usize = 0;
    assert forall|h: u64| h < 64 implies !bit(0, h) by {
        assert((0u64 >> h) & 1 == 0) by (bit_vector);
    }
    while k < cpus.len()
        invariant
            k <= cpus.len(),
            forall|i: int| 0 <= i < cpus.len() ==> cpus@[i].hart_id < 64,
            forall|h: u64| h < 64 ==> (bit(mask, h) <==> exists|i: int| 0 <= i < k
                && cpus@[i].enabled && #[trigger] (cpus@[i].hart_id as u64) == h),
        decreases cpus.len() - k,
    {
        let cpu = cpus[k];
        if cpu.enabled {
            let ghost old_mask = mask;
            mask = mask | (1u64 << cpu.hart_id as u64);
            proof {
                assert forall|h: u64| h < 64 implies (bit(mask, h) <==> exists|i: int| 0 <= i < k + 1
                    && cpus@[i].enabled && #[trigger] (cpus@[i].hart_id as u64) == h) by {
                    lemma_bit_set(old_mask, cpu.hart_id as u64, h);
                    if bit(mask, h) && !bit(old_mask, h) {
                        assert(cpus@[k as int].hart_id as u64 == h);
                    }
                }
            }
        } else {
            proof {
                assert forall|h: u64| h < 64 implies (bit(mask, h) <==> exists|i: int| 0 <= i < k + 1
                    && cpus@[i].enabled && #[trigger] (cpus@[i].hart_id as u64) == h) by {
                    if exists|i: int| 0 <= i < k + 1 && cpus@[i].enabled && #[trigger] (cpus@[i].hart_id as u64) == h {
                        let i = choose|i: int| 0 <= i < k + 1 && cpus@[i].enabled && #[trigger] (cpus@[i].hart_id as u64) == h;
                        assert(i != k);
                    }
                }
            }
        }
        k = k + 1;
    }
    mask
}

/// The bookkeeping of one TLB shootdown started by CPU `me`: the acknowledgement counts
/// seen before the interrupts were sent, and the CPUs not yet heard from.
pub struct ShootdownTracker {
    snapshot: Vec<usize>,
    remaining: u64,
}

impl ShootdownTracker {
    pub closed spec fn spec_snapshot(&self) -> Seq<usize> {
        self.snapshot@
    }

    /// The CPUs that have not yet flushed their TLBs.
    pub closed spec fn spec_remaining(&self) -> u64 {
        self.remaining
    }

    pub open spec fn wf(&self) -> bool {
        self.spec_snapshot().len() == MAX_CPU_COUNT
    }

    /// The CPUs to interrupt: online ones other than `me`.
    pub fn targets(cpu_mask: u64, me: usize) -> (r: Vec<usize>)
        requires
            me < 64,
        ensures
            forall|i: int| 0 <= i < r.len() ==> (r@[i] as int) < MAX_CPU_COUNT,
            forall|h: usize| h < MAX_CPU_COUNT ==> (r@.contains(h) <==> bit(cpu_mask, h as u64) && h != me),
    {
        let mut r: Vec<usize> = Vec::new();
        let mut hart: usize = 0;
        while hart < MAX_CPU_COUNT
            invariant
                hart <= MAX_CPU_COUNT,
                forall|i: int| 0 <= i < r.len() ==> (r@[i] as int) < hart,
                forall|h: usize| h < hart ==> (r@.contains(h) <==> bit(cpu_mask, h as u64) && h != me),
            decreases MAX_CPU_COUNT - hart,
        {
            let selected = (cpu_mask >> hart as u64) & 1 == 1 && hart != me;
            let ghost old_r = r@;
            if selected {
                r.push(hart);
            }
            proof {
                assert forall|h: usize| h < hart + 1 implies (r@.contains(h) <==> bit(cpu_mask, h as u64) && h != me) by {
                    if h < hart {
                        if r@.contains(h) && !old_r.contains(h) {
                            let i = choose|i: int| 0 <= i < r@.len() && r@[i] == h;
                            assert(i == old_r.len());
                        }
                        if old_r.contains(h) {
                            let i = choose|i: int| 0 <= i < old_r.len() && old_r[i] == h;
                            assert(r@[i] == h);
                        }
                    } else if selected {
                        assert(r@[r@.len() - 1] == hart);
                    } else {
                        if r@.contains(h) {
                            let i = choose|i: int| 0 <= i < r@.len() && r@[i] == h;
                        }
                    }
                }
            }
            hart = hart + 1;
        }
        r
    }

    /// Starts tracking a shootdown by CPU `me` on the online CPUs `cpu_mask`, given each
    /// CPU's acknowledgement count `acks` read before the interrupts go out.
    pub fn new(cpu_mask: u64, me: usize, acks: &Vec<usize>) -> (r: Self)
        requires
            me < 64,
            acks.len() == MAX_CPU_COUNT,
        ensures
            r.wf(),
            r.spec_remaining() == cpu_mask & !(1u64 << me),
            forall|h: int| 0 <= h < MAX_CPU_COUNT ==> (bit(cpu_mask, h as u64) && h != me ==>
                r.spec_snapshot()[h] == acks@[h]),
    {
        let mut snapshot: Vec<usize> = Vec::new();
        let mut hart: usize = 0;
        while hart < MAX_CPU_COUNT
            invariant
                hart <= MAX_CPU_COUNT,
                acks.len() == MAX_CPU_COUNT,
                snapshot.len() == hart,
                forall|h: int| 0 <= h < hart ==> (bit(cpu_mask, h as u64) && h != me ==> snapshot@[h] == acks@[h]),
            decreases MAX_CPU_COUNT - hart,
        {
            if (cpu_mask >> hart as u64) & 1 == 0 || hart == me {
                snapshot.push(0);
            } else {
                snapshot.push(acks[hart]);
            }
            hart = hart + 1;
        }
        ShootdownTracker { snapshot, remaining: cpu_mask & !(1u64 << me as u64) }
    }

    /// One pass over the CPUs: a CPU whose acknowledgement count `acks` differs from the
    /// snapshot has flushed its TLB and is no longer waited for.
    pub fn observe(&mut self, acks: &Vec<usize>)
        requires
            old(self).wf(),
            acks.len() == MAX_CPU_COUNT,
        ensures
            final(self).wf(),
            final(self).spec_snapshot() == old(self).spec_snapshot(),
            forall|h: u64| h < 64 ==> (bit(final(self).spec_remaining(), h) <==> bit(old(self).spec_remaining(), h)
                && !(h < MAX_CPU_COUNT && acks@[h as int] != old(self).spec_snapshot()[h as int])),
    {
        let ghost r0 = self.remaining;
        let ghost s0 = self.snapshot@;
        let mut hart: usize = 0;
        while hart < MAX_CPU_COUNT
            invariant
                hart <= MAX_CPU_COUNT,
                acks.len() == MAX_CPU_COUNT,
                self.snapshot@ == s0,
                self.snapshot.len() == MAX_CPU_COUNT,
                forall|h: u64| h < 64 ==> (bit(self.remaining, h) <==> bit(r0, h)
                    && !(h < hart && acks@[h as int] != s0[h as int])),
            decreases MAX_CPU_COUNT - hart,
        {
            let ghost before = self.remaining;
            let set = (self.remaining >> hart as u64) & 1 == 1;
            assert(set == bit(before, hart as u64));
            if set && acks[hart] != self.snapshot[hart] {
                self.remaining = self.remaining & !(1u64 << hart as u64);
                proof {
                    assert forall|h: u64| h < 64 implies (bit(self.remaining, h) <==> bit(r0, h)
                        && !(h < hart + 1 && acks@[h as int] != s0[h as int])) by {
                        lemma_bit_clear(before, hart as u64, h);
                        assert(bit(before, h) <==> bit(r0, h)
                            && !(h < hart && acks@[h as int] != s0[h as int]));
                    }
                }
            } else {
                proof {
                    assert forall|h: u64| h < 64 implies (bit(self.remaining, h) <==> bit(r0, h)
                        && !(h < hart + 1 && acks@[h as int] != s0[h as int])) by {
                        assert(self.remaining == before);
                        assert(bit(before, h) <==> bit(r0, h)
                            && !(h < hart && acks@[h as int] != s0[h as int]));
                    }
                }
            }
            hart = hart + 1;
        }
    }

    /// Whether every CPU has flushed.
    pub fn done(&self) -> (r: bool)
        ensures
            r == (self.spec_remaining() == 0),
    {
        self.remaining == 0
    }
}

/// The address of CPU `hart`'s software-interrupt register in the CLINT.
pub fn msip_addr(hart: usize) -> (r: usize)
    requires
        hart < MAX_CPU_COUNT,
    ensures
        r == CLINT_ADDR + 4 * hart,
{
    CLINT_ADDR + 4 * hart
}

/// The address of CPU `hart`'s timer compare register in the CLINT.
pub fn mtimecmp_addr(hart: usize) -> (r: usize)
    requires
        hart < MAX_CPU_COUNT,
    ensures
        r == CLINT_ADDR + 0x4000 + 8 * hart,
{
    CLINT_ADDR + 0x4000 + 8 * hart
}

/// The address of the CLINT's free-running timer.
pub fn mtime_addr() -> (r: usize)
    ensures
        r == CLINT_ADDR + 0xBFF8,
{
    CLINT_ADDR + 0xBFF8
}

/// Whether a CPU node with the `status` property `status` (its bytes, if it has one) is
/// usable: no status, `okay` or `ok`.
pub fn cpu_status_enabled(status: &Option<Vec<u8>>) -> (r: bool)
    ensures
        r == match status {
            None => true,
            Some(s) => s@ == seq![111u8, 107u8, 97u8, 121u8] || s@ == seq![111u8, 107u8],
        },
{
    match status {
        None => true,
        Some(s) => {
            let okay = s.len() == 4 && s[0] == 111u8 && s[1] == 107u8 && s[2] == 97u8 && s[3] == 121u8;
            let ok = s.len() == 2 && s[0] == 111u8 && s[1] == 107u8;
            proof {
                if s@.len() == 4 && s@[0] == 111u8 && s@[1] == 107u8 && s@[2] == 97u8 && s@[3] == 121u8 {
                    assert(s@ =~= seq![111u8, 107u8, 97u8, 121u8]);
                }
                if s@.len() == 2 && s@[0] == 111u8 && s@[1] == 107u8 {
                    assert(s@ =~= seq![111u8, 107u8]);
                }
            }
            okay || ok
        },
    }
}

} // verus!
