//! Timekeeping by timer ticks.
use vstd::prelude::*;

verus! {

/// The timer period in milliseconds.
pub const TIMER_INTERVAL: usize = 1;

/// Microseconds since boot after `jiffies` timer ticks.
pub fn time_us(jiffies: usize) -> (r: usize)
    requires
        jiffies * 1000 <= usize::MAX,
    ensures
        r == jiffies * TIMER_INTERVAL * 1000,
{
    jiffies * TIMER_INTERVAL * 1000
}

/// Whether a timer tick on CPU `cpu_id` advances the global tick count and wakes
/// sleepers: CPU 0 keeps time.
pub fn timer_keeps_time(cpu_id: usize) -> (r: bool)
    ensures
        r == (cpu_id == 0),
{
    cpu_id == 0
}

/// Whether the timer tick should make the current thread yield: always when the tick came
/// from user mode, where a thread is always running, and from kernel mode when the CPU
/// runs a task.
pub fn timer_should_yield(from_kernel: bool, has_current_task: bool) -> (r: bool)
    ensures
        r == (!from_kernel || has_current_task),
{
    !from_kernel || (from_kernel && has_current_task)
}

/// The tick count after a timer tick on CPU `cpu_id`, from `jiffies`: CPU 0 adds one (the
/// count wraps at the top of `usize`, which takes far longer than a machine runs); the
/// other CPUs leave it.
pub fn timer_tick(jiffies: usize, cpu_id: usize) -> (r: usize)
    ensures
        cpu_id != 0 ==> r == jiffies,
        cpu_id == 0 && jiffies < usize::MAX ==> r == jiffies + 1,
        cpu_id == 0 && jiffies == usize::MAX ==> r == 0,
        jiffies < usize::MAX ==> r == jiffies_after(jiffies as int, seq![cpu_id]),
{
    proof {
        let one = seq![cpu_id];
        assert(one.drop_last() =~= Seq::<usize>::empty());
        assert(jiffies_after(jiffies as int, one.drop_last()) == jiffies);
        assert(one.last() == cpu_id);
    }
    if !timer_keeps_time(cpu_id) {
        jiffies
    } else if jiffies < usize::MAX {
        jiffies + 1
    } else {
        0
    }
}

/// The tick count after timer ticks on the CPUs `cpus`, in order, from `jiffies`, as
/// `timer_tick` gives it while the count does not wrap.
pub open spec fn jiffies_after(jiffies: int, cpus: Seq<usize>) -> int
    decreases cpus.len(),
{
    if cpus.len() == 0 {
        jiffies
    } else {
        let before = jiffies_after(jiffies, cpus.drop_last());
        if cpus.last() == 0 { before + 1 } else { before }
    }
}

/// Time never runs backwards: whatever ticks come between two readings, the tick count,
/// and so the time in microseconds that `time_us` gives for it, is at least what it was.
pub proof fn lemma_time_never_decreases(jiffies: int, cpus: Seq<usize>)
    requires
        jiffies >= 0,
    ensures
        jiffies_after(jiffies, cpus) >= jiffies,
        jiffies_after(jiffies, cpus) * TIMER_INTERVAL * 1000 >= jiffies * TIMER_INTERVAL * 1000,
    decreases cpus.len(),
{
    if cpus.len() > 0 {
        lemma_time_never_decreases(jiffies, cpus.drop_last());
    }
}

} // verus!
