//! Decisions taken on a trap: what the cause calls for, what a system call returns to
//! user mode, and where the trampoline and the machine-mode timer live.
use vstd::prelude::*;
use crate::arch::mm::{PAGE_SIZE, TRAMPOLINE_PAGE_COUNT, VADDR_BITS_COUNT};
use crate::error::{SystemError, errno};
use crate::driver::cpu::{CLINT_ADDR, CLOCK_CYCLE, MAX_CPU_COUNT};
use crate::exception::timer::TIMER_INTERVAL;
use crate::exception::syscall::SyscallTable;

verus! {

/// Supervisor interrupt causes.
#[derive(Clone, Copy, Debug, PartialEq, Eq, Structural)]
pub enum Interrupt {
    SupervisorSoft,
    SupervisorTimer,
    SupervisorExternal,
    Unknown,
}

impl Interrupt {
    /// The interrupt that `scause` code `code` stands for.
    pub fn from(code: usize) -> (r: Self)
        ensures
            code == 1 ==> r == Interrupt::SupervisorSoft,
            code == 5 ==> r == Interrupt::SupervisorTimer,
            code == 9 ==> r == Interrupt::SupervisorExternal,
            code != 1 && code != 5 && code != 9 ==> r == Interrupt::Unknown,
    {
        if code == 1 {
            Interrupt::SupervisorSoft
        } else if code == 5 {
            Interrupt::SupervisorTimer
        } else if code == 9 {
            Interrupt::SupervisorExternal
        } else {
            Interrupt::Unknown
        }
    }
}

/// The exception causes that the kernel tells apart.
#[derive(Clone, Copy, Debug, PartialEq, Eq, Structural)]
pub enum Exception {
    /// `ecall` from user mode.
    UserEnvCall,
    /// Any other exception, by its code.
    Other(usize),
}

impl Exception {
    pub fn from(code: usize) -> (r: Self)
        ensures
            code == 8 ==> r == Exception::UserEnvCall,
            code != 8 ==> r == Exception::Other(code),
    {
        if code == 8 {
            Exception::UserEnvCall
        } else {
            Exception::Other(code)
        }
    }
}

/// What a trap taken in kernel mode calls for.
#[derive(Clone, Copy, Debug, PartialEq, Eq, Structural)]
pub enum KernelTrapAction {
    /// An interrupt from the PLIC.
    External,
    /// The timer tick, which machine mode forwards as a software interrupt: clear the
    /// software interrupt, then run the timer handler.
    Timer,
    /// Nothing handles it: the kernel panics.
    Unresolved,
    /// The trap was not taken from supervisor mode, or was taken with interrupts enabled:
    /// the kernel panics without looking at the cause.
    Refused,
}

/// Decides what a trap handled in kernel mode calls for: `from_supervisor` is whether the
/// saved privilege (`sstatus.SPP`) is supervisor, `interrupts_enabled` whether interrupts
/// are on, and `(is_interrupt, code)` the cause.
pub fn kernel_trap_action(from_supervisor: bool, interrupts_enabled: bool, is_interrupt: bool, code: usize) -> (r: KernelTrapAction)
    ensures
        !from_supervisor || interrupts_enabled ==> r == KernelTrapAction::Refused,
        from_supervisor && !interrupts_enabled ==> {
            &&& is_interrupt && code == 9 ==> r == KernelTrapAction::External
            &&& is_interrupt && code == 1 ==> r == KernelTrapAction::Timer
            &&& !(is_interrupt && (code == 9 || code == 1)) ==> r == KernelTrapAction::Unresolved
        },
{
    if !from_supervisor || interrupts_enabled {
        return KernelTrapAction::Refused;
    }
    if is_interrupt {
        match Interrupt::from(code) {
            Interrupt::SupervisorExternal => KernelTrapAction::External,
            Interrupt::SupervisorSoft => KernelTrapAction::Timer,
            _ => KernelTrapAction::Unresolved,
        }
    } else {
        KernelTrapAction::Unresolved
    }
}

/// What a trap taken in user mode calls for.
#[derive(Clone, Copy, Debug, PartialEq, Eq, Structural)]
pub enum UserTrapAction {
    /// A system call.
    Syscall,
    /// An interrupt from the PLIC.
    External,
    /// The timer tick.
    Timer,
    /// Nothing handles it: the thread is killed.
    Kill,
}

/// Decides what a trap from user mode with cause `(is_interrupt, code)` calls for.
pub fn user_trap_action(is_interrupt: bool, code: usize) -> (r: UserTrapAction)
    ensures
        !is_interrupt && code == 8 ==> r == UserTrapAction::Syscall,
        is_interrupt && code == 9 ==> r == UserTrapAction::External,
        is_interrupt && code == 1 ==> r == UserTrapAction::Timer,
        !(!is_interrupt && code == 8) && !(is_interrupt && (code == 9 || code == 1)) ==> r
            == UserTrapAction::Kill,
{
    if is_interrupt {
        match Interrupt::from(code) {
            Interrupt::SupervisorExternal => UserTrapAction::External,
            Interrupt::SupervisorSoft => UserTrapAction::Timer,
            _ => UserTrapAction::Kill,
        }
    } else {
        match Exception::from(code) {
            Exception::UserEnvCall => UserTrapAction::Syscall,
            Exception::Other(_) => UserTrapAction::Kill,
        }
    }
}

/// What a system call trap leads to.
#[derive(Clone, Copy, Debug, PartialEq, Eq, Structural)]
pub enum SyscallAction {
    /// Run the handler at this position of the registered handlers; its result goes to
    /// `a0` (see `syscall_return_value`).
    Handle(usize),
    /// No handler serves the call: the thread is killed and `a0` is left as it is.
    Kill,
}

/// Decides what system call number `id` leads to: the handler that `table` names for it,
/// or, when it names none, killing the thread.
pub fn syscall_action(table: &SyscallTable, id: usize) -> (r: SyscallAction)
    ensures
        (id as int) < table.view().len() && table.view()[id as int] is Some ==> r
            == SyscallAction::Handle(table.view()[id as int]->0),
        !((id as int) < table.view().len() && table.view()[id as int] is Some) ==> r
            == SyscallAction::Kill,
{
    match table.get(id) {
        Some(h) => SyscallAction::Handle(h),
        None => SyscallAction::Kill,
    }
}

/// The value a system call leaves in `a0`: its result, or its negated error number as a
/// two's-complement word. A result above `isize::MAX` cannot be told from an error and is
/// refused with `Err`, which the caller treats as a kernel bug.
pub fn syscall_return_value(result: Result<usize, SystemError>) -> (r: Result<usize, usize>)
    ensures
        result matches Ok(v) ==> (v <= isize::MAX ==> r == Ok::<usize, usize>(v)) && (v > isize::MAX
            ==> r == Err::<usize, usize>(v)),
        result matches Err(e) ==> r == Ok::<usize, usize>((usize::MAX + 1 - errno(e)) as usize),
{
    match result {
        Ok(v) => {
            if v > isize::MAX as usize {
                Err(v)
            } else {
                Ok(v)
            }
        },
        Err(e) => {
            let n = e.posix_errno();
            Ok(usize::MAX - ((-n) as usize) + 1)
        },
    }
}

/// The lowest address of the trampoline, which is mapped at the top of every address space.
pub fn trampoline_code_base() -> (r: u64)
    ensures
        r == 0x40_0000_0000 - PAGE_SIZE * TRAMPOLINE_PAGE_COUNT,
{
    assert((1u64 << 38u64) == 0x40_0000_0000) by (bit_vector);
    (1u64 << VADDR_BITS_COUNT as u64) - (TRAMPOLINE_PAGE_COUNT * PAGE_SIZE) as u64
}

/// Where the trampoline routine at `symbol` runs: the same offset from the trampoline's
/// base as the routine has from the start `strampoline` of the trampoline's code.
pub fn trampoline_addr(symbol: u64, strampoline: u64) -> (r: u64)
    requires
        strampoline <= symbol,
        symbol - strampoline < PAGE_SIZE * TRAMPOLINE_PAGE_COUNT,
    ensures
        r == 0x40_0000_0000 - PAGE_SIZE * TRAMPOLINE_PAGE_COUNT + (symbol - strampoline),
{
    trampoline_code_base() + (symbol - strampoline)
}

/// The machine-mode trap setup of CPU `hart_id`: the timer period in cycles, and the
/// addresses of its timer compare and software interrupt registers.
#[derive(Clone, Copy, Debug, PartialEq, Eq, Structural)]
pub struct MachineTrapSetup {
    pub interval: usize,
    pub mtimecmp: usize,
    pub msip: usize,
}

pub fn machine_trap_setup(hart_id: usize) -> (r: MachineTrapSetup)
    requires
        hart_id < MAX_CPU_COUNT,
    ensures
        r.interval == CLOCK_CYCLE / 1000 * TIMER_INTERVAL,
        r.mtimecmp == CLINT_ADDR + 0x4000 + 8 * hart_id,
        r.msip == CLINT_ADDR + 4 * hart_id,
{
    MachineTrapSetup {
        interval: CLOCK_CYCLE / 1000 * TIMER_INTERVAL,
        mtimecmp: CLINT_ADDR + 0x4000 + 8 * hart_id,
        msip: CLINT_ADDR + 4 * hart_id,
    }
}

/// The first timer deadline: one period after the current time `mtime`.
pub fn first_timer_deadline(mtime: u64, interval: usize) -> (r: u64)
    requires
        mtime + interval <= u64::MAX,
    ensures
        r == mtime + interval,
{
    mtime + interval as u64
}

} // verus!
