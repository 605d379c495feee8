//! Saved register state: a kernel task's callee-saved registers and a user thread's trap
//! frame.
use vstd::prelude::*;

verus! {

/// The registers a kernel task keeps across a context switch: return address, stack
/// pointer and `s0`..`s11`.
#[derive(Clone, Copy)]
pub struct TaskContext {
    pub ra: usize,
    pub sp: usize,
    pub s: [usize; 12],
}

impl TaskContext {
    /// A context of zeros.
    pub fn zero_init() -> (r: Self)
        ensures
            r.ra == 0,
            r.sp == 0,
            forall|i: int| 0 <= i < 12 ==> r.s@[i] == 0,
    {
        Self { ra: 0, sp: 0, s: [0; 12] }
    }

    /// The context of a new task that starts in `entry` on the stack whose top is
    /// `kernel_stack`.
    pub fn new(entry: usize, kernel_stack: usize) -> (r: Self)
        ensures
            r.ra == entry,
            r.sp == kernel_stack,
            forall|i: int| 0 <= i < 12 ==> r.s@[i] == 0,
    {
        Self { ra: entry, sp: kernel_stack, s: [0; 12] }
    }
}

/// What a user thread's trap saves: its 32 general registers and program counter, and
/// what the trap handler needs to get back into the kernel.
#[derive(Clone, Copy)]
pub struct TrapContext {
    /// `x0`..`x31`; any may be changed.
    pub x: [usize; 32],
    pub sepc: usize,
    /// The kernel's `satp` value; fixed once set up.
    pub kernel_satp: usize,
    /// The top of the thread's kernel stack; fixed once set up.
    pub kernel_sp: usize,
    /// The CPU the thread runs on, kept up to date on every switch.
    pub hartid: usize,
}

/// Register `x2` is the stack pointer.
pub const REG_SP: usize = 2;
/// Register `x4` is the thread pointer, used as the TLS base.
pub const REG_TP: usize = 4;
/// Register `x10` (`a0`) holds the first argument and the return value.
pub const REG_A0: usize = 10;
/// Register `x17` (`a7`) holds the system call number.
pub const REG_A7: usize = 17;

impl TrapContext {
    /// A fresh trap frame for a thread whose kernel stack top is `kstack`, in the kernel
    /// address space `kernel_satp`.
    pub fn new(kstack: usize, kernel_satp: usize) -> (r: Self)
        ensures
            forall|i: int| 0 <= i < 32 ==> r.x@[i] == 0,
            r.sepc == 0,
            r.kernel_satp == kernel_satp,
            r.kernel_sp == kstack,
            r.hartid == 0,
    {
        Self { x: [0; 32], sepc: 0, kernel_satp, kernel_sp: kstack, hartid: 0 }
    }

    pub fn pc(&self) -> (r: usize)
        ensures
            r == self.sepc,
    {
        self.sepc
    }

    pub fn set_pc(&mut self, pc: usize)
        ensures
            *final(self) == (TrapContext { sepc: pc, ..*old(self) }),
    {
        self.sepc = pc;
    }

    pub fn set_ustack(&mut self, ustack: usize)
        ensures
            final(self).x@ == old(self).x@.update(REG_SP as int, ustack),
            final(self).sepc == old(self).sepc,
            final(self).kernel_satp == old(self).kernel_satp,
            final(self).kernel_sp == old(self).kernel_sp,
            final(self).hartid == old(self).hartid,
    {
        self.x.set(REG_SP, ustack);
    }

    pub fn set_tls_base(&mut self, tls_base: usize)
        ensures
            final(self).x@ == old(self).x@.update(REG_TP as int, tls_base),
            final(self).sepc == old(self).sepc,
            final(self).kernel_satp == old(self).kernel_satp,
            final(self).kernel_sp == old(self).kernel_sp,
            final(self).hartid == old(self).hartid,
    {
        self.x.set(REG_TP, tls_base);
    }

    pub fn set_return_value(&mut self, return_value: usize)
        ensures
            final(self).x@ == old(self).x@.update(REG_A0 as int, return_value),
            final(self).sepc == old(self).sepc,
            final(self).kernel_satp == old(self).kernel_satp,
            final(self).kernel_sp == old(self).kernel_sp,
            final(self).hartid == old(self).hartid,
    {
        self.x.set(REG_A0, return_value);
    }

    pub fn set_kernel_sp(&mut self, kernel_sp: usize)
        ensures
            *final(self) == (TrapContext { kernel_sp, ..*old(self) }),
    {
        self.kernel_sp = kernel_sp;
    }

    /// Takes a system call out of the frame: the call number from `a7`, the six arguments
    /// from `a0`..`a5`; and moves `sepc` past the `ecall` instruction.
    pub fn take_syscall(&mut self) -> (r: (usize, [usize; 6]))
        requires
            old(self).sepc + 4 <= usize::MAX,
        ensures
            r.0 == old(self).x@[REG_A7 as int],
            forall|i: int| 0 <= i < 6 ==> r.1@[i] == old(self).x@[REG_A0 + i],
            *final(self) == (TrapContext { sepc: (old(self).sepc + 4) as usize, ..*old(self) }),
    {
        let syscall_id = self.x[REG_A7];
        let args = [self.x[10], self.x[11], self.x[12], self.x[13], self.x[14], self.x[15]];
        self.sepc = self.sepc + 4;
        (syscall_id, args)
    }
}

} // verus!
