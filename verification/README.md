# rcore_kernel

The logic of a small RISC-V teaching kernel (rCore/xv6 style), written in Verus and
proved against its contracts: drivers as register-level state machines (UART, PLIC,
virtio-mmio block device and its virtqueue, CLINT, SiFive test device), Sv39 page table
entries, trap decisions, user memory copies, the ext2 reader, an in-memory file system,
the virtual file system (mount points, inode cache with handle counting, page cache) and
the file system calls.

Layout:

- `src/arch`: page table entries, `satp`, trap decisions, task and trap contexts.
- `src/driver`: device drivers; each returns the register writes to perform.
- `src/mm`: a user address space and copying bytes and strings in and out of it.
- `src/fs`: block devices, ext2, the RAM file system, the virtual file system, open files
  and the system calls.
- `src/exception`: the system call table and timekeeping.
- `app/main.rs`: the outer layer on a host: console, root file system, system call entry
  and the tasks that retire inodes.
- `tests/`: tests on concrete values.
