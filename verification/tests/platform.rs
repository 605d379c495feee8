use rcore_kernel::arch::mm::{
    frame_allocator_range, kernel_areas, make_satp, KernelSections, MemoryAreaType, PhysMemoryArea, PhysMemoryAreaKind,
};
use rcore_kernel::arch::pte::{MemoryPermission, Sv39PTE};
use rcore_kernel::arch::trap::{
    first_timer_deadline, kernel_trap_action, syscall_action, syscall_return_value, trampoline_code_base,
    user_trap_action, Exception, Interrupt, KernelTrapAction, SyscallAction, UserTrapAction,
};
use rcore_kernel::driver::cpu::{
    check_online_cpu_mask, count_ones, cpu_mask_from_nodes, cpu_status_enabled, msip_addr, mtime_addr, mtimecmp_addr,
    CpuMaskError, CpuNode,
};
use rcore_kernel::driver::plic::{enable_plic, init_plic, plic_dispatch, PlicAction, RegWrite32, PLIC, UART0_IRQ};
use rcore_kernel::driver::sifive_test::{ShutdownReason, SiFiveTest};
use rcore_kernel::driver::uart::{PutOutcome, RegWrite, Uart, UartInterface, LSR_RX_IDLE, LSR_TX_IDLE};
use rcore_kernel::driver::virtio::blk::VirtIOBlk;
use rcore_kernel::driver::virtio::queue::{DescFlags, Descriptor, VirtQueue, VirtQueueLayout};
use rcore_kernel::driver::virtio::transport::{
    begin_init_finish, begin_init_start, finish_init, DeviceType, MmioTransport, MmioVersion, TransportStep, MAGIC_VALUE,
};
use rcore_kernel::error::SystemError;
use rcore_kernel::exception::syscall::{SyscallHandle, SyscallTable, SyscallTableError, SYS_OPEN, SYS_WRITE};
use rcore_kernel::exception::timer::{time_us, timer_tick};
use rcore_kernel::fs::ext2::inode::read_dir_entry;
use rcore_kernel::fs::file::Stdout;
use rcore_kernel::utils::{BlockIterator, RingBuffer};

#[test]
fn errno_values() {
    assert_eq!(SystemError::ENOENT.posix_errno(), -2);
    assert_eq!(SystemError::EBADF.posix_errno(), -9);
    assert_eq!(SystemError::EFAULT.posix_errno(), -14);
    assert_eq!(SystemError::EISDIR.posix_errno(), -21);
    assert_eq!(SystemError::ENAMETOOLONG.posix_errno(), -36);
}

#[test]
fn syscall_results_in_a0() {
    assert_eq!(syscall_return_value(Ok(5)), Ok(5));
    assert_eq!(syscall_return_value(Err(SystemError::ENOENT)), Ok(usize::MAX - 1));
    assert_eq!(syscall_return_value(Ok(usize::MAX)), Err(usize::MAX));
}

#[test]
fn trap_causes() {
    assert_eq!(Interrupt::from(5), Interrupt::SupervisorTimer);
    assert_eq!(Interrupt::from(7), Interrupt::Unknown);
    assert_eq!(Exception::from(8), Exception::UserEnvCall);
    assert_eq!(Exception::from(2), Exception::Other(2));
    assert_eq!(kernel_trap_action(true, false, true, 9), KernelTrapAction::External);
    assert_eq!(kernel_trap_action(true, false, true, 1), KernelTrapAction::Timer);
    assert_eq!(kernel_trap_action(true, false, false, 8), KernelTrapAction::Unresolved);
    assert_eq!(kernel_trap_action(true, false, true, 5), KernelTrapAction::Unresolved);
    assert_eq!(kernel_trap_action(false, false, true, 9), KernelTrapAction::Refused);
    assert_eq!(kernel_trap_action(true, true, true, 1), KernelTrapAction::Refused);
    assert_eq!(user_trap_action(false, 8), UserTrapAction::Syscall);
    assert_eq!(user_trap_action(true, 1), UserTrapAction::Timer);
    assert_eq!(trampoline_code_base(), 0x40_0000_0000 - 4096);
    assert_eq!(first_timer_deadline(100, 10000000), 10000100);
}

#[test]
fn timer_microseconds() {
    assert_eq!(time_us(0), 0);
    assert_eq!(time_us(3), 3000);
}

#[test]
fn page_table_entries_round_trip() {
    let p = MemoryPermission::from_bits_truncate(MemoryPermission::READABLE | MemoryPermission::USER_ACCESSIBLE);
    let e = Sv39PTE::new_leaf(0x8020_3000, p);
    assert!(e.is_valid());
    assert_eq!(e.paddr(), 0x8020_3000);
    assert_eq!(e.flags().bits, 0b10011);
    let n = Sv39PTE::new_non_leaf(0x8000_0000, false);
    assert_eq!(n.bits & 0xff, 1);
    assert_eq!(n.paddr(), 0x8000_0000);
    assert!(!Sv39PTE { bits: 0 }.is_valid());
}

#[test]
fn satp_selects_sv39_and_the_root_page() {
    assert_eq!(make_satp(0x8020_0000), 0x8000_0000_0000_0000 | 0x80200);
    assert_eq!(make_satp(0), 0x8000_0000_0000_0000);
}

#[test]
fn permissions_combine() {
    let a = MemoryPermission::from_bits_truncate(0b0111);
    let b = MemoryPermission::from_bits_truncate(0b1101);
    assert_eq!(a.intersect(&b).bits, 0b0101);
    assert_eq!(a.union(&b).bits, 0b1111);
    assert!(a.contains(MemoryPermission::READABLE));
    assert!(!a.contains(MemoryPermission::USER_ACCESSIBLE));
    assert_eq!(MemoryPermission::from_bits_truncate(0xff).bits, 0xf);
    assert_eq!(MemoryPermission::empty().bits, 0);
}

#[test]
fn plic_registers() {
    let plic = PLIC::new(0x0c00_0000);
    assert_eq!(init_plic(&plic), RegWrite32 { addr: 0x0c00_0000 + 40, value: 1 });
    assert_eq!(plic.claim_addr(1), 0x0c00_0000 + 0x201004 + 0x2000);
    assert_eq!(plic.set_priority(UART0_IRQ, 1), RegWrite32 { addr: 0x0c00_0000 + 40, value: 1 });
    let (en, th) = enable_plic(&plic, 0);
    assert_eq!(en.addr, 0x0c00_0000 + 0x2080);
    assert_eq!(th.addr, 0x0c00_0000 + 0x201000);
    assert_eq!(plic_dispatch(0), PlicAction::Nothing);
    assert_eq!(plic_dispatch(10), PlicAction::Uart);
    assert_eq!(plic_dispatch(3), PlicAction::Unknown(3));
}

#[test]
fn test_device_shutdown_values() {
    let t = SiFiveTest::new(0x10_0000);
    assert_eq!(t.shutdown_value(ShutdownReason::Normal, 0), 0x5555);
    assert_eq!(t.shutdown_value(ShutdownReason::Failure, 1), 0x1_3333);
}

#[test]
fn clint_addresses_and_cpu_masks() {
    assert_eq!(msip_addr(2), 0x0200_0008);
    assert_eq!(mtimecmp_addr(1), 0x0200_4008);
    assert_eq!(mtime_addr(), 0x0200_bff8);
    assert_eq!(count_ones(0b1011), 3);
    assert_eq!(check_online_cpu_mask(0b1111), Ok(()));
    assert_eq!(check_online_cpu_mask(256), Err(CpuMaskError::IdTooLarge));
}

#[test]
fn uart_registers_and_buffers() {
    let i = UartInterface::new(0x1000_0000);
    assert_eq!(i.put(b'a'), RegWrite { addr: 0x1000_0000, value: b'a' });
    assert_eq!(i.lsr_addr(), 0x1000_0005);
    assert!(i.tx_idle(LSR_TX_IDLE));
    assert!(!i.rx_ready(0));
    assert!(i.rx_ready(LSR_RX_IDLE));
    let mut u = Uart::new(0x1000_0000);
    assert_eq!(u.put_sync(b'x', 0), None);
    assert_eq!(u.put_sync(b'x', LSR_TX_IDLE), Some(RegWrite { addr: 0x1000_0000, value: b'x' }));
    assert_eq!(u.put(b'h'), PutOutcome::Queued);
    assert_eq!(u.start_put_step(0), None);
    assert_eq!(u.start_put_step(LSR_TX_IDLE), Some(RegWrite { addr: 0x1000_0000, value: b'h' }));
    assert_eq!(u.start_put_step(LSR_TX_IDLE), None);
    assert_eq!(u.get(), None);
    assert!(u.start_get_step(LSR_RX_IDLE));
    u.receive(b'k');
    assert_eq!(u.get(), Some(b'k'));
    assert!(!u.init().is_empty());
}

#[test]
fn virtqueue_layout() {
    let l = VirtQueueLayout::new(8, 0x8100_0000);
    assert_eq!(l.descriptors_paddr(), 0x8100_0000);
    assert_eq!(l.avail_paddr(), 0x8100_0000 + 128);
    assert_eq!(l.used_paddr(), 0x8100_0000 + 4096);
    let d = Descriptor::new(0x1000, 512, DescFlags::from_bits_truncate(DescFlags::NEXT), 3);
    assert!(d.flags.is_next());
    assert_eq!(DescFlags::from_bits_truncate(0xffff).bits(), 3);
}

#[test]
fn mmio_transport_checks() {
    let t = MmioTransport::new(MAGIC_VALUE, 2, 2, 0x200);
    assert_eq!(t.version(), MmioVersion::Modern);
    assert_eq!(t.device_type(), DeviceType::Block);
    assert_eq!(t.set_guest_page_size(4096), None);
    let legacy = MmioTransport::new(MAGIC_VALUE, 2, 1, 0x100);
    assert_eq!(legacy.version(), MmioVersion::Legacy);
    assert_eq!(legacy.set_guest_page_size(4096), Some(4096));
    assert_eq!(DeviceType::try_from(5), Err(5));
    assert_eq!(DeviceType::try_from(2), Ok(DeviceType::Block));
    assert_eq!(MmioVersion::try_from(1), Ok(MmioVersion::Legacy));
    assert_eq!(MmioVersion::try_from(3), Err(3));
}

#[test]
fn syscall_table_by_number() {
    let handles = vec![SyscallHandle { id: SYS_WRITE, name: "SYS_WRITE" }, SyscallHandle { id: SYS_OPEN, name: "SYS_OPEN" }];
    let t = SyscallTable::new(&handles).ok().unwrap();
    assert_eq!(t.get(SYS_OPEN), Some(1));
    assert_eq!(t.get(SYS_WRITE), Some(0));
    assert_eq!(t.get(3), None);
    assert_eq!(t.get(100000), None);
    let dup = vec![SyscallHandle { id: 1, name: "a" }, SyscallHandle { id: 1, name: "b" }];
    assert_eq!(SyscallTable::new(&dup).err(), Some(SyscallTableError::IdInUse(1)));
    let big = vec![SyscallHandle { id: 512, name: "big" }];
    assert_eq!(SyscallTable::new(&big).err(), Some(SyscallTableError::IdOutOfRange(512)));
}

#[test]
fn ring_buffer_is_first_in_first_out() {
    let mut r: RingBuffer<u8, 3> = RingBuffer::new(0);
    assert!(r.is_empty());
    r.push(1);
    r.push(2);
    r.push(3);
    assert!(r.is_full());
    assert_eq!(r.pop(), Some(1));
    r.push(4);
    assert_eq!(r.pop(), Some(2));
    assert_eq!(r.pop(), Some(3));
    assert_eq!(r.pop(), Some(4));
    assert_eq!(r.pop(), None);
    assert_eq!(r.len(), 0);
}

#[test]
fn block_iterator_pieces() {
    let mut it = BlockIterator::new(512, 500, 600);
    let a = it.next().unwrap();
    assert_eq!((a.block_id(), a.offset(), a.size()), (0, 500, 12));
    let b = it.next().unwrap();
    assert_eq!((b.block_id(), b.offset(), b.size()), (1, 0, 512));
    let c = it.next().unwrap();
    assert_eq!((c.block_id(), c.offset(), c.size()), (2, 0, 76));
    assert!(it.next().is_none());
}

#[test]
fn directory_entries_need_utf8_names() {
    let mut buf = vec![0u8; 16];
    buf[0] = 5; // inode
    buf[4] = 16; // record length
    buf[6] = 2; // name length
    buf[7] = 1; // file type
    buf[8] = b'o';
    buf[9] = b'k';
    let (next, h, name) = read_dir_entry(&buf, 0).unwrap();
    assert_eq!(next, 16);
    assert_eq!(h.inode, 5);
    assert_eq!(name, b"ok".to_vec());
    buf[8] = 0xff;
    assert!(read_dir_entry(&buf, 0).is_none());
}

#[test]
fn cpu_nodes_give_the_online_mask() {
    assert!(cpu_status_enabled(&None));
    assert!(cpu_status_enabled(&Some(b"okay".to_vec())));
    assert!(cpu_status_enabled(&Some(b"ok".to_vec())));
    assert!(!cpu_status_enabled(&Some(b"disabled".to_vec())));
    let nodes = vec![
        CpuNode { enabled: true, hart_id: 0 },
        CpuNode { enabled: false, hart_id: 1 },
        CpuNode { enabled: true, hart_id: 3 },
        CpuNode { enabled: true, hart_id: 3 },
    ];
    assert_eq!(cpu_mask_from_nodes(&nodes), 0b1001);
}

#[test]
fn kernel_address_space_areas() {
    let areas = vec![
        PhysMemoryArea { name: "device_uart0", base: 0x1000_0000, size: 0x1000, kind: PhysMemoryAreaKind::Device },
        PhysMemoryArea { name: "main_memory", base: 0x8000_0000, size: 0x800_0000, kind: PhysMemoryAreaKind::MainMemory },
        PhysMemoryArea { name: "device_plic", base: 0x0c00_0000, size: 0x40_0000, kind: PhysMemoryAreaKind::Device },
    ];
    let s = KernelSections {
        stext: 0x8020_0000,
        etext: 0x8020_4000,
        srodata: 0x8020_4000,
        erodata: 0x8020_6000,
        sdata: 0x8020_6000,
        edata: 0x8020_7000,
        sbss: 0x8020_7000,
        ebss: 0x8021_0000,
        ekernel: 0x8021_0000,
    };
    let r = kernel_areas(s, &areas);
    let got: Vec<(usize, usize, u8, &str)> = r.iter().map(|a| (a.start, a.size, a.permission, a.name)).collect();
    assert_eq!(got, vec![
        (0x1000_0000, 0x1000, 3, "device_uart0"),
        (0x0c00_0000, 0x40_0000, 3, "device_plic"),
        (0x8020_0000, 0x4000, 5, "kernel_text"),
        (0x8020_4000, 0x2000, 3, "kernel_rodata"),
        (0x8020_6000, 0x1000, 3, "kernel_data"),
        (0x8020_7000, 0x9000, 3, "kernel_bss"),
        (0x8021_0000, 0x8800_0000 - 0x8021_0000, 3, "kernel_phys_mem"),
    ]);
    assert!(r.iter().all(|a| a.area_type == MemoryAreaType::Identical));
    assert_eq!(frame_allocator_range(&areas, 0x8021_0000), (0x8021_0000, 0x8800_0000));
}

#[test]
fn unknown_system_calls_kill_the_thread() {
    let handles = vec![SyscallHandle { id: SYS_WRITE, name: "SYS_WRITE" }, SyscallHandle { id: SYS_OPEN, name: "SYS_OPEN" }];
    let t = SyscallTable::new(&handles).ok().unwrap();
    assert_eq!(syscall_action(&t, SYS_OPEN), SyscallAction::Handle(1));
    assert_eq!(syscall_action(&t, SYS_WRITE), SyscallAction::Handle(0));
    assert_eq!(syscall_action(&t, 3), SyscallAction::Kill);
    assert_eq!(syscall_action(&t, usize::MAX), SyscallAction::Kill);
}

#[test]
fn block_read_request_names_the_sector() {
    let q = VirtQueue::<8>::new(8, 0, 0x8100_0000);
    let mut blk = VirtIOBlk::new(q, 512 * 1024);
    let d1 = blk.alloc_descriptor().unwrap();
    let d2 = blk.alloc_descriptor().unwrap();
    let d3 = blk.alloc_descriptor().unwrap();
    assert_eq!((d1, d2, d3), (0, 1, 2));
    let (queue, header) = blk.read_block(0x0102_0304, d1, d2, d3, 0x9000_0000, 0x9000_1000, 512, 0x9000_2000, 7);
    assert_eq!(queue, 0);
    assert_eq!(header, vec![0, 0, 0, 0, 0, 0, 0, 0, 4, 3, 2, 1, 0, 0, 0, 0]);
}

#[test]
fn uart_output_leaves_in_order() {
    let mut u = Uart::new(0x1000_0000);
    assert_eq!(u.put(b'a'), PutOutcome::Queued);
    assert_eq!(u.put(b'b'), PutOutcome::Queued);
    assert_eq!(u.start_put_step(LSR_TX_IDLE), Some(RegWrite { addr: 0x1000_0000, value: b'a' }));
    assert_eq!(u.put(b'c'), PutOutcome::Queued);
    assert_eq!(u.start_put_step(LSR_TX_IDLE), Some(RegWrite { addr: 0x1000_0000, value: b'b' }));
    assert_eq!(u.start_put_step(LSR_TX_IDLE), Some(RegWrite { addr: 0x1000_0000, value: b'c' }));
    assert_eq!(u.start_put_step(LSR_TX_IDLE), None);
    u.receive(b'x');
    u.receive(b'y');
    assert_eq!(u.get(), Some(b'x'));
    assert_eq!(u.get(), Some(b'y'));
    assert_eq!(u.get(), None);
}

#[test]
fn console_sends_the_low_byte_of_each_character() {
    assert_eq!(Stdout::write_str("ok\n"), b"ok\n".to_vec());
    assert_eq!(Stdout::write_str("A\u{e9}\u{263a}"), vec![0x41, 0xe9, 0x3a]);
    assert_eq!(Stdout::write_str(""), Vec::<u8>::new());
}

#[test]
fn device_initialisation_steps() {
    assert_eq!(
        begin_init_start(),
        vec![TransportStep::SetStatus(0), TransportStep::SetStatus(3), TransportStep::ReadDeviceFeatures]
    );
    let (n, steps) = begin_init_finish(0b1011, 0b0110, 0b1111);
    assert_eq!(n, 0b0010);
    assert_eq!(
        steps,
        vec![
            TransportStep::WriteDriverFeatures(0b0010),
            TransportStep::SetStatus(11),
            TransportStep::SetGuestPageSize(4096),
        ]
    );
    assert_eq!(finish_init(), vec![TransportStep::SetStatus(15)]);
}

#[test]
fn timer_ticks_only_on_cpu_zero() {
    assert_eq!(timer_tick(41, 0), 42);
    assert_eq!(timer_tick(41, 3), 41);
    assert_eq!(timer_tick(usize::MAX, 0), 0);
    assert!(time_us(timer_tick(41, 0)) >= time_us(41));
}
