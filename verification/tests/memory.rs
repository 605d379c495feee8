use rcore_kernel::arch::mm::PAGE_SIZE;
use rcore_kernel::arch::pte::MemoryPermission;
use rcore_kernel::error::SystemError;
use rcore_kernel::mm::mem_space::MemorySpace;

fn rw_user() -> MemoryPermission {
    MemoryPermission::from_bits_truncate(MemoryPermission::READABLE | MemoryPermission::WRITABLE | MemoryPermission::USER_ACCESSIBLE)
}

#[test]
fn copyout_then_copyin_across_pages() {
    let mut ms = MemorySpace::new();
    ms.map_page(1, rw_user());
    ms.map_page(2, rw_user());
    let data: Vec<u8> = (0..100u8).collect();
    let vaddr = 2 * PAGE_SIZE - 50;
    ms.copyout(vaddr, &data);
    let mut back = vec![0u8; 100];
    ms.copyin(vaddr, &mut back);
    assert_eq!(back, data);
    // bytes around the range are untouched
    let mut before = vec![7u8; 1];
    ms.copyin(vaddr - 1, &mut before);
    assert_eq!(before, vec![0u8]);
    let mut after = vec![7u8; 1];
    ms.copyin(vaddr + 100, &mut after);
    assert_eq!(after, vec![0u8]);
}

#[test]
fn fresh_pages_read_as_zeros() {
    let mut ms = MemorySpace::new();
    ms.map_page(3, rw_user());
    let mut buf = vec![9u8; 16];
    ms.copyin(3 * PAGE_SIZE + 100, &mut buf);
    assert_eq!(buf, vec![0u8; 16]);
}

#[test]
fn check_permission_intersects_pages() {
    let mut ms = MemorySpace::new();
    ms.map_page(1, MemoryPermission::from_bits_truncate(0b1011));
    ms.map_page(2, MemoryPermission::from_bits_truncate(0b1001));
    let p = ms.check_permission(PAGE_SIZE + 10, 2 * PAGE_SIZE + 10).unwrap();
    assert_eq!(p.bits, 0b1001);
    let p1 = ms.check_permission(PAGE_SIZE, PAGE_SIZE + 1).unwrap();
    assert_eq!(p1.bits, 0b1011);
    assert_eq!(ms.check_permission(PAGE_SIZE, 3 * PAGE_SIZE + 1), Err(SystemError::EFAULT));
    assert_eq!(ms.check_permission(0, 10), Err(SystemError::EFAULT));
}

#[test]
fn translate_vaddr_gives_rights() {
    let mut ms = MemorySpace::new();
    ms.map_page(5, MemoryPermission::from_bits_truncate(3));
    assert_eq!(ms.translate_vaddr(5 * PAGE_SIZE + 4095).map(|p| p.bits), Some(3));
    assert_eq!(ms.translate_vaddr(6 * PAGE_SIZE).map(|p| p.bits), None);
}

#[test]
fn copyin_str_stops_at_nul() {
    let mut ms = MemorySpace::new();
    ms.map_page(1, rw_user());
    ms.copyout(PAGE_SIZE, &b"hello\0world".to_vec());
    assert_eq!(ms.copyin_str(PAGE_SIZE, 128), Ok("hello".to_string()));
}

#[test]
fn copyin_str_too_long() {
    let mut ms = MemorySpace::new();
    ms.map_page(1, rw_user());
    ms.copyout(PAGE_SIZE, &b"abcdef".to_vec());
    assert_eq!(ms.copyin_str(PAGE_SIZE, 3), Err(SystemError::ENAMETOOLONG));
    assert_eq!(ms.copyin_str(PAGE_SIZE, 5), Err(SystemError::ENAMETOOLONG));
    // exactly `max_len` bytes, then the NUL
    assert_eq!(ms.copyin_str(PAGE_SIZE, 6), Ok("abcdef".to_string()));
}

#[test]
fn copyin_str_faults_on_unmapped_page() {
    let mut ms = MemorySpace::new();
    ms.map_page(1, rw_user());
    ms.copyout(2 * PAGE_SIZE - 3, &b"abc".to_vec());
    assert_eq!(ms.copyin_str(2 * PAGE_SIZE - 3, 10), Err(SystemError::EFAULT));
    assert_eq!(ms.copyin_str(7 * PAGE_SIZE, 10), Err(SystemError::EFAULT));
}

#[test]
fn copyin_str_reads_bytes_as_chars() {
    let mut ms = MemorySpace::new();
    ms.map_page(1, rw_user());
    ms.copyout(PAGE_SIZE, &vec![0x41u8, 0xe9, 0]);
    assert_eq!(ms.copyin_str(PAGE_SIZE, 10), Ok("A\u{e9}".to_string()));
    // 'A' then a two-byte character: three bytes fit a limit of three exactly
    assert_eq!(ms.copyin_str(PAGE_SIZE, 3), Ok("A\u{e9}".to_string()));
    assert_eq!(ms.copyin_str(PAGE_SIZE, 2), Err(SystemError::ENAMETOOLONG));
}

#[test]
fn copyin_str_counts_the_utf8_length() {
    let mut ms = MemorySpace::new();
    ms.map_page(1, rw_user());
    // 'A' (one byte) then 0xe9 (two bytes): the length goes 1, 3 and passes a limit of 2
    ms.copyout(PAGE_SIZE, &vec![0x41u8, 0xe9, 0x42]);
    assert_eq!(ms.copyin_str(PAGE_SIZE, 2), Err(SystemError::ENAMETOOLONG));
}

#[test]
fn copyin_str_reads_a_nul_at_the_last_mapped_byte() {
    let mut ms = MemorySpace::new();
    ms.map_page(1, rw_user());
    ms.copyout(2 * PAGE_SIZE - 3, &b"ab\0".to_vec());
    assert_eq!(ms.copyin_str(2 * PAGE_SIZE - 3, 2), Ok("ab".to_string()));
    assert_eq!(ms.copyin_str(2 * PAGE_SIZE - 3, 1), Err(SystemError::ENAMETOOLONG));
}

#[test]
fn copyout_str_appends_nul() {
    let mut ms = MemorySpace::new();
    ms.map_page(1, rw_user());
    ms.copyout(PAGE_SIZE, &vec![0xffu8; 8]);
    ms.copyout_str(PAGE_SIZE, "/a/b".to_string());
    let mut buf = vec![0u8; 6];
    ms.copyin(PAGE_SIZE, &mut buf);
    assert_eq!(buf, b"/a/b\0\xff".to_vec());
}

#[test]
fn copy_bytes_fault_without_mapping() {
    let mut ms = MemorySpace::new();
    ms.map_page(1, rw_user());
    let mut buf = vec![1u8; 10];
    assert_eq!(ms.copyin_bytes(2 * PAGE_SIZE - 5, &mut buf), Err(SystemError::EFAULT));
    assert_eq!(buf, vec![1u8; 10]);
    assert_eq!(ms.copyout_bytes(usize::MAX - 3, &buf), Err(SystemError::EFAULT));
    assert_eq!(ms.copyout_bytes(PAGE_SIZE, &buf), Ok(()));
    let mut back = vec![0u8; 10];
    assert_eq!(ms.copyin_bytes(PAGE_SIZE, &mut back), Ok(()));
    assert_eq!(back, vec![1u8; 10]);
    let mut empty: Vec<u8> = Vec::new();
    assert_eq!(ms.copyin_bytes(0, &mut empty), Ok(()));
}

#[test]
fn copyout_str_then_copyin_str_round_trip() {
    let mut ms = MemorySpace::new();
    ms.map_page(1, rw_user());
    ms.map_page(2, rw_user());
    ms.copyout(PAGE_SIZE, &vec![0xffu8; 2 * PAGE_SIZE]);
    ms.copyout_str(2 * PAGE_SIZE - 2, "/test/test.txt".to_string());
    assert_eq!(ms.copyin_str(2 * PAGE_SIZE - 2, 14), Ok("/test/test.txt".to_string()));
    assert_eq!(ms.copyin_str(2 * PAGE_SIZE - 2, 13), Err(SystemError::ENAMETOOLONG));
}
