//! The file system calls: what each does to a process, its files and the mounted file
//! systems, given the call's arguments.
use vstd::prelude::*;
use crate::error::SystemError;
use crate::fs::vfs::interface::{DirectoryEntry, FileSystem, FileType};
use crate::fs::file::{OpenFile, ProcessControlBlock, ReadDirControl, Stdin, Stdout, stdin_name, stdout_name};
use crate::fs::vfs::{MountTree, VirtualIndexNode};
use crate::fs::vfs::file::{VirtualFile, read_result, write_result};
use crate::fs::vfs::mount::{spec_lookup, resolve_parent, resolve_dir_name, MountShape};
use crate::fs::vfs::interface::fs_is_dir;
use crate::arch::pte::MemoryPermission;
use crate::mm::mem_space::{MemorySpace, StrScan, written, vpn};
use crate::utils::{le_bytes, write_le, zeros};
use crate::fs::block_device::copy_bytes;

verus! {

/// `d_type` of a directory.
pub const DT_DIR: u8 = 4;
/// `d_type` of a regular file.
pub const DT_REG: u8 = 8;
/// The fixed head of a directory record, before its name: inode (8 bytes), offset
/// (8 bytes), record length (2 bytes), type (1 byte).
pub const DIRENT_HEADER_LEN: usize = 19;

/// The length of the record of a name of `name_len` bytes: the head, the name, a NUL,
/// rounded up to a multiple of 8.
pub open spec fn spec_dirent_reclen(name_len: int) -> int {
    (DIRENT_HEADER_LEN + name_len + 1 + 7) / 8 * 8
}

/// The length of the directory record of a name of `name_len` bytes.
pub fn dirent_reclen(name_len: usize) -> (r: usize)
    requires
        name_len <= usize::MAX - 32,
    ensures
        r == spec_dirent_reclen(name_len as int),
        r >= DIRENT_HEADER_LEN + name_len + 1,
        r < DIRENT_HEADER_LEN + name_len + 1 + 8,
        r % 8 == 0,
{
    let raw = DIRENT_HEADER_LEN + name_len + 1;
    let up = raw + 7;
    let r = up & !7usize;
    assert(r == up / 8 * 8 && r + 7 >= up && r % 8 == 0) by (bit_vector)
        requires
            r == up & !7usize;
    r
}

/// The directory type byte of a kind of inode.
pub open spec fn d_type(t: FileType) -> u8 {
    match t {
        FileType::File => DT_REG,
        FileType::Directory => DT_DIR,
    }
}

/// The record of `e`, `reclen` bytes long, up to the NUL after its name (the padding after
/// it is left as it was).
pub open spec fn dirent_bytes(ino: u64, off: u64, reclen: u16, t: FileType, name: Seq<u8>) -> Seq<u8> {
    le_bytes(ino as nat, 8) + le_bytes(off as nat, 8) + le_bytes(reclen as nat, 2) + seq![d_type(t)] + name + seq![0u8]
}

/// The record of `entry` with record length `reclen`, up to the NUL after its name.
fn dirent_record(entry: &DirectoryEntry, reclen: u16) -> (r: Vec<u8>)
    requires
        entry.name@.len() <= usize::MAX - 32,
    ensures
        r@ == dirent_bytes(entry.inode, entry.offset_cookie, reclen, entry.file_type, entry.name@),
        r@.len() == DIRENT_HEADER_LEN + entry.name@.len() + 1,
{
    let name_len = entry.name.len();
    let mut rec = zeros(DIRENT_HEADER_LEN + name_len + 1);
    let ghost z = rec@;
    write_le(&mut rec, 0, entry.inode, 8);
    let ghost r1 = rec@;
    write_le(&mut rec, 8, entry.offset_cookie, 8);
    let ghost r2 = rec@;
    write_le(&mut rec, 16, reclen as u64, 2);
    let ghost r3 = rec@;
    let d_type = match entry.file_type {
        FileType::File => DT_REG,
        FileType::Directory => DT_DIR,
    };
    rec.set(18, d_type);
    let ghost r4 = rec@;
    copy_bytes(&mut rec, DIRENT_HEADER_LEN, &entry.name, 0, name_len);
    rec.set(DIRENT_HEADER_LEN + name_len, 0);
    proof {
        crate::utils::lemma_le_bytes_len(entry.inode as nat, 8);
        crate::utils::lemma_le_bytes_len(entry.offset_cookie as nat, 8);
        crate::utils::lemma_le_bytes_len(reclen as nat, 2);
        let want = dirent_bytes(entry.inode, entry.offset_cookie, reclen, entry.file_type, entry.name@);
        assert(entry.name@.subrange(0, name_len as int) =~= entry.name@);
        assert forall|i: int| 0 <= i < rec@.len() implies rec@[i] == want[i] by {
            if i < 8 {
                assert(r1[i] == le_bytes(entry.inode as nat, 8)[i]);
                assert(rec@[i] == r1[i]);
            } else if i < 16 {
                assert(r2[i] == le_bytes(entry.offset_cookie as nat, 8)[i - 8]);
                assert(rec@[i] == r2[i]);
            } else if i < 18 {
                assert(r3[i] == le_bytes(reclen as nat, 2)[i - 16]);
                assert(rec@[i] == r3[i]);
            }
        }
        assert(rec@ =~= want);
    }
    rec
}

/// Directory records being packed into a buffer of `count` bytes (initially zeros).
pub struct DirentWriter {
    pub buf: Vec<u8>,
    pub pos: usize,
    pub count: usize,
    /// The first entry did not fit.
    pub too_small: bool,
}

impl DirentWriter {
    pub open spec fn wf(&self) -> bool {
        &&& self.buf@.len() == self.count
        &&& self.pos <= self.count
    }

    /// An empty buffer of `count` zero bytes.
    pub fn new(count: usize) -> (r: Self)
        ensures
            r.wf(),
            r.buf@ == Seq::new(count as nat, |i: int| 0u8),
            r.pos == 0,
            r.count == count,
            !r.too_small,
    {
        DirentWriter { buf: zeros(count), pos: 0, count, too_small: false }
    }

    /// Packs the record of `entry` after those already packed, if it fits; otherwise asks
    /// the walk to stop and to offer this entry again next time (noting it when not even the
    /// first record fits).
    pub fn push_entry(&mut self, entry: &DirectoryEntry) -> (r: ReadDirControl)
        requires
            old(self).wf(),
            entry.name@.len() <= usize::MAX - 32,
        ensures
            final(self).wf(),
            final(self).count == old(self).count,
            ({
                let reclen = spec_dirent_reclen(entry.name@.len() as int);
                if old(self).pos + reclen > old(self).count {
                    &&& r == ReadDirControl::StopWithBackroll
                    &&& final(self).buf@ == old(self).buf@
                    &&& final(self).pos == old(self).pos
                    &&& final(self).too_small == (old(self).too_small || old(self).pos == 0)
                } else {
                    let rec = dirent_bytes(entry.inode, entry.offset_cookie, reclen as u16, entry.file_type, entry.name@);
                    &&& r == ReadDirControl::Continue
                    &&& final(self).pos == old(self).pos + reclen
                    &&& final(self).too_small == old(self).too_small
                    &&& final(self).buf@ == old(self).buf@.subrange(0, old(self).pos as int) + rec
                        + old(self).buf@.subrange(old(self).pos + rec.len(), old(self).count as int)
                }
            }),
    {
        let name_len = entry.name.len();
        let reclen = dirent_reclen(name_len);
        assert(reclen <= usize::MAX);
        if reclen > self.count - self.pos {
            if self.pos == 0 {
                self.too_small = true;
            }
            return ReadDirControl::StopWithBackroll;
        }
        let pos = self.pos;
        let ghost b0 = self.buf@;
        let rec = dirent_record(entry, reclen as u16);
        copy_bytes(&mut self.buf, pos, &rec, 0, rec.len());
        self.pos = pos + reclen;
        assert(rec@.subrange(0, rec@.len() as int) =~= rec@);
        ReadDirControl::Continue
    }
}

/// The longest path a call reads from user memory.
pub const MAXPATH: usize = 128;

/// How a system call ends, or what it needs from the console first.
pub enum SyscallOutcome {
    /// Done, with this return value.
    Done(usize),
    /// Read this many bytes from the console, then finish with `sys_read_console`.
    ReadConsole(usize),
    /// Write these bytes to the console; the call returns their number.
    WriteConsole(Vec<u8>),
}

/// `n` zero bytes.
pub open spec fn zero_bytes(n: nat) -> Seq<u8> {
    Seq::new(n, |i: int| 0u8)
}

/// The file open under descriptor `fd`, if any.
pub open spec fn file_at(p: &ProcessControlBlock, fd: int) -> Option<OpenFile> {
    if 0 <= fd < p.fd_table@.len() { p.fd_table@[fd] } else { None }
}

/// A process fits a mount tree: its address space, current directory and open files are
/// usable there.
pub open spec fn process_ok<F: FileSystem>(p: &ProcessControlBlock, tree: &MountTree<F>) -> bool {
    &&& tree.wf()
    &&& p.memory_space.wf()
    &&& tree.valid(p.cwd)
    &&& !p.cwd.weak
    &&& fs_is_dir(&tree.at(p.cwd.fs as int).inner_fs, p.cwd.id)
    &&& forall|i: int| 0 <= i < p.fd_table@.len() ==> (#[trigger] p.fd_table@[i] matches Some(OpenFile::Virtual(vf))
        ==> tree.valid(vf.inode) && !vf.inode.weak)
}

/// `t1` caches every inode that `t0` does, in the same file systems.
pub open spec fn keeps_cached<F: FileSystem>(t1: &MountTree<F>, t0: &MountTree<F>) -> bool {
    &&& t1.len() == t0.len()
    &&& forall|k: int, id: u64| 0 <= k < t0.len() && #[trigger] t0.at(k).cache().contains_key(id)
        ==> t1.at(k).cache().contains_key(id)
}

proof fn lemma_process_ok<F: FileSystem>(p0: &ProcessControlBlock, p1: &ProcessControlBlock, t0: &MountTree<F>, t1: &MountTree<F>)
    requires
        process_ok(p0, t0),
        t1.wf(),
        keeps_cached(t1, t0),
        p1.memory_space.wf(),
        p1.cwd == p0.cwd,
        fs_is_dir(&t1.at(p1.cwd.fs as int).inner_fs, p1.cwd.id),
        p1.fd_table@.len() == p0.fd_table@.len(),
        forall|i: int| 0 <= i < p1.fd_table@.len() ==> (#[trigger] p1.fd_table@[i] matches Some(OpenFile::Virtual(vf))
            ==> (exists|vf0: VirtualFile| p0.fd_table@[i] == Some(OpenFile::Virtual(vf0)) && vf0.inode == vf.inode)),
    ensures
        process_ok(p1, t1),
{
    assert forall|i: int| 0 <= i < p1.fd_table@.len() implies (#[trigger] p1.fd_table@[i] matches Some(OpenFile::Virtual(vf))
        ==> t1.valid(vf.inode) && !vf.inode.weak) by {
        if let Some(OpenFile::Virtual(vf)) = p1.fd_table@[i] {
            let vf0 = choose|vf0: VirtualFile| p0.fd_table@[i] == Some(OpenFile::Virtual(vf0)) && vf0.inode == vf.inode;
            assert(p0.fd_table@[i] matches Some(OpenFile::Virtual(vf)) ==> t0.valid(vf.inode));
        }
    }
}

/// `read(fd, buf, len)`: reads up to `len` bytes from the file open under `fd` into user
/// memory at `buf`. `0` when `len` is 0; `EBADF` without such a file, or for the console's
/// output; for the console's input, asks for `len` bytes first. For a file of the file
/// system, reads from its position (see `VirtualFile::read`), then copies the whole buffer
/// of `len` bytes out (`EFAULT` when that range is not mapped), and returns how many bytes
/// were read.
pub fn sys_read<F: FileSystem>(pcb: &mut ProcessControlBlock, tree: &mut MountTree<F>, args: [usize; 6]) -> (r: Result<SyscallOutcome, SystemError>)
    requires
        process_ok(old(pcb), old(tree)),
    ensures
        process_ok(final(pcb), final(tree)),
        final(pcb).cwd == old(pcb).cwd,
        ({
            let fd = args[0] as int;
            let buf = args[1];
            let len = args[2];
            if len == 0 {
                r matches Ok(SyscallOutcome::Done(0usize)) && *final(pcb) == *old(pcb) && *final(tree) == *old(tree)
            } else {
                match file_at(old(pcb), fd) {
                    None => r == Err::<SyscallOutcome, SystemError>(SystemError::EBADF)
                        && *final(pcb) == *old(pcb) && *final(tree) == *old(tree),
                    Some(OpenFile::Stdout(_)) => r == Err::<SyscallOutcome, SystemError>(SystemError::EBADF)
                        && *final(pcb) == *old(pcb) && *final(tree) == *old(tree),
                    Some(OpenFile::Stdin(_)) => r matches Ok(SyscallOutcome::ReadConsole(n)) && n == len
                        && *final(pcb) == *old(pcb) && *final(tree) == *old(tree),
                    Some(OpenFile::Virtual(vf0)) => exists|vf1: VirtualFile, kbuf: Seq<u8>, rr: Result<usize, SystemError>| {
                        &&& #[trigger] read_result(*old(tree), *final(tree), vf0, vf1, zero_bytes(len as nat), kbuf, rr)
                        &&& final(pcb).fd_table@ == old(pcb).fd_table@.update(fd, Some(OpenFile::Virtual(vf1)))
                        &&& match rr {
                            Err(e) => r == Err::<SyscallOutcome, SystemError>(e)
                                && final(pcb).memory_space == old(pcb).memory_space,
                            Ok(n) => if buf + len <= usize::MAX && old(pcb).memory_space.range_mapped(buf as int, buf + len) {
                                r matches Ok(SyscallOutcome::Done(m)) && m == n
                                    && written(old(pcb).memory_space, final(pcb).memory_space, buf as int, kbuf)
                            } else {
                                r == Err::<SyscallOutcome, SystemError>(SystemError::EFAULT)
                                    && final(pcb).memory_space == old(pcb).memory_space
                            },
                        }
                    },
                }
            }
        }),
{
    let fd = args[0];
    let buf = args[1];
    let len = args[2];
    if len == 0 {
        return Ok(SyscallOutcome::Done(0));
    }
    let mut vf = match pcb.get_file(fd as u64) {
        None => {
            return Err(SystemError::EBADF);
        },
        Some(OpenFile::Stdout(_)) => {
            return Err(SystemError::EBADF);
        },
        Some(OpenFile::Stdin(_)) => {
            return Ok(SyscallOutcome::ReadConsole(len));
        },
        Some(OpenFile::Virtual(vf)) => *vf,
    };
    let ghost p0 = *pcb;
    let ghost t0 = *tree;
    let ghost vf0 = vf;
    let mut kernel_buf = zeros(len);
    let ghost z = kernel_buf@;
    proof {
        assert(p0.fd_table@[fd as int] matches Some(OpenFile::Virtual(v)) ==> t0.valid(v.inode));
    }
    let rr = vf.read(tree, &mut kernel_buf);
    pcb.fd_table.set(fd, Some(OpenFile::Virtual(vf)));
    proof {
        assert(z == zero_bytes(len as nat));
        assert(read_result(t0, *tree, vf0, vf, zero_bytes(len as nat), kernel_buf@, rr));
        lemma_process_ok(&p0, pcb, &t0, tree);
    }
    let n = match rr {
        Err(e) => {
            return Err(e);
        },
        Ok(n) => n,
    };
    match pcb.memory_space.copyout_bytes(buf, &kernel_buf) {
        Err(e) => Err(e),
        Ok(_) => Ok(SyscallOutcome::Done(n)),
    }
}

/// Finishes `read` from the console: copies the `bytes` read to user memory at `buf` and
/// returns their number; `EFAULT` when that range is not mapped.
pub fn sys_read_console(pcb: &mut ProcessControlBlock, buf: usize, bytes: &Vec<u8>) -> (r: Result<usize, SystemError>)
    requires
        old(pcb).memory_space.wf(),
    ensures
        final(pcb).memory_space.wf(),
        final(pcb).cwd == old(pcb).cwd,
        final(pcb).fd_table@ == old(pcb).fd_table@,
        (buf + bytes.len() <= usize::MAX && old(pcb).memory_space.range_mapped(buf as int, buf + bytes.len()))
            ==> r == Ok::<usize, SystemError>(bytes.len()) && written(old(pcb).memory_space, final(pcb).memory_space, buf as int, bytes@),
        !(buf + bytes.len() <= usize::MAX && old(pcb).memory_space.range_mapped(buf as int, buf + bytes.len()))
            ==> r == Err::<usize, SystemError>(SystemError::EFAULT) && final(pcb).memory_space == old(pcb).memory_space,
{
    match pcb.memory_space.copyout_bytes(buf, bytes) {
        Err(e) => Err(e),
        Ok(_) => Ok(bytes.len()),
    }
}

/// `write(fd, buf, len)`: writes `len` bytes of user memory at `buf` to the file open under
/// `fd`. `0` when `len` is 0; `EBADF` without such a file; `EFAULT` when that memory is not
/// mapped; `EBADF` for the console's input; for the console's output, hands the bytes over
/// to be written. For a file of the file system, writes at its position (see
/// `VirtualFile::write`); `EINVAL` when the position is the largest offset there is, as the
/// file could not grow past it.
pub fn sys_write<F: FileSystem>(pcb: &mut ProcessControlBlock, tree: &mut MountTree<F>, args: [usize; 6]) -> (r: Result<SyscallOutcome, SystemError>)
    requires
        process_ok(old(pcb), old(tree)),
    ensures
        process_ok(final(pcb), final(tree)),
        final(pcb).cwd == old(pcb).cwd,
        final(pcb).memory_space == old(pcb).memory_space,
        ({
            let fd = args[0] as int;
            let buf = args[1];
            let len = args[2];
            let ms = old(pcb).memory_space;
            let data = ms.bytes(buf as int, buf + len);
            if len == 0 {
                r matches Ok(SyscallOutcome::Done(0usize)) && *final(pcb) == *old(pcb) && *final(tree) == *old(tree)
            } else if file_at(old(pcb), fd) is None {
                r == Err::<SyscallOutcome, SystemError>(SystemError::EBADF) && *final(pcb) == *old(pcb) && *final(tree) == *old(tree)
            } else if !(buf + len <= usize::MAX && ms.range_mapped(buf as int, buf + len)) {
                r == Err::<SyscallOutcome, SystemError>(SystemError::EFAULT) && *final(pcb) == *old(pcb) && *final(tree) == *old(tree)
            } else {
                match file_at(old(pcb), fd) {
                    Some(OpenFile::Stdin(_)) => r == Err::<SyscallOutcome, SystemError>(SystemError::EBADF)
                        && *final(pcb) == *old(pcb) && *final(tree) == *old(tree),
                    Some(OpenFile::Stdout(_)) => r matches Ok(SyscallOutcome::WriteConsole(v)) && v@ == data
                        && *final(pcb) == *old(pcb) && *final(tree) == *old(tree),
                    Some(OpenFile::Virtual(vf0)) => if vf0.offset == usize::MAX {
                        r == Err::<SyscallOutcome, SystemError>(SystemError::EINVAL) && *final(pcb) == *old(pcb) && *final(tree) == *old(tree)
                    } else {
                        exists|vf1: VirtualFile, rr: Result<usize, SystemError>| {
                            &&& #[trigger] write_result(*old(tree), *final(tree), vf0, vf1, data, rr)
                            &&& final(pcb).fd_table@ == old(pcb).fd_table@.update(fd, Some(OpenFile::Virtual(vf1)))
                            &&& match rr {
                                Err(e) => r == Err::<SyscallOutcome, SystemError>(e),
                                Ok(n) => r matches Ok(SyscallOutcome::Done(m)) && m == n,
                            }
                        }
                    },
                    None => false,
                }
            }
        }),
{
    let fd = args[0];
    let buf = args[1];
    let len = args[2];
    if len == 0 {
        return Ok(SyscallOutcome::Done(0));
    }
    let file_kind: u8 = match pcb.get_file(fd as u64) {
        None => {
            return Err(SystemError::EBADF);
        },
        Some(OpenFile::Stdin(_)) => 0,
        Some(OpenFile::Stdout(_)) => 1,
        Some(OpenFile::Virtual(_)) => 2,
    };
    let mut kernel_buf = zeros(len);
    match pcb.memory_space.copyin_bytes(buf, &mut kernel_buf) {
        Err(e) => {
            return Err(e);
        },
        Ok(_) => {},
    }
    if file_kind == 0 {
        return Err(SystemError::EBADF);
    }
    if file_kind == 1 {
        return Ok(SyscallOutcome::WriteConsole(kernel_buf));
    }
    let mut vf = match pcb.get_file(fd as u64) {
        Some(OpenFile::Virtual(vf)) => *vf,
        _ => {
            proof {
                assert(false);
            }
            return Err(SystemError::EBADF);
        },
    };
    if vf.offset == usize::MAX {
        return Err(SystemError::EINVAL);
    }
    let ghost p0 = *pcb;
    let ghost t0 = *tree;
    let ghost vf0 = vf;
    proof {
        assert(p0.fd_table@[fd as int] matches Some(OpenFile::Virtual(v)) ==> t0.valid(v.inode));
    }
    let rr = vf.write(tree, &kernel_buf);
    pcb.fd_table.set(fd, Some(OpenFile::Virtual(vf)));
    proof {
        assert(write_result(t0, *tree, vf0, vf, kernel_buf@, rr));
        if rr is Ok {
            assert forall|k: int, id: u64| 0 <= k < t0.len() && #[trigger] t0.at(k).cache().contains_key(id)
                implies tree.at(k).cache().contains_key(id) by {
                if k != vf0.inode.fs {
                    assert(tree.at(k) == t0.at(k));
                }
            }
        }
        lemma_process_ok(&p0, pcb, &t0, tree);
    }
    match rr {
        Err(e) => Err(e),
        Ok(n) => Ok(SyscallOutcome::Done(n)),
    }
}

/// The path that a call reads at `addr`, when it reads one: the bytes of the string (each
/// byte read as a character, stored in UTF-8).
pub open spec fn user_path(ms: MemorySpace, addr: int, n: nat) -> Seq<u8> {
    vstd::utf8::encode_utf8(ms.chars(addr, n))
}

/// Reads the path at `addr` for a call: `EFAULT` when the range of `MAXPATH` bytes passes the
/// end of the address space, else as `copyin_str` reads it.
fn read_user_path(ms: &MemorySpace, addr: usize) -> (r: Result<Vec<u8>, SystemError>)
    requires
        ms.wf(),
    ensures
        addr + MAXPATH > usize::MAX ==> r == Err::<Vec<u8>, SystemError>(SystemError::EFAULT),
        addr + MAXPATH <= usize::MAX ==> match ms.scan_str(addr as int, MAXPATH as int, 0, 0) {
            StrScan::Found(n) => r matches Ok(v) && v@ == user_path(*ms, addr as int, n),
            StrScan::Fault => r == Err::<Vec<u8>, SystemError>(SystemError::EFAULT),
            StrScan::TooLong => r == Err::<Vec<u8>, SystemError>(SystemError::ENAMETOOLONG),
        },
{
    if addr > usize::MAX - MAXPATH {
        return Err(SystemError::EFAULT);
    }
    match ms.copyin_str(addr, MAXPATH) {
        Err(e) => Err(e),
        Ok(s) => Ok(vstd::slice::slice_to_vec(s.as_str().as_bytes())),
    }
}

/// `open(path)`: opens the file that the path at user address `path` names (see
/// `ProcessControlBlock::open_file`) and returns its descriptor. `EFAULT`, `ENAMETOOLONG`
/// as reading the path gives; `EINVAL` for an empty path; `ENOENT` when it leads nowhere.
pub fn sys_open<F: FileSystem>(pcb: &mut ProcessControlBlock, tree: &mut MountTree<F>, args: [usize; 6]) -> (r: Result<usize, SystemError>)
    requires
        process_ok(old(pcb), old(tree)),
    ensures
        process_ok(final(pcb), final(tree)),
        final(pcb).cwd == old(pcb).cwd,
        final(pcb).memory_space == old(pcb).memory_space,
        ({
            let addr = args[0];
            let ms = old(pcb).memory_space;
            let unchanged = *final(pcb) == *old(pcb) && *final(tree) == *old(tree);
            if addr + MAXPATH > usize::MAX {
                r == Err::<usize, SystemError>(SystemError::EFAULT) && unchanged
            } else {
                match ms.scan_str(addr as int, MAXPATH as int, 0, 0) {
                    StrScan::Fault => r == Err::<usize, SystemError>(SystemError::EFAULT) && unchanged,
                    StrScan::TooLong => r == Err::<usize, SystemError>(SystemError::ENAMETOOLONG) && unchanged,
                    StrScan::Found(n) => {
                        let path = user_path(ms, addr as int, n);
                        let fd = old(pcb).fd_table@.len();
                        if n == 0 {
                            r == Err::<usize, SystemError>(SystemError::EINVAL) && unchanged
                        } else if path == stdin_name() {
                            r == Ok::<usize, SystemError>(fd as usize)
                                && final(pcb).fd_table@ == old(pcb).fd_table@.push(Some(OpenFile::Stdin(Stdin)))
                        } else if path == stdout_name() {
                            r == Ok::<usize, SystemError>(fd as usize)
                                && final(pcb).fd_table@ == old(pcb).fd_table@.push(Some(OpenFile::Stdout(Stdout)))
                        } else {
                            match spec_lookup(old(tree).shapes(), (old(pcb).cwd.fs as int, old(pcb).cwd.id), path) {
                                None => r == Err::<usize, SystemError>(SystemError::ENOENT)
                                    && final(pcb).fd_table@ == old(pcb).fd_table@,
                                Some((k, id)) => r == Ok::<usize, SystemError>(fd as usize)
                                    && final(pcb).fd_table@ == old(pcb).fd_table@.push(Some(OpenFile::Virtual(VirtualFile {
                                        offset: 0, inode: VirtualIndexNode { fs: k as usize, id, weak: false } }))),
                            }
                        }
                    },
                }
            }
        }),
{
    let path = match read_user_path(&pcb.memory_space, args[0]) {
        Err(e) => {
            return Err(e);
        },
        Ok(p) => p,
    };
    if path.len() == 0 {
        proof {
            let n = match pcb.memory_space.scan_str(args[0] as int, MAXPATH as int, 0, 0) { StrScan::Found(n) => n, _ => 0 };
            if n > 0 {
                assert(user_path(pcb.memory_space, args[0] as int, n).len() > 0);
            }
        }
        return Err(SystemError::EINVAL);
    }
    proof {
        let n = match pcb.memory_space.scan_str(args[0] as int, MAXPATH as int, 0, 0) { StrScan::Found(n) => n, _ => 0 };
        if n == 0 {
            assert(pcb.memory_space.chars(args[0] as int, 0) =~= Seq::<char>::empty());
            assert(user_path(pcb.memory_space, args[0] as int, 0).len() == 0);
        }
    }
    let ghost p0 = *pcb;
    let ghost t0 = *tree;
    let n0 = pcb.fd_table.len();
    let fd = match pcb.open_file(tree, &path) {
        None => {
            proof {
                assert(t0.shapes()[p0.cwd.fs as int] == t0.at(p0.cwd.fs as int).shape());
                assert(tree.shapes()[p0.cwd.fs as int] == tree.at(p0.cwd.fs as int).shape());
                lemma_process_ok(&p0, pcb, &t0, tree);
            }
            return Err(SystemError::ENOENT);
        },
        Some(fd) => fd,
    };
    proof {
        assert(t0.shapes()[p0.cwd.fs as int] == t0.at(p0.cwd.fs as int).shape());
        assert(tree.shapes()[p0.cwd.fs as int] == tree.at(p0.cwd.fs as int).shape());
        assert(fd == n0 as u64);
        assert forall|i: int| 0 <= i < pcb.fd_table@.len() implies (#[trigger] pcb.fd_table@[i] matches Some(OpenFile::Virtual(vf))
            ==> tree.valid(vf.inode) && !vf.inode.weak) by {
            if i < p0.fd_table@.len() {
                assert(pcb.fd_table@[i] == p0.fd_table@[i]);
                assert(p0.fd_table@[i] matches Some(OpenFile::Virtual(vf)) ==> t0.valid(vf.inode));
            }
        }
    }
    Ok(fd as usize)
}

/// `close(fd)`: closes the file open under `fd`; `EBADF` without one.
pub fn sys_close(pcb: &mut ProcessControlBlock, args: [usize; 6]) -> (r: Result<usize, SystemError>)
    ensures
        final(pcb).cwd == old(pcb).cwd,
        final(pcb).memory_space == old(pcb).memory_space,
        file_at(old(pcb), args[0] as int) is None ==> r == Err::<usize, SystemError>(SystemError::EBADF)
            && final(pcb).fd_table@ == old(pcb).fd_table@,
        file_at(old(pcb), args[0] as int) is Some ==> r == Ok::<usize, SystemError>(0)
            && final(pcb).fd_table@ == old(pcb).fd_table@.update(args[0] as int, None),
{
    let fd = args[0];
    if pcb.get_file(fd as u64).is_none() {
        return Err(SystemError::EBADF);
    }
    pcb.fd_table.set(fd, None);
    Ok(0)
}

/// `chdir(path)`: makes the directory that the path at user address `path` names the
/// current directory. `EFAULT`, `ENAMETOOLONG` as reading the path gives; `EINVAL` for an
/// empty path; `EFAULT` when the path's bytes are not all mapped user-readable; `ENOENT`
/// when it leads nowhere; `ENOTDIR` when it leads to a file.
pub fn sys_chdir<F: FileSystem>(pcb: &mut ProcessControlBlock, tree: &mut MountTree<F>, args: [usize; 6]) -> (r: Result<usize, SystemError>)
    requires
        process_ok(old(pcb), old(tree)),
    ensures
        process_ok(final(pcb), final(tree)),
        final(pcb).memory_space == old(pcb).memory_space,
        final(pcb).fd_table@ == old(pcb).fd_table@,
        r is Ok ==> r == Ok::<usize, SystemError>(0),
        ({
            let addr = args[0];
            let ms = old(pcb).memory_space;
            let unchanged = *final(pcb) == *old(pcb) && *final(tree) == *old(tree);
            if addr + MAXPATH > usize::MAX {
                r == Err::<usize, SystemError>(SystemError::EFAULT) && unchanged
            } else {
                match ms.scan_str(addr as int, MAXPATH as int, 0, 0) {
                    StrScan::Fault => r == Err::<usize, SystemError>(SystemError::EFAULT) && unchanged,
                    StrScan::TooLong => r == Err::<usize, SystemError>(SystemError::ENAMETOOLONG) && unchanged,
                    StrScan::Found(n) => {
                        let path = user_path(ms, addr as int, n);
                        let end = addr + path.len();
                        if n == 0 {
                            r == Err::<usize, SystemError>(SystemError::EINVAL) && unchanged
                        } else if !(end <= usize::MAX && ms.range_mapped(addr as int, end)) {
                            r == Err::<usize, SystemError>(SystemError::EFAULT) && unchanged
                        } else if !(MemoryPermission { bits: ms.perm_fold(vpn(addr as int), vpn(end - 1)) }).has(MemoryPermission::USER_ACCESSIBLE)
                            || !(MemoryPermission { bits: ms.perm_fold(vpn(addr as int), vpn(end - 1)) }).has(MemoryPermission::READABLE) {
                            r == Err::<usize, SystemError>(SystemError::EFAULT) && unchanged
                        } else {
                            match spec_lookup(old(tree).shapes(), (old(pcb).cwd.fs as int, old(pcb).cwd.id), path) {
                                None => r == Err::<usize, SystemError>(SystemError::ENOENT) && final(pcb).cwd == old(pcb).cwd,
                                Some((k, id)) => if fs_is_dir(&old(tree).shapes()[k].inner_fs, id) {
                                    r == Ok::<usize, SystemError>(0)
                                        && final(pcb).cwd == (VirtualIndexNode { fs: k as usize, id, weak: false })
                                } else {
                                    r == Err::<usize, SystemError>(SystemError::ENOTDIR) && final(pcb).cwd == old(pcb).cwd
                                },
                            }
                        }
                    },
                }
            }
        }),
{
    let addr = args[0];
    let path = match read_user_path(&pcb.memory_space, addr) {
        Err(e) => {
            return Err(e);
        },
        Ok(p) => p,
    };
    proof {
        let n = match pcb.memory_space.scan_str(addr as int, MAXPATH as int, 0, 0) { StrScan::Found(n) => n, _ => 0 };
        if n > 0 {
            assert(user_path(pcb.memory_space, addr as int, n).len() > 0);
        } else {
            assert(pcb.memory_space.chars(addr as int, 0) =~= Seq::<char>::empty());
            assert(user_path(pcb.memory_space, addr as int, 0).len() == 0);
        }
    }
    if path.len() == 0 {
        return Err(SystemError::EINVAL);
    }
    if addr > usize::MAX - path.len() {
        return Err(SystemError::EFAULT);
    }
    let permission = match pcb.memory_space.check_permission(addr, addr + path.len()) {
        Err(e) => {
            return Err(e);
        },
        Ok(p) => p,
    };
    if !permission.contains(MemoryPermission::USER_ACCESSIBLE) || !permission.contains(MemoryPermission::READABLE) {
        return Err(SystemError::EFAULT);
    }
    let ghost p0 = *pcb;
    let ghost t0 = *tree;
    let inode = match crate::fs::vfs::mount::lookup(tree, pcb.cwd, &path) {
        None => {
            proof {
                assert(t0.shapes()[p0.cwd.fs as int] == t0.at(p0.cwd.fs as int).shape());
                assert(tree.shapes()[p0.cwd.fs as int] == tree.at(p0.cwd.fs as int).shape());
                lemma_process_ok(&p0, pcb, &t0, tree);
            }
            return Err(SystemError::ENOENT);
        },
        Some(n) => n,
    };
    proof {
        assert(t0.shapes()[p0.cwd.fs as int] == t0.at(p0.cwd.fs as int).shape());
        assert(tree.shapes()[p0.cwd.fs as int] == tree.at(p0.cwd.fs as int).shape());
        lemma_process_ok(&p0, pcb, &t0, tree);
        assert(t0.shapes()[inode.fs as int] == t0.at(inode.fs as int).shape());
        assert(tree.at(inode.fs as int).shape() == t0.at(inode.fs as int).shape()) by {
            assert(tree.shapes()[inode.fs as int] == tree.at(inode.fs as int).shape());
        }
    }
    let meta = inode.metadata(&tree.filesystems[inode.fs]);
    if meta.file_type != FileType::Directory {
        return Err(SystemError::ENOTDIR);
    }
    pcb.cwd = inode;
    Ok(0)
}

impl OpenFile {
    /// Walks the entries of this open file as a directory, handing each to `writer`. No
    /// kind of open file supports this: always `ENOTDIR`.
    pub fn read_dir(&self, writer: &mut DirentWriter) -> (r: Result<(), SystemError>)
        ensures
            r == Err::<(), SystemError>(SystemError::ENOTDIR),
            *final(writer) == *old(writer),
    {
        Err(SystemError::ENOTDIR)
    }
}

/// `readdir(fd, buf, count)`: packs directory records of the file open under `fd` into user
/// memory at `buf`, at most `count` bytes. `EINVAL` when `count` cannot hold even the
/// shortest record; `EBADF` without such a file; the walk itself then fails with
/// `ENOTDIR`, as no kind of open file supports it.
pub fn sys_readdir(pcb: &mut ProcessControlBlock, args: [usize; 6]) -> (r: Result<usize, SystemError>)
    requires
        old(pcb).memory_space.wf(),
    ensures
        final(pcb).memory_space.wf(),
        final(pcb).cwd == old(pcb).cwd,
        final(pcb).fd_table@ == old(pcb).fd_table@,
        args[2] < spec_dirent_reclen(1) ==> r == Err::<usize, SystemError>(SystemError::EINVAL)
            && final(pcb).memory_space == old(pcb).memory_space,
        args[2] >= spec_dirent_reclen(1) && file_at(old(pcb), args[0] as int) is None
            ==> r == Err::<usize, SystemError>(SystemError::EBADF) && final(pcb).memory_space == old(pcb).memory_space,
        args[2] >= spec_dirent_reclen(1) && file_at(old(pcb), args[0] as int) is Some
            ==> r == Err::<usize, SystemError>(SystemError::ENOTDIR) && final(pcb).memory_space == old(pcb).memory_space,
{
    let fd = args[0];
    let buf = args[1];
    let count = args[2];
    if count < dirent_reclen(1) {
        return Err(SystemError::EINVAL);
    }
    let file = match pcb.get_file(fd as u64) {
        None => {
            return Err(SystemError::EBADF);
        },
        Some(f) => f,
    };
    let mut writer = DirentWriter::new(count);
    match file.read_dir(&mut writer) {
        Err(e) => {
            return Err(e);
        },
        Ok(_) => {},
    }
    if writer.too_small {
        return Err(SystemError::EINVAL);
    }
    let records = crate::utils::sub_bytes(&writer.buf, 0, writer.pos);
    match pcb.memory_space.copyout_bytes(buf, &records) {
        Err(e) => Err(e),
        Ok(_) => Ok(writer.pos),
    }
}

/// `chain` goes from `start` up through each parent to the root of the tree.
pub open spec fn is_chain<F: FileSystem>(sh: Seq<MountShape<F>>, chain: Seq<(int, u64)>, start: (int, u64)) -> bool {
    &&& chain.len() >= 1
    &&& chain[0] == start
    &&& forall|i: int| 0 <= i < chain.len() - 1 ==> resolve_parent(sh, #[trigger] chain[i].0, chain[i].1) == Some(chain[i + 1])
    &&& resolve_parent(sh, chain.last().0, chain.last().1).is_none()
}

/// The path of `chain[j]` from just below the root: `/` and the name of each directory from
/// `chain[j]` down to `chain[0]`; `None` when a directory has no name in its parent.
pub open spec fn names_path<F: FileSystem>(sh: Seq<MountShape<F>>, chain: Seq<(int, u64)>, j: int) -> Option<Seq<u8>>
    decreases j + 1,
{
    if j < 0 {
        Some(Seq::empty())
    } else {
        match resolve_dir_name(sh, chain[j].0, chain[j].1) {
            None => None,
            Some(n) => match names_path(sh, chain, j - 1) {
                None => None,
                Some(rest) => Some(seq![47u8] + n + rest),
            },
        }
    }
}

/// The path of the directory that `chain` starts from; `/` for the root.
pub open spec fn cwd_path<F: FileSystem>(sh: Seq<MountShape<F>>, chain: Seq<(int, u64)>) -> Option<Seq<u8>> {
    match names_path(sh, chain, chain.len() - 2) {
        None => None,
        Some(p) => Some(if p.len() == 0 { seq![47u8] } else { p }),
    }
}

/// The path of `chain[0]` from just below the root (see `names_path`), built from the names
/// of the directories of `path_inode`, which stand for `chain`.
fn build_names<F: FileSystem>(tree: &mut MountTree<F>, path_inode: &Vec<VirtualIndexNode>,
    Ghost(chain): Ghost<Seq<(int, u64)>>, Ghost(sh): Ghost<Seq<MountShape<F>>>) -> (r: Option<Vec<u8>>)
    requires
        old(tree).wf(),
        sh == old(tree).shapes(),
        chain.len() == path_inode@.len(),
        chain.len() >= 1,
        forall|i: int| 0 <= i < path_inode@.len() ==> (#[trigger] path_inode@[i]).fs as int == chain[i].0
            && path_inode@[i].id == chain[i].1 && !path_inode@[i].weak
            && old(tree).valid(path_inode@[i]) && fs_is_dir(&old(tree).at(path_inode@[i].fs as int).inner_fs, path_inode@[i].id),
    ensures
        final(tree).wf(),
        final(tree).grows(old(tree)),
        match names_path(sh, chain, chain.len() - 2) {
            None => r.is_none(),
            Some(p) => r matches Some(v) && v@ == p,
        },
{
    let ghost t0 = *tree;
    proof {
        assert(tree.grows(&t0));
    }
    let mut path: Vec<u8> = Vec::new();
    let mut j: usize = path_inode.len() - 1;
    while j > 0
        invariant
            tree.wf(),
            tree.grows(&t0),
            tree.grows(old(tree)),
            sh == t0.shapes(),
            chain.len() == path_inode@.len(),
            j < path_inode@.len(),
            forall|i: int| 0 <= i < path_inode@.len() ==> (#[trigger] path_inode@[i]).fs as int == chain[i].0
                && path_inode@[i].id == chain[i].1 && !path_inode@[i].weak
                && tree.valid(path_inode@[i]) && fs_is_dir(&tree.at(path_inode@[i].fs as int).inner_fs, path_inode@[i].id),
            names_path(sh, chain, chain.len() - 2) == match names_path(sh, chain, j - 1) {
                None => None::<Seq<u8>>,
                Some(rest) => Some(path@ + rest),
            },
        decreases j,
    {
        let ghost t1 = *tree;
        let node = path_inode[j - 1];
        let name = match node.dir_name(tree) {
            None => {
                proof {
                    assert(t1.shapes() == sh);
                    assert(chain[j - 1] == (node.fs as int, node.id));
                    assert(names_path(sh, chain, j - 1).is_none());
                }
                return None;
            },
            Some(n) => n,
        };
        proof {
            assert forall|i: int| 0 <= i < path_inode@.len() implies tree.valid(#[trigger] path_inode@[i])
                && fs_is_dir(&tree.at(path_inode@[i].fs as int).inner_fs, path_inode@[i].id) by {
                let n = path_inode@[i];
                assert(t1.shapes()[n.fs as int] == t1.at(n.fs as int).shape());
                assert(tree.shapes()[n.fs as int] == tree.at(n.fs as int).shape());
            }
        }
        let ghost before = path@;
        path.push(47u8);
        let mut k: usize = 0;
        while k < name.len()
            invariant
                k <= name.len(),
                path@ == before + seq![47u8] + name@.subrange(0, k as int),
            decreases name.len() - k,
        {
            path.push(name[k]);
            k = k + 1;
            assert(path@ =~= before + seq![47u8] + name@.subrange(0, k as int));
        }
        proof {
            assert(name@.subrange(0, name@.len() as int) =~= name@);
            match names_path(sh, chain, j - 2) {
                None => {},
                Some(rest) => {
                    assert(before + (seq![47u8] + name@ + rest) =~= path@ + rest);
                },
            }
        }
        j = j - 1;
    }
    proof {
        assert(names_path(sh, chain, -1) == Some(Seq::<u8>::empty()));
        assert(path@ + Seq::<u8>::empty() =~= path@);
    }
    Some(path)
}

/// How `getcwd` ends once the chain of directories up to the root is known.
pub open spec fn getcwd_outcome<F: FileSystem>(ms: MemorySpace, ms1: MemorySpace, sh: Seq<MountShape<F>>,
    chain: Seq<(int, u64)>, addr: usize, max_len: usize, r: Result<usize, SystemError>) -> bool
{
    match cwd_path(sh, chain) {
        None => r == Err::<usize, SystemError>(SystemError::ENOENT) && ms == ms1,
        Some(path) => if path.len() >= max_len {
            r == Err::<usize, SystemError>(SystemError::ERANGE) && ms == ms1
        } else if addr + path.len() + 1 <= usize::MAX && ms.range_mapped(addr as int, addr + path.len() + 1) {
            r == Ok::<usize, SystemError>(addr) && written(ms, ms1, addr as int, path.push(0u8))
        } else {
            r == Err::<usize, SystemError>(SystemError::EFAULT) && ms == ms1
        },
    }
}

/// `getcwd(buf, size)`: writes the path of the current directory, then a NUL, to user memory
/// at `buf` and returns `buf`. `EINVAL` when `size` is 0; `ENOENT` when a directory on the
/// way has no name in its parent; `ERANGE` when the path is not shorter than `size`;
/// `EFAULT` when the range written is not mapped.
pub fn sys_getcwd<F: FileSystem>(pcb: &mut ProcessControlBlock, tree: &mut MountTree<F>, args: [usize; 6]) -> (r: Result<usize, SystemError>)
    requires
        process_ok(old(pcb), old(tree)),
    ensures
        process_ok(final(pcb), final(tree)),
        final(pcb).cwd == old(pcb).cwd,
        final(pcb).fd_table@ == old(pcb).fd_table@,
        final(tree).grows(old(tree)),
        ({
            let addr = args[0];
            let max_len = args[1];
            let ms = old(pcb).memory_space;
            if max_len == 0 {
                r == Err::<usize, SystemError>(SystemError::EINVAL) && ms == final(pcb).memory_space
            } else {
                exists|chain: Seq<(int, u64)>| #[trigger] is_chain(old(tree).shapes(), chain,
                    (old(pcb).cwd.fs as int, old(pcb).cwd.id))
                    && getcwd_outcome(ms, final(pcb).memory_space, old(tree).shapes(), chain, addr, max_len, r)
            }
        }),
{
    let addr = args[0];
    let max_len = args[1];
    if max_len == 0 {
        return Err(SystemError::EINVAL);
    }
    let ghost p0 = *pcb;
    let ghost t0 = *tree;
    let ghost sh = t0.shapes();
    proof {
        assert(tree.grows(&t0));
        assert(sh[p0.cwd.fs as int] == t0.at(p0.cwd.fs as int).shape());
    }
    let mut inode = pcb.cwd;
    let mut path_inode: Vec<VirtualIndexNode> = Vec::new();
    path_inode.push(inode);
    let ghost mut chain: Seq<(int, u64)> = seq![(inode.fs as int, inode.id)];
    loop
        invariant
            tree.wf(),
            tree.grows(&t0),
            tree.grows(old(tree)),
            t0 == *old(tree),
            process_ok(&p0, &t0),
            *pcb == p0,
            p0 == *old(pcb),
            sh == t0.shapes(),
            t0.wf(),
            tree.valid(inode),
            !inode.weak,
            fs_is_dir(&tree.at(inode.fs as int).inner_fs, inode.id),
            chain.len() == path_inode@.len(),
            chain.len() >= 1,
            chain[0] == (p0.cwd.fs as int, p0.cwd.id),
            chain.last() == (inode.fs as int, inode.id),
            forall|i: int| 0 <= i < chain.len() - 1 ==> resolve_parent(sh, #[trigger] chain[i].0, chain[i].1) == Some(chain[i + 1]),
            forall|i: int| 0 <= i < path_inode@.len() ==> (#[trigger] path_inode@[i]).fs as int == chain[i].0
                && path_inode@[i].id == chain[i].1 && !path_inode@[i].weak
                && tree.valid(path_inode@[i]) && fs_is_dir(&tree.at(path_inode@[i].fs as int).inner_fs, path_inode@[i].id),
        ensures
            is_chain(sh, chain, (p0.cwd.fs as int, p0.cwd.id)),
            tree.wf(),
            tree.grows(&t0),
            chain.len() == path_inode@.len(),
            forall|i: int| 0 <= i < path_inode@.len() ==> (#[trigger] path_inode@[i]).fs as int == chain[i].0
                && path_inode@[i].id == chain[i].1 && !path_inode@[i].weak
                && tree.valid(path_inode@[i]) && fs_is_dir(&tree.at(path_inode@[i].fs as int).inner_fs, path_inode@[i].id),
        decreases inode.fs, sh[inode.fs as int].inner_fs.spec_depth(inode.id),
    {
        let ghost t1 = *tree;
        proof {
            assert(sh[inode.fs as int] == t1.at(inode.fs as int).shape());
            t1.lemma_parent_closer(inode.fs as int, inode.id);
        }
        let parent = match inode.parent(tree) {
            None => {
                break;
            },
            Some(p) => p,
        };
        proof {
            assert forall|i: int| 0 <= i < path_inode@.len() implies tree.valid(#[trigger] path_inode@[i])
                && fs_is_dir(&tree.at(path_inode@[i].fs as int).inner_fs, path_inode@[i].id) by {
                let n = path_inode@[i];
                assert(t1.valid(n));
                assert(t1.shapes()[n.fs as int] == t1.at(n.fs as int).shape());
                assert(tree.shapes()[n.fs as int] == tree.at(n.fs as int).shape());
            }
            chain = chain.push((parent.fs as int, parent.id));
        }
        path_inode.push(parent);
        inode = parent;
    }
    let ghost t2 = *tree;
    let built = build_names(tree, &path_inode, Ghost(chain), Ghost(sh));
    let mut path = match built {
        None => {
            proof {
                assert(t0.shapes()[p0.cwd.fs as int] == t0.at(p0.cwd.fs as int).shape());
                assert(tree.shapes()[p0.cwd.fs as int] == tree.at(p0.cwd.fs as int).shape());
                lemma_process_ok(&p0, pcb, &t0, tree);
                assert(getcwd_outcome(p0.memory_space, p0.memory_space, sh, chain, addr, max_len,
                    Err::<usize, SystemError>(SystemError::ENOENT)));
                assert(is_chain(t0.shapes(), chain, (p0.cwd.fs as int, p0.cwd.id)));
            }
            return Err(SystemError::ENOENT);
        },
        Some(p) => p,
    };
    if path.len() == 0 {
        path.push(47u8);
    }
    proof {
        assert(t0.shapes()[p0.cwd.fs as int] == t0.at(p0.cwd.fs as int).shape());
        assert(tree.shapes()[p0.cwd.fs as int] == tree.at(p0.cwd.fs as int).shape());
        lemma_process_ok(&p0, pcb, &t0, tree);
    }
    if path.len() >= max_len {
        proof {
            assert(getcwd_outcome(p0.memory_space, p0.memory_space, sh, chain, addr, max_len,
                Err::<usize, SystemError>(SystemError::ERANGE)));
            assert(is_chain(t0.shapes(), chain, (p0.cwd.fs as int, p0.cwd.id)));
        }
        return Err(SystemError::ERANGE);
    }
    let ghost p_spec = path@;
    path.push(0u8);
    let ghost ms0 = pcb.memory_space;
    let res = pcb.memory_space.copyout_bytes(addr, &path);
    proof {
        lemma_process_ok(&p0, pcb, &t0, tree);
    }
    let r = match res {
        Err(e) => Err(e),
        Ok(_) => Ok(addr),
    };
    proof {
        assert(p_spec.push(0u8) == path@);
        assert(getcwd_outcome(ms0, pcb.memory_space, sh, chain, addr, max_len, r));
        assert(is_chain(t0.shapes(), chain, (p0.cwd.fs as int, p0.cwd.id)));
    }
    r
}

/// The layout of a directory record: the inode number in bytes `0..8`, the offset of the
/// next entry in `8..16`, the record length in `16..18`, the entry's kind at byte 18 (4 for a
/// directory, 8 for a file), then the name and a NUL.
pub proof fn lemma_dirent_layout(ino: u64, off: u64, reclen: u16, t: FileType, name: Seq<u8>)
    ensures
        ({
            let b = dirent_bytes(ino, off, reclen, t, name);
            &&& b.len() == 20 + name.len()
            &&& b[18] == (if t == FileType::Directory { 4u8 } else { 8u8 })
            &&& b.subrange(19, 19 + name.len() as int) == name
            &&& b[19 + name.len() as int] == 0
            &&& b.subrange(0, 8) == le_bytes(ino as nat, 8)
            &&& b.subrange(8, 16) == le_bytes(off as nat, 8)
            &&& b.subrange(16, 18) == le_bytes(reclen as nat, 2)
        }),
{
    crate::utils::lemma_le_bytes_len(ino as nat, 8);
    crate::utils::lemma_le_bytes_len(off as nat, 8);
    crate::utils::lemma_le_bytes_len(reclen as nat, 2);
    let b = dirent_bytes(ino, off, reclen, t, name);
    assert(b.subrange(19, 19 + name.len() as int) =~= name);
    assert(b.subrange(0, 8) =~= le_bytes(ino as nat, 8));
    assert(b.subrange(8, 16) =~= le_bytes(off as nat, 8));
    assert(b.subrange(16, 18) =~= le_bytes(reclen as nat, 2));
}

/// A directory's path is its parent's path, then `/` and its name: the path of `chain[j]`
/// (see `names_path`) is the path that the same directories give without `chain[0]`, then
/// `/` and the name of `chain[0]`. So every name in a path comes after a `/`.
pub proof fn lemma_names_path_ends_with_name<F: FileSystem>(sh: Seq<MountShape<F>>, chain: Seq<(int, u64)>, j: int)
    requires
        0 <= j < chain.len(),
    ensures
        names_path(sh, chain, j) == match (names_path(sh, chain.drop_first(), j - 1),
            resolve_dir_name(sh, chain[0].0, chain[0].1)) {
            (Some(q), Some(n)) => Some(q + seq![47u8] + n),
            _ => None::<Seq<u8>>,
        },
    decreases j,
{
    let d = chain.drop_first();
    let n0 = resolve_dir_name(sh, chain[0].0, chain[0].1);
    if j > 0 {
        lemma_names_path_ends_with_name(sh, chain, j - 1);
        assert(d[j - 1] == chain[j]);
        let nj = resolve_dir_name(sh, chain[j].0, chain[j].1);
        let q = names_path(sh, d, j - 2);
        assert(names_path(sh, d, j - 1) == match nj {
            None => None,
            Some(x) => match q {
                None => None,
                Some(rest) => Some(seq![47u8] + x + rest),
            },
        });
        assert(names_path(sh, chain, j) == match nj {
            None => None,
            Some(x) => match names_path(sh, chain, j - 1) {
                None => None,
                Some(rest) => Some(seq![47u8] + x + rest),
            },
        });
        match (nj, q, n0) {
            (Some(x), Some(qq), Some(y)) => {
                assert(seq![47u8] + x + (qq + seq![47u8] + y) =~= (seq![47u8] + x + qq) + seq![47u8] + y);
            },
            _ => {},
        }
    } else {
        assert(names_path(sh, d, -1) == Some(Seq::<u8>::empty()));
        assert(names_path(sh, chain, -1) == Some(Seq::<u8>::empty()));
        match n0 {
            Some(y) => {
                assert(seq![47u8] + y + Seq::<u8>::empty() =~= Seq::<u8>::empty() + seq![47u8] + y);
            },
            None => {},
        }
    }
}

} // verus!
