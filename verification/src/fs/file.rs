//! Open files of a process: the console and files of the virtual file system, by descriptor.
use vstd::prelude::*;
use vstd::string::StrSliceExecFns;
use crate::fs::vfs::{MountTree, VirtualIndexNode};
use crate::fs::vfs::file::VirtualFile;
use crate::fs::vfs::interface::FileSystem;
use crate::fs::vfs::mount::{lookup, spec_lookup};
use crate::mm::mem_space::MemorySpace;

verus! {

/// What a directory walk does after an entry.
#[derive(Clone, Copy, Debug, PartialEq, Eq, Structural)]
pub enum ReadDirControl {
    /// Go on.
    Continue,
    /// Stop.
    Stop,
    /// Stop, and do not count this entry as read: the next walk starts with it.
    StopWithBackroll,
}

/// The console's input.
#[derive(Clone, Copy, Debug, PartialEq, Eq, Structural)]
pub struct Stdin;

/// The console's output.
#[derive(Clone, Copy, Debug, PartialEq, Eq, Structural)]
pub struct Stdout;

impl Stdout {
    /// The bytes that printing `s` sends to the UART: each character of `s`, cut to its low
    /// byte.
    pub fn write_str(s: &str) -> (r: Vec<u8>)
        ensures
            r@ == Seq::new(s@.len(), |i: int| s@[i] as u8),
    {
        let n = s.unicode_len();
        let mut r: Vec<u8> = Vec::new();
        let mut i: usize = 0;
        while i < n
            invariant
                n == s@.len(),
                i <= n,
                r@ == Seq::new(i as nat, |j: int| s@[j] as u8),
            decreases n - i,
        {
            let c = s.get_char(i);
            r.push(c as u8);
            i = i + 1;
            assert(r@ =~= Seq::new(i as nat, |j: int| s@[j] as u8));
        }
        r
    }
}

/// An open file.
pub enum OpenFile {
    Stdin(Stdin),
    Stdout(Stdout),
    Virtual(VirtualFile),
}

/// The bytes of the name `"stdin"`.
pub open spec fn stdin_name() -> Seq<u8> {
    seq![115u8, 116u8, 100u8, 105u8, 110u8]
}

/// The bytes of the name `"stdout"`.
pub open spec fn stdout_name() -> Seq<u8> {
    seq![115u8, 116u8, 100u8, 111u8, 117u8, 116u8]
}

/// Whether `path` is exactly `name`.
fn is_name(path: &Vec<u8>, name: &[u8]) -> (r: bool)
    ensures
        r == (path@ == name@),
{
    if path.len() != name.len() {
        return false;
    }
    let mut i: usize = 0;
    while i < path.len()
        invariant
            i <= path.len(),
            path.len() == name@.len(),
            forall|j: int| 0 <= j < i ==> path@[j] == name@[j],
        decreases path.len() - i,
    {
        if path[i] != name[i] {
            return false;
        }
        i = i + 1;
    }
    assert(path@ =~= name@);
    true
}

/// A process as the file system calls see it: its open files by descriptor (a closed
/// descriptor holds `None`), its current directory and its address space.
pub struct ProcessControlBlock {
    pub fd_table: Vec<Option<OpenFile>>,
    pub cwd: VirtualIndexNode,
    pub memory_space: MemorySpace,
}

impl ProcessControlBlock {
    /// Opens `path`: the console's input for `stdin`, its output for `stdout`, else the
    /// inode that `path` leads to from the current directory, at position 0. The file takes
    /// the next descriptor, which is returned; `None` when the path leads nowhere.
    pub fn open_file<F: FileSystem>(&mut self, tree: &mut MountTree<F>, path: &Vec<u8>) -> (r: Option<u64>)
        requires
            old(tree).wf(),
            old(tree).valid(old(self).cwd),
            !old(self).cwd.weak,
        ensures
            final(self).cwd == old(self).cwd,
            final(self).memory_space == old(self).memory_space,
            final(tree).wf(),
            final(tree).grows(old(tree)),
            path@ == stdin_name() ==> r == Some(old(self).fd_table@.len() as u64)
                && final(self).fd_table@ == old(self).fd_table@.push(Some(OpenFile::Stdin(Stdin))),
            path@ == stdout_name() ==> r == Some(old(self).fd_table@.len() as u64)
                && final(self).fd_table@ == old(self).fd_table@.push(Some(OpenFile::Stdout(Stdout))),
            path@ != stdin_name() && path@ != stdout_name() ==> {
                match spec_lookup(old(tree).shapes(), (old(self).cwd.fs as int, old(self).cwd.id), path@) {
                    None => r.is_none() && final(self).fd_table@ == old(self).fd_table@,
                    Some((k, id)) => r == Some(old(self).fd_table@.len() as u64)
                        && final(self).fd_table@ == old(self).fd_table@.push(Some(OpenFile::Virtual(VirtualFile {
                            offset: 0, inode: VirtualIndexNode { fs: k as usize, id, weak: false } })))
                        && final(tree).valid(VirtualIndexNode { fs: k as usize, id, weak: false }),
                }
            },
    {
        let ghost t0 = *tree;
        proof {
            assert(tree.grows(&t0));
        }
        let file = if is_name(path, &[115u8, 116u8, 100u8, 105u8, 110u8]) {
            OpenFile::Stdin(Stdin)
        } else if is_name(path, &[115u8, 116u8, 100u8, 111u8, 117u8, 116u8]) {
            OpenFile::Stdout(Stdout)
        } else {
            let inode = match lookup(tree, self.cwd, path) {
                Some(n) => n,
                None => {
                    return None;
                },
            };
            OpenFile::Virtual(VirtualFile::new(inode))
        };
        let fd = self.fd_table.len() as u64;
        self.fd_table.push(Some(file));
        Some(fd)
    }

    /// The file open under descriptor `fd`, if any.
    pub fn get_file(&self, fd: u64) -> (r: Option<&OpenFile>)
        ensures
            (fd < self.fd_table@.len() && self.fd_table@[fd as int] is Some) ==> r == Some(&self.fd_table@[fd as int]->0),
            !(fd < self.fd_table@.len() && self.fd_table@[fd as int] is Some) ==> r.is_none(),
    {
        if fd >= self.fd_table.len() as u64 {
            return None;
        }
        match &self.fd_table[fd as usize] {
            Some(f) => Some(f),
            None => None,
        }
    }
}

} // verus!
