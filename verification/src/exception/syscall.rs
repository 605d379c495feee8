//! The system call table: which handler serves which call number.
use vstd::prelude::*;

verus! {

pub const SYS_WRITE: usize = 0;
pub const SYS_READ: usize = 1;
pub const SYS_CHDIR: usize = 2;
pub const SYS_GETCWD: usize = 4;
pub const SYS_OPEN: usize = 10;
pub const SYS_CLOSE: usize = 11;
pub const SYS_READDIR: usize = 12;

/// A system call handler as registered: its number and its name.
#[derive(Clone, Copy, Debug)]
pub struct SyscallHandle {
    pub id: usize,
    pub name: &'static str,
}

/// Why the handlers could not be put in a table.
#[derive(Clone, Copy, Debug, PartialEq, Eq, Structural)]
pub enum SyscallTableError {
    /// A handler's number is at least the table's size.
    IdOutOfRange(usize),
    /// Two handlers share a number.
    IdInUse(usize),
}

/// For each call number, the position of its handler in the list it was built from.
pub struct SyscallTable {
    entries: Vec<Option<usize>>,
}

/// The call numbers of `handles` are all below the table's size and pairwise distinct.
pub open spec fn handles_ok(handles: Seq<SyscallHandle>) -> bool {
    &&& forall|i: int| 0 <= i < handles.len() ==> handles[i].id < SyscallTable::SIZE
    &&& forall|i: int, j: int| 0 <= i < j < handles.len() ==> handles[i].id != handles[j].id
}

impl SyscallTable {
    pub const SIZE: usize = 512;

    /// The table: entry `id` names the handler for call `id`, if any.
    pub closed spec fn view(&self) -> Seq<Option<usize>> {
        self.entries@
    }

    /// Builds the table from the registered handlers, which must have distinct numbers
    /// below `SIZE`; otherwise the first offending number is reported.
    pub fn new(handles: &Vec<SyscallHandle>) -> (r: Result<SyscallTable, SyscallTableError>)
        ensures
            r is Ok <==> handles_ok(handles@),
            r matches Ok(t) ==> t.view().len() == Self::SIZE && forall|id: int| 0 <= id < Self::SIZE ==> (
                match #[trigger] t.view()[id] {
                    Some(i) => 0 <= i < handles.len() && handles@[i as int].id == id,
                    None => forall|i: int| 0 <= i < handles.len() ==> handles@[i].id != id,
                }),
    {
        let mut entries: Vec<Option<usize>> = Vec::new();
        let mut k: usize = 0;
        while k < Self::SIZE
            invariant
                k <= Self::SIZE,
                entries.len() == k,
                forall|i: int| 0 <= i < k ==> entries@[i].is_none(),
            decreases Self::SIZE - k,
        {
            entries.push(None);
            k = k + 1;
        }
        let mut n: usize = 0;
        while n < handles.len()
            invariant
                n <= handles.len(),
                entries.len() == Self::SIZE,
                handles_ok(handles@.subrange(0, n as int)),
                forall|id: int| 0 <= id < Self::SIZE ==> (match #[trigger] entries@[id] {
                    Some(i) => 0 <= i < n && handles@[i as int].id == id,
                    None => forall|i: int| 0 <= i < n ==> handles@[i].id != id,
                }),
            decreases handles.len() - n,
        {
            let id = handles[n].id;
            if id >= Self::SIZE {
                proof {
                    assert(!handles_ok(handles@)) by {
                        assert(handles@[n as int].id >= Self::SIZE);
                    }
                }
                return Err(SyscallTableError::IdOutOfRange(id));
            }
            match entries[id] {
                Some(i) => {
                    proof {
                        assert(!handles_ok(handles@)) by {
                            assert(handles@[i as int].id == handles@[n as int].id);
                        }
                    }
                    return Err(SyscallTableError::IdInUse(id));
                },
                None => {},
            }
            entries.set(id, Some(n));
            proof {
                let s = handles@.subrange(0, n + 1);
                assert forall|i: int| 0 <= i < s.len() implies s[i].id < Self::SIZE by {
                    if i < n {
                        assert(handles@.subrange(0, n as int)[i] == s[i]);
                    }
                }
                assert forall|i: int, j: int| 0 <= i < j < s.len() implies s[i].id != s[j].id by {
                    if j < n {
                        assert(handles@.subrange(0, n as int)[i] == s[i]);
                        assert(handles@.subrange(0, n as int)[j] == s[j]);
                    } else {
                        assert(handles@[i].id != id);
                    }
                }
            }
            n = n + 1;
        }
        assert(handles@.subrange(0, n as int) =~= handles@);
        Ok(SyscallTable { entries })
    }

    /// The position of the handler for call `id`, if there is one.
    pub fn get(&self, id: usize) -> (r: Option<usize>)
        ensures
            (id as int) < self.view().len() ==> r == self.view()[id as int],
            (id as int) >= self.view().len() ==> r.is_none(),
    {
        if id < self.entries.len() {
            self.entries[id]
        } else {
            None
        }
    }
}

} // verus!
