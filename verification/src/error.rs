//! Errors that kernel services report, with their POSIX numbers.
use vstd::prelude::*;

verus! {

#[derive(Debug, Clone, Copy, PartialEq, Eq, Structural)]
pub enum SystemError {
    /// Operation not permitted.
    EPERM,
    /// No such file or directory.
    ENOENT,
    /// Interrupted function.
    EINTR,
    /// Bad file descriptor.
    EBADF,
    /// Not enough space.
    ENOMEM,
    /// Bad address.
    EFAULT,
    /// Not a directory.
    ENOTDIR,
    /// Is a directory.
    EISDIR,
    /// Invalid argument.
    EINVAL,
    /// Result too large.
    ERANGE,
    /// Filename too long.
    ENAMETOOLONG,
}

/// The POSIX number of an error.
pub open spec fn errno(e: SystemError) -> int {
    match e {
        SystemError::EPERM => 1,
        SystemError::ENOENT => 2,
        SystemError::EINTR => 4,
        SystemError::EBADF => 9,
        SystemError::ENOMEM => 12,
        SystemError::EFAULT => 14,
        SystemError::ENOTDIR => 20,
        SystemError::EISDIR => 21,
        SystemError::EINVAL => 22,
        SystemError::ERANGE => 34,
        SystemError::ENAMETOOLONG => 36,
    }
}

impl SystemError {
    /// The value a system call returns for this error: the negated POSIX number.
    pub fn posix_errno(&self) -> (r: isize)
        ensures
            r == -errno(*self),
    {
        match self {
            SystemError::EPERM => -1,
            SystemError::ENOENT => -2,
            SystemError::EINTR => -4,
            SystemError::EBADF => -9,
            SystemError::ENOMEM => -12,
            SystemError::EFAULT => -14,
            SystemError::ENOTDIR => -20,
            SystemError::EISDIR => -21,
            SystemError::EINVAL => -22,
            SystemError::ERANGE => -34,
            SystemError::ENAMETOOLONG => -36,
        }
    }
}

} // verus!
