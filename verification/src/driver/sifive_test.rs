//! The SiFive test device, which powers the machine off.
use vstd::prelude::*;

verus! {

/// The test device at `base_addr`.
#[derive(Clone, Copy, Debug, PartialEq, Eq, Structural)]
pub struct SiFiveTest {
    pub base_addr: usize,
}

/// Why the machine is powered off.
#[derive(Clone, Copy, Debug, PartialEq, Eq, Structural)]
pub enum ShutdownReason {
    /// Something went wrong.
    Failure,
    /// A normal shutdown.
    Normal,
}

impl SiFiveTest {
    pub fn new(base_addr: usize) -> (r: Self)
        ensures
            r.base_addr == base_addr,
    {
        Self { base_addr }
    }

    /// The value to write to the device to power off for `reason` with exit code `code`:
    /// the code in the upper half, 0x3333 (failure) or 0x5555 (normal) in the lower.
    pub fn shutdown_value(&self, reason: ShutdownReason, code: u16) -> (r: u32)
        ensures
            r == code * 0x1_0000 + (if reason == ShutdownReason::Failure { 0x3333int } else { 0x5555int }),
    {
        let status: u16 = match reason {
            ShutdownReason::Failure => 0x3333,
            ShutdownReason::Normal => 0x5555,
        };
        code as u32 * 0x1_0000 + status as u32
    }
}

} // verus!
