use vstd::prelude::*;

pub mod arch;
pub mod driver;
pub mod error;
pub mod exception;
pub mod fs;
pub mod mm;
pub mod utils;

verus! {
} // verus!
