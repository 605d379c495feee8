pub mod context;
pub mod mm;
pub mod pte;
pub mod trap;
