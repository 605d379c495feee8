pub mod syscall;
pub mod timer;
