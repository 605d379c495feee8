pub mod block_device;
pub mod file;
pub mod ext2;
pub mod ramfs;
pub mod syscall;
pub mod vfs;
