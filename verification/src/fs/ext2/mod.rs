pub mod fs;
pub mod inode;
pub mod layout;
