pub mod mem_space;
