pub mod blk;
pub mod queue;
pub mod transport;
