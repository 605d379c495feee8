pub mod cpu;
pub mod plic;
pub mod sifive_test;
pub mod uart;
pub mod virtio;
