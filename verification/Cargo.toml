[package]
name = "rcore_kernel"
version = "0.1.0"
edition = "2021"
publish = false

[dependencies]
riscv = "*"
bitflags = "*"
zerocopy = { version = "*", features = ["derive"] }
safe-mmio = "*"
lazy_static = { version = "*", features = ["spin_no_std"] }
fdt = "*"
