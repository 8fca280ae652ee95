[package]
name = "oskernel"
version = "0.1.0"
edition = "2021"
publish = false

[dependencies]
arraydeque = { version = "0.4", default-features = false }
bit_field = "0.10"
bitflags = "1"
dlmalloc = { version = "0.2", features = ["global"] }
riscv = "0.6"
spin = "0.5"
