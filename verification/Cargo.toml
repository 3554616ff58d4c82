[package]
name = "wasmtiny"
version = "0.1.0"
edition = "2021"
publish = false

[dependencies]
sha2 = "=0.10.9"
parking_lot = "=0.12.5"
libc = "=0.2.191"
llvm-sys = { version = "140", features = ["prefer-dynamic"] }
clap = { version = "4", features = ["derive"] }
