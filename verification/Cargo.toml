[package]
name = "triton_vm"
version = "0.1.0"
edition = "2021"
publish = false

[dependencies]
twenty-first = "=3.0.0"
rand = "=0.10.3"

[dev-dependencies]
