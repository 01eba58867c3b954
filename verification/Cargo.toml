[package]
name = "zoosync"
version = "0.1.0"
edition = "2021"
publish = false

[dependencies]
libc = "0.2"
nix = { version = "0.29", features = ["fs", "mman", "uio"] }
pyo3 = { version = "0.25", features = ["extension-module", "abi3-py311"] }
thiserror = "2"

[dev-dependencies]
uuid = { version = "1", features = ["v4"] }
