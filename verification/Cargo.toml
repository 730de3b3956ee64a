[package]
name = "voxel_client"
version = "0.1.0"
edition = "2021"
publish = false

[dependencies]
cgmath = "0.18"
thiserror = "2"
serde = { version = "1", features = ["derive"] }
lazy_static = "1"
crossbeam-channel = "0.5"

[dev-dependencies]
rand = "0.9"
