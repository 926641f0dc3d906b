[package]
name = "storage_bench"
version = "0.1.0"
edition = "2021"
publish = false

[dependencies]
rand = "0.8"
sysinfo = "0.29"
serde = { version = "1", features = ["derive"] }
lazy_static = "1"
