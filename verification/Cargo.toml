[package]
name = "liters"
version = "0.1.0"
edition = "2021"
publish = false

[dependencies]
lz4_flex = "0.11"
twox-hash = "2"
rand = "0.9"
libc = "0.2"
rusqlite = { version = "0.37", features = ["bundled"] }
thiserror = "2"
uniffi = "0.32"
