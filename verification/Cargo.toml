[package]
name = "forge"
version = "0.1.0"
edition = "2021"
publish = false

[dependencies]
ulid = "=1.2.1"
serde = { version = "=1.0.229", features = ["derive"] }
serde_json = "=1.0.154"
serde_bytes = "=0.11.19"
ciborium = "=0.2.2"
rusqlite = { version = "=0.41.1", features = ["bundled"] }
zip = { version = "=9.2.2", default-features = false, features = ["deflate"] }
glam = { version = "=0.34.2", features = ["serde"] }
rpds = "=1.2.1"
thiserror = "=2.0.21"

[dev-dependencies]
naga = { version = "*", features = ["wgsl-in"] }
