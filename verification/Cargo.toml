[package]
name = "biome_svc"
version = "0.1.0"
edition = "2021"
publish = false

[dependencies]
semver = "1"
serde = { version = "1", features = ["derive"] }
libc = "0.2"
anyhow = "1"

[dev-dependencies]
regex = "1"
