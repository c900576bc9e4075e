[package]
name = "todotxt"
version = "0.1.0"
edition = "2021"
publish = false

[dependencies]
chrono = { version = "0.4", default-features = false }
serde = { version = "1", features = ["derive"] }
rayon = "1"
