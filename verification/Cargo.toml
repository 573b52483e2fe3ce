[package]
name = "grug_rs"
version = "0.1.0"
edition = "2021"
publish = false

[dependencies]
grug-sys = "=0.1.5"
serde = { version = "=1.0.229", features = ["derive"] }
serde_json = { version = "=1.0.151", features = ["preserve_order"] }
thiserror = "=2.0.21"
