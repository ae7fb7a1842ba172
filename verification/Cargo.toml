[package]
name = "prefixid"
version = "0.1.0"
edition = "2021"
publish = false

[dependencies]
nanoid = "0.4"
smol_str = "*"
thiserror = "*"
serde = { version = "1", features = ["derive"] }

[dev-dependencies]
serde_json = "1"
