[package]
name = "vm_runner"
version = "0.1.0"
edition = "2021"
publish = false

[dependencies]
anyhow = "1"
num_enum = "0.7"
serde = { version = "1", features = ["derive"] }
serde_json = "1"
tokio = { version = "1", default-features = false, features = ["sync", "rt", "time", "macros"] }
xshell = "0.2"
