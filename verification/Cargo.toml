[package]
name = "shell_process"
version = "0.1.0"
edition = "2021"
publish = false

[dependencies]
encoding_rs = "0.8"
os_pipe = "1"
serde = { version = "1", features = ["derive"] }
shared_child = "1"
tauri = { version = "*", default-features = false }
