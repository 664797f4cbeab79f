[package]
name = "rust_todo_cli"
version = "0.1.0"
edition = "2021"
publish = false

[dependencies]
chrono = "0.4"
clap = "2"
colored = "2"
dirs = "5"
pickledb = "0.5"
serde = { version = "1", features = ["derive"] }
