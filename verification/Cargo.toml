[package]
name = "kvs"
version = "0.1.0"
edition = "2021"
publish = false

[dependencies]
bson = "2"
clap = "2"
quit = "*"
serde = { version = "1", features = ["derive"] }
signal-hook = "0.3"
sled = "0.34"
slog = "2"
slog-async = "2"
slog-term = "2"
thiserror = "1"
