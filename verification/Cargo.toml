[package]
name = "wurstmapberg"
version = "0.1.0"
edition = "2021"
publish = false

[dependencies]
chrono = { version = "=0.4.45", default-features = false, features = ["clock", "std"] }
clap = { version = "=4.6.7", features = ["derive"] }
futures = "=0.3.34"
image = { version = "=0.25.10", default-features = false, features = ["png"] }
mimalloc = "=0.1.52"
parking_lot = "=0.12.5"
thiserror = "=2.0.21"
tokio = { version = "=1.54.1", features = ["rt", "rt-multi-thread", "macros", "fs"] }
