[package]
name = "memprobe"
version = "0.1.0"
edition = "2021"
publish = false

[dependencies]
anyhow = "1"
clap = { version = "4", features = ["derive"] }
csv = "1"
sysinfo = { version = "0.29", default-features = false }
