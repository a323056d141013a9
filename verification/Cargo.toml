[package]
name = "peekbeam"
version = "0.1.0"
edition = "2021"
publish = false

[dependencies]
anyhow = "1"
aya = "0.13"
aya-ebpf = "0.1"
caps = "0.5"
clap = { version = "4", features = ["derive"] }
crossterm = "0.28"
env_logger = "0.11"
libc = "0.2"
log = "0.4"
ratatui = "0.29"
serde = { version = "1", features = ["derive"] }
serde_json = "1"
signal-hook = "0.3"
syscalls = "0.6"
