[package]
name = "mekro"
version = "0.1.0"
edition = "2021"
publish = false

[dependencies]
clap = "=4.6.7"
console = "=0.16.6"
crossterm = "=0.25.0"
libc = "=0.2.191"
nix = { version = "=0.31.3", features = ["fs", "ioctl", "process", "signal", "term"] }
serde = { version = "=1.0.229", features = ["derive"] }
serde_json = "=1.0.154"
terminal_size = "=0.4.4"
textwrap = "=0.16.4"
tokio = { version = "=1.54.1", features = ["fs", "io-util", "macros", "rt-multi-thread", "sync"] }
tui = "=0.19.0"
