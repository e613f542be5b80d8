[package]
name = "cairo_fuzzer"
version = "0.1.0"
edition = "2021"
publish = false

[dependencies]
rand = "=0.8.8"
starknet-types-core = "=0.1.7"
serde = { version = "=1.0.229", features = ["derive"] }
serde_json = "=1.0.154"
chrono = "=0.4.45"
clap = { version = "=4.6.7", features = ["derive"] }
log = "=0.4.35"
colog = "=1.4.0"
colored = "=2.2.0"
regex = "=1.13.1"
ratatui = "=0.22.0"
crossterm = "=0.26.1"
time = "=0.3.55"
memory-stats = "=1.2.0"
bichannel = "=0.0.4"
