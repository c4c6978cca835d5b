[package]
name = "hearth_lib"
version = "0.1.0"
edition = "2021"
publish = false

[dependencies]
anyhow = "=1.0.104"
command-group = "=5.0.1"
configparser = { version = "=3.3.0", features = ["indexmap"] }
dirs = "=5.0.1"
nix = { version = "=0.29.0", features = ["fs", "process", "signal", "user"] }
serde = { version = "=1.0.229", features = ["derive"] }
sha2 = "=0.10.9"
tokio = { version = "=1.54.1", features = ["io-util", "macros", "process", "rt", "rt-multi-thread", "sync", "time"] }
toml = "=0.8.23"
tracing = "=0.1.44"
