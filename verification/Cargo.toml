[package]
name = "way-pad"
version = "0.1.0"
edition = "2021"
publish = false

[dependencies]
anyhow = "1"
clap = { version = "4", features = ["derive", "env"] }
indexmap = { version = "2", features = ["serde"] }
libc = "0.2"
regex = "1"
serde = { version = "1", features = ["derive"] }
serde_json = "1"
toml = "0.8"
wayland-client = "0.31"
wayland-protocols-wlr = { version = "0.3", features = ["client"] }
