[package]
name = "tigertail"
version = "0.1.0"
edition = "2021"
publish = false

[dependencies]
evdevil = "*"
clap = { version = "4", features = ["derive", "env"] }
serde = { version = "1", features = ["derive"] }
serde_json = "1"
toml = "*"
log = "0.4"
env_logger = "*"
libc = "0.2"
anyhow = "1"
gtk4 = { version = "*", features = ["v4_12"] }
gtk4-layer-shell = "*"
wayland-client = "0.31"
wayland-protocols = { version = "0.32", features = ["client", "unstable"] }
wayland-protocols-wlr = { version = "0.3", features = ["client"] }
