[package]
name = "libwayshot"
version = "0.1.0"
edition = "2021"
publish = false

[dependencies]
wayland-client = "=0.31.15"
wayland-backend = "=0.3.17"
wayland-protocols = { version = "=0.32.13", features = ["client", "staging", "unstable"] }
wayland-protocols-wlr = { version = "=0.3.12", features = ["client"] }
image = { version = "=0.25.10", default-features = false, features = ["png", "jpeg", "pnm"] }
memmap2 = "=0.9.12"
rustix = { version = "=0.38.44", features = ["fs", "shm"] }
thiserror = "=2.0.21"
tracing = "=0.1.44"
tracing-subscriber = "=0.3.23"
log = "=0.4.35"
env_logger = "=0.11.11"
clap = "=3.2.25"
