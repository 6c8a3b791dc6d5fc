[package]
name = "wayland_macos"
version = "0.1.0"
edition = "2021"
publish = false

[dependencies]
bincode = "1"
dispatch2 = "0.3"
env_logger = "0.11"
libc = "0.2"
log = "0.4"
memmap2 = "0.9"
objc2 = "0.6"
objc2-app-kit = "0.3"
objc2-core-foundation = "0.3"
objc2-core-graphics = "0.3"
objc2-foundation = "0.3"
objc2-quartz-core = "0.3"
rustix = { version = "1", features = ["event", "fs", "pipe", "process", "time"] }
serde = { version = "1", features = ["derive"] }
wayland-client = "0.31"
wayland-protocols = { version = "0.32", features = ["client", "server", "staging", "unstable"] }
wayland-protocols-wlr = { version = "0.3", features = ["server"] }
wayland-server = "0.31"
xkbcommon = "0.8"
