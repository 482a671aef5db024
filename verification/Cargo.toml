[package]
name = "agent_shell"
version = "0.1.0"
edition = "2021"
publish = false

[dependencies]
serde_json = "1"
zbus = "5"
tokio = { version = "1", features = ["rt-multi-thread", "macros", "net", "io-util", "process", "time", "sync", "fs"] }
uuid = { version = "1", features = ["v4"] }
futures = "0.3"
async-trait = "0.1"
parking_lot = "0.12"
tracing = "0.1"
thiserror = "2"
serde = { version = "1", features = ["derive"] }
libc = "0.2"
wayland-client = "0.31"
wayland-protocols-plasma = { version = "0.3", features = ["client"] }
x11rb = "0.13"
which = "*"
