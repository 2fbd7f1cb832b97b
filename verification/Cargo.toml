[package]
name = "crawl"
version = "0.1.0"
edition = "2021"
publish = false

[dependencies]
sysinfo = "=0.32.1"
image = { version = "=0.25.10", default-features = false, features = ["png", "jpeg"] }
serde = { version = "=1.0.229", features = ["derive"] }
serde_json = "=1.0.154"
tokio = { version = "=1.54.1", features = ["rt-multi-thread", "macros", "net", "io-util", "time", "sync", "fs", "signal"] }
clap = { version = "=4.6.7", features = ["derive"] }
anyhow = "=1.0.104"
thiserror = "=1.0.69"
zbus = { version = "=4.4.0", default-features = false, features = ["tokio"] }
tracing = "=0.1.44"
tracing-subscriber = { version = "=0.3.23", features = ["env-filter"] }
lru = "=0.12.5"
rand = "=0.8.8"
home = "=0.5.12"
libc = "=0.2.191"
wl-clipboard-rs = "=0.8.2"
futures-util = "=0.3.34"
async-trait = "=0.1.92"
figment = { version = "=0.10.19", features = ["toml", "env"] }
libpulse-binding = "=2.30.1"
smithay-client-toolkit = "=0.19.2"
wayland-client = "=0.31.15"
axum = "0.7"
tokio-stream = { version = "0.1", features = ["sync"] }
wide = "0.7"
color-eyre = "0.6"
term_size = "0.3"
