[package]
name = "nekoframe"
version = "0.1.0"
edition = "2021"
publish = false

[dependencies]
warp = { version = "=0.4.3", features = ["websocket", "server"] }
tokio = { version = "=1.53.2", features = ["rt-multi-thread", "macros", "time"] }
futures = "=0.3.34"
sysinfo = "=0.39.6"
nvml-wrapper = "=0.13.0"

[dev-dependencies]
serde_json = "=1.0.151"
