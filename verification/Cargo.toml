[package]
name = "lx_codex_meter"
version = "0.6.16"
edition = "2021"
publish = false

[dependencies]
serde = { version = "1", features = ["derive"] }
serde_json = "1"
tokio = { version = "1", features = ["process", "io-util", "time", "sync", "rt", "macros"] }
sysinfo = "0.33"
rfd = { version = "0.15", default-features = false, features = ["xdg-portal", "tokio"] }
