[package]
name = "ferrotick"
version = "0.1.0"
edition = "2021"
publish = false

[dependencies]
urlencoding = "=2.1.3"
rand = "=0.8.8"
serde = { version = "=1.0.229", features = ["derive"] }
serde_json = "=1.0.154"
time = { version = "=0.3.55", features = ["formatting", "parsing"] }
tokio = { version = "=1.54.1", features = ["sync", "time", "rt", "macros"] }
reqwest = { version = "=0.12.28", default-features = false, features = ["cookies", "rustls-tls"] }
fastrand = "=2.5.0"
governor = "=0.6.3"
ta = "0.5"
