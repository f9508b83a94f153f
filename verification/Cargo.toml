[package]
name = "planet_relay"
version = "0.1.0"
edition = "2021"
publish = false

[dependencies]
actix-web = { version = "=4.18.1", default-features = false }
bigdecimal = "=0.4.11"
chrono = { version = "=0.4.45", default-features = false, features = ["std"] }
prost-types = "=0.14.4"
redis = { version = "=0.23.5", features = ["tokio-comp"] }
rust-embed = { version = "=8.13.0", features = ["interpolate-folder-path"] }
serde = { version = "=1.0.229", features = ["derive"] }
serde_json = "=1.0.154"
tokio = { version = "=1.54.1", features = ["rt-multi-thread", "macros", "sync"] }
tokio-stream = "=0.1.19"
