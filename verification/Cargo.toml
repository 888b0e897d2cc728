[package]
name = "djinn"
version = "0.1.0"
edition = "2021"
publish = false

[dependencies]
fnv = "1.0"
uuid = { version = "1", features = ["v4"] }
redis = "*"
rmp-serialize = "0.8"
rustc-serialize = "0.3"
rand = "0.4"
time = "0.1"
ws = "*"
yaml-rust = "0.4"
futures = "0.1"
futures-cpupool = "0.1"
tokio-core = "0.1"
tokio-proto = "0.1"
tokio-service = "0.1"
threadpool = "1"
