[package]
name = "spooky"
version = "0.1.0"
edition = "2021"
publish = false

[dependencies]
rand = "=0.8.8"
subtle = "=2.6.1"
http = "=1.5.0"
serde_json = "=1.0.154"
thiserror = "=2.0.21"
bytes = "1"
http-body-util = "0.1"
hyper = "1"
tokio = { version = "1", features = ["sync", "time", "rt", "process", "macros"] }
