[package]
name = "spine_core"
version = "0.1.0"
edition = "2021"
publish = false

[dependencies]
libc = "*"
tokio = { version = "*", features = ["rt-multi-thread", "macros", "signal", "time", "net", "sync"] }
hyper = { version = "*", features = ["server", "http1"] }
hyper-util = { version = "*", features = ["tokio"] }
http-body-util = "*"
redis = { version = "*", features = ["tokio-comp"] }
serde = { version = "*", features = ["derive"] }
serde_json = "*"
