[package]
name = "cache_cat"
version = "0.1.0"
edition = "2021"
publish = false

[dependencies]
async-trait = "0.1"
bytes = "1"
flurry = "0.5"
futures = "0.3"
mlua = { version = "0.10", features = ["lua54", "vendored"] }
moka = { version = "0.12", features = ["future"] }
ordered-float = "5"
parking_lot = "0.12"
serde = { version = "1", features = ["derive", "rc"] }
tokio = { version = "1", features = ["full"] }
tokio-util = { version = "0.7", features = ["codec"] }
tracing = "0.1"
