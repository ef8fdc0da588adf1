[package]
name = "luau_lifter"
version = "0.1.0"
edition = "2021"
publish = false

[dependencies]
base64 = "0.22"
rustc-hash = "2"
axum = "0.7"
tokio = { version = "1", features = ["macros", "rt-multi-thread", "net"] }
tracing = "0.1"
tracing-subscriber = "0.3"
thiserror = "1"
indexmap = "2"
parking_lot = "0.12"
petgraph = "0.6"
triomphe = "0.1"
by_address = "1"
