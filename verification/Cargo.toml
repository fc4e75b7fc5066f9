[package]
name = "cordis_runtime"
version = "0.1.0"
edition = "2021"
rust-version = "1.85"
publish = false

[dependencies]
async-trait = "0.1"
futures = "0.3"
parking_lot = "0.12"
slotmap = "1"
smallvec = "1"
tokio = { version = "1", features = ["macros", "rt-multi-thread", "sync", "time"] }
tokio-util = "0.7"
tracing = "0.1"
