[package]
name = "fluss_sink"
version = "0.1.0"
edition = "2021"
publish = false

[dependencies]
arrow = { version = "=59.3.2", default-features = false, features = ["json"] }
async-trait = "=0.1.92"
fluss-rs = "=1.0.0"
serde = { version = "=1.0.229", features = ["derive"] }
serde_json = "=1.0.154"
simd-json = { version = "=0.19.0", features = ["serde_impl"] }
thiserror = "=2.0.21"
tokio = { version = "=1.54.1", features = ["sync", "rt", "rt-multi-thread", "macros"] }
tracing = "*"
