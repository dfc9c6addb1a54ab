[package]
name = "baml_rt"
version = "0.1.0"
edition = "2021"
publish = false

[dependencies]
uuid = "=1.29.0"
serde_json = "=1.0.154"
serde = { version = "=1.0.229", features = ["derive"] }
tokio = { version = "=1.54.1", features = ["rt", "macros", "sync", "time"] }
async-trait = "=0.1.92"
thiserror = "=1.0.69"
tracing = "=0.1.44"
quickjs_runtime = "*"
