[package]
name = "tools-core"
version = "0.1.0"
edition = "2021"
publish = false

[dependencies]
chrono = "0.4"
itertools = "*"
uuid = { version = "1", features = ["v4"] }
tokio = { version = "1", features = ["full"] }
tracing = "0.1"
thiserror = "*"
serde = { version = "1", features = ["derive"] }
async-trait = "0.1"
futures-util = "0.3"
derive_more = { version = "*", features = ["display", "constructor"] }
constcat = "*"
