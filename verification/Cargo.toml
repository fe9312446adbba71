[package]
name = "gluesql_core"
version = "0.1.0"
edition = "2021"
publish = false

[dependencies]
tracing = "0.1"
serde = { version = "1", features = ["derive"] }
thiserror = "2"
syn = { version = "2", features = ["full"] }
quote = "1"
proc-macro2 = "1"

[dev-dependencies]
tracing-subscriber = "0.3"
