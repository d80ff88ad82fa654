[package]
name = "rustly_judge"
version = "0.1.0"
edition = "2021"
publish = false

[dependencies]
anyhow = "1"
axum = "0.8"
blake3 = { version = "=1.8.7", features = ["pure"] }
bytes = "1"
clap = { version = "4", features = ["derive", "env"] }
reqwest = { version = "0.12", default-features = false, features = ["blocking", "json"] }
serde = { version = "1", features = ["derive"] }
serde_json = "=1.0.154"
tempfile = "3"
thiserror = "2"
tokio = { version = "1", features = ["macros", "net", "rt-multi-thread", "signal", "time"] }
tracing = "0.1"
tracing-subscriber = { version = "0.3", features = ["env-filter", "json"] }
wasmtime = { version = "=44.0.3", default-features = false, features = ["cranelift", "runtime", "std"] }
wasmtime-wasi = "=44.0.3"

[dev-dependencies]
wat = "1"
