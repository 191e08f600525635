[package]
name = "wasip2_host"
version = "0.1.0"
edition = "2021"
publish = false

[dependencies]
anyhow = "1"
clap = { version = "4", features = ["derive"] }
serde = { version = "1", features = ["derive"] }
serde_json = "1"
tokio = { version = "1", features = ["macros", "rt-multi-thread"] }
tracing = "0.1"
tracing-subscriber = { version = "0.3", features = ["env-filter"] }
wasmtime = { version = "29", default-features = false, features = ["cranelift", "component-model", "async", "runtime", "std"] }
wasmtime-wasi = { version = "29", default-features = false }
