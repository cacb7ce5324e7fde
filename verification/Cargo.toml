[package]
name = "remo"
version = "0.3.0"
edition = "2021"
publish = false

[dependencies]
anyhow = "=1.0.104"
async-trait = "=0.1.92"
axum = { version = "=0.8.9", features = ["ws"] }
base64 = "=0.22.1"
clap = { version = "=4.6.7", features = ["derive"] }
dashmap = "=6.2.1"
futures = "=0.3.34"
http = "=1.5.0"
hyper = { version = "=1.12.0", features = ["server", "http1"] }
hyper-util = { version = "=0.1.21", features = ["tokio", "service"] }
objc2 = "0.6"
objc2-foundation = "0.3"
objc2-ui-kit = "0.3"
rmcp = { version = "=3.8.0", features = ["server", "macros", "transport-io"] }
rusqlite = { version = "=0.41.1", features = ["bundled"] }
security-framework = "=3.7.0"
security-framework-sys = "*"
serde = { version = "1", features = ["derive"] }
serde_json = { version = "=1.0.154", features = ["unbounded_depth"] }
serde_stacker = "=0.1.14"
tokio = { version = "=1.54.1", features = ["full"] }
tokio-tungstenite = "=0.30.0"
tracing = "=0.1.44"
tracing-subscriber = { version = "=0.3.23", features = ["env-filter"] }
