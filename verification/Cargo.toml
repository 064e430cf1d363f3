[package]
name = "dfwasm"
version = "0.1.0"
edition = "2021"
publish = false

[dependencies]
wasmparser = "=0.228.0"
flate2 = "=1.1.10"
base64 = "=0.22.1"
serde = { version = "=1.0.229", features = ["derive"] }
serde_derive = "=1.0.229"
serde_json = "=1.0.154"
thiserror = "=2.0.21"
clap = { version = "=4.6.7", features = ["derive"] }
tokio = { version = "=1.54.1", features = ["macros", "rt-multi-thread", "net"] }
tokio-tungstenite = "=0.30.0"
futures-util = { version = "=0.3.34", features = ["sink"] }
anyhow = "=1.0.104"
glob = "=0.3.4"
wasmi = "=2.0.0"
wat = "=1.263.0"
