[package]
name = "ledgerr_mcp"
version = "0.1.0"
edition = "2021"
publish = false

[dependencies]
blake3 = "=1.8.7"
rust_decimal = "=1.43.0"
chrono = "=0.4.45"
serde = { version = "=1.0.229", features = ["derive"] }
serde_json = "=1.0.154"
rust_xlsxwriter = { version = "*", default-features = false }
