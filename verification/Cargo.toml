[package]
name = "squad_ready"
version = "0.1.0"
edition = "2021"
publish = false

[dependencies]
anyhow = "1"
log = "0.4"
minreq = "2"
serde = { version = "1", features = ["derive"] }
serde_json = "1"
