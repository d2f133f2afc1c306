[package]
name = "sig_rp2040_board"
version = "0.1.0"
edition = "2021"
publish = false

[dependencies]
serde = { version = "1", features = ["derive"] }
serde_json = "1"
sig_rp2040_interface = "*"
tokio = { version = "1", default-features = false, features = ["rt", "net", "time", "io-util"] }
