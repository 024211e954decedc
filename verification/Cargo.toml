[package]
name = "fsevents_decoder"
version = "0.1.0"
edition = "2021"
publish = false

[dependencies]
flate2 = "*"
clap = { version = "*", features = ["derive"] }
serde = { version = "*", features = ["derive"] }
serde_json = "*"
csv = "*"
rusqlite = { version = "*", features = ["bundled"] }
