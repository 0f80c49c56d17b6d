[package]
name = "trans-core"
version = "0.1.0"
edition = "2021"
publish = false

[dependencies]
serde = { version = "1", features = ["derive"] }
serde_json = "1"
tantivy = "0.22"
ureq = "3"
