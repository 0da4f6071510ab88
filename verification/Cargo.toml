[package]
name = "kyanite"
version = "0.1.0"
edition = "2021"
publish = false

[dependencies]
md5 = "0.7"
slug = "0.1"
reqwest = { version = "0.12", default-features = false, features = ["blocking", "rustls-tls"] }
serde = { version = "1", features = ["derive"] }
serde_json = "1"
serde-xml-rs = "0.6"
clap = { version = "3", features = ["cargo"] }
log = "0.4"
fern = { version = "0.6", features = ["colored"] }
chrono = "0.4"
anyhow = "1"
