[package]
name = "mudl"
version = "0.1.0"
edition = "2021"
publish = false

[dependencies]
serde = { version = "=1.0.229", features = ["derive"] }
serde_json = "=1.0.154"
fs2 = "=0.4.3"
tracing = "=0.1.44"
anyhow = "1"
async-trait = "0.1"
tokio = { version = "1", features = ["net", "io-util", "time", "sync", "rt", "macros"] }
rustls = { version = "0.23", default-features = false, features = ["ring", "std", "tls12"] }
tokio-rustls = { version = "0.26", default-features = false, features = ["ring", "tls12"] }
webpki-roots = "0.26"
ureq = "2"
