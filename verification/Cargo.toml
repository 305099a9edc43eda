[package]
name = "pheasant"
version = "0.1.0"
edition = "2021"
publish = false

[dependencies]
hashbrown = "=0.15.5"
deflate = { version = "=1.0.0", features = ["gzip"] }
chrono = "=0.4.45"
mime = "=0.3.17"
embedded-io = "=0.6.1"
url = "=2.5.8"
serde = { version = "=1.0.229", features = ["derive"] }
proc-macro2 = "=1.0.107"
quote = "=1.0.47"
syn = "=2.0.119"
