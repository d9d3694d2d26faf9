[package]
name = "vlyness"
version = "0.1.0"
edition = "2021"
publish = false

[dependencies]
base64 = "0.22"
blake2 = "0.10"
bytes = "1"
h2 = "0.4"
http = "1"
rand = "0.8"
rand_core = { version = "0.6", features = ["getrandom"] }
rcgen = "0.13"
rustls = { version = "0.23", default-features = false, features = ["std", "ring", "aws_lc_rs", "tls12", "logging"] }
rustls-pemfile = "2"
serde = { version = "1", features = ["derive"] }
serde_json = "1"
snow = "0.9"
subtle = "2"
tokio = { version = "1", features = ["full"] }
tokio-rustls = { version = "0.26", default-features = false, features = ["ring", "aws_lc_rs", "tls12"] }
