[package]
name = "smpc"
version = "0.1.0"
edition = "2021"
publish = false

[dependencies]
sha2 = "0.10"
rand_chacha = "0.3"
rand_core = { version = "0.6", features = ["getrandom"] }
zeroize = "1"
thiserror = "1"
async-trait = "0.1"
tokio = { version = "1", features = ["rt-multi-thread", "macros", "net", "io-util", "sync", "time"] }
rustls = { version = "0.23", default-features = false, features = ["ring", "std", "logging", "tls12"] }
rustls-pemfile = "1"
rustls-pki-types = "1"
tokio-rustls = { version = "0.26", default-features = false, features = ["ring", "logging", "tls12"] }
