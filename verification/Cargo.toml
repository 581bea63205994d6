[package]
name = "gitp2p"
version = "0.1.0"
edition = "2021"
publish = false

[dependencies]
sha2 = "0.10"
clap = { version = "4", features = ["derive"] }
tokio = { version = "1", features = ["rt", "macros", "time", "signal"] }
mdns-sd = "0.11"
quinn = "0.11"
rcgen = "0.13"
rustls = { version = "0.23", default-features = false, features = ["ring", "std", "logging", "tls12"] }
