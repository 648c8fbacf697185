[package]
name = "spnav-rs"
version = "0.1.0"
edition = "2021"
publish = false

[dependencies]
x11rb = "*"
tokio = { version = "1", features = ["net", "io-util", "sync", "time", "rt", "macros"] }
futures-core = "*"
glam = "*"
thiserror = "*"
