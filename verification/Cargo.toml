[package]
name = "pawflash"
version = "0.1.0"
edition = "2021"
publish = false

[dependencies]
android-sparse-image = "*"
fastboot-protocol = "*"
encoding_rs = "*"
sha2 = "*"
anyhow = "*"
clap = { version = "*", features = ["derive"] }
tokio = { version = "*", features = ["full"] }
nusb = "*"
tokio-serial = "*"
indicatif = "*"
inquire = "*"
tracing = "*"
tracing-subscriber = { version = "*", features = ["env-filter"] }
tracing-appender = "*"
serde = { version = "*", features = ["derive"] }
serde_json = "*"
thiserror = "*"
miette = "*"
tempfile = "*"
libc = "*"
