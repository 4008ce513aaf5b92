[package]
name = "heart7"
version = "0.1.0"
edition = "2021"
publish = false

[dependencies]
rand = "0.8"
tokio = { version = "1", features = ["rt-multi-thread", "macros", "sync", "time"] }
tokio-util = "0.7"
tonic = { version = "0.12", default-features = false }
clap = { version = "4", features = ["derive"] }
log = "0.4"
log4rs = { version = "1", default-features = false, features = ["console_appender", "file_appender"] }
anyhow = "1"
