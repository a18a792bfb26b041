[package]
name = "yawns"
version = "0.1.0"
edition = "2021"
publish = false

[dependencies]
aws-config = "*"
aws-sdk-kms = "*"
aws-sdk-s3 = "*"
aws-smithy-types = { version = "*", features = ["rt-tokio"] }
aws-types = "*"
clap = { version = "*", features = ["derive", "env"] }
clap-stdin = "*"
color-eyre = "*"
env_logger = "*"
futures = "*"
log = "*"
prettytable-rs = "*"
serde = { version = "*", features = ["derive"] }
tokio = { version = "*", features = ["macros", "rt-multi-thread", "sync", "time", "fs", "io-util"] }
