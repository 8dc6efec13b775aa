[package]
name = "firehose"
version = "0.1.0"
edition = "2021"
publish = false

[dependencies]
anyhow = "*"
async-stream = "*"
futures-core = "*"
futures-util = "*"
prost = "*"
prost-types = "*"

[dev-dependencies]
prefix-hex = "*"
