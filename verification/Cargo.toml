[package]
name = "fork_harness"
version = "0.1.0"
edition = "2021"
publish = false

[dependencies]
anyhow = "1"
bcs = "0.1"
bytes = "1"
itertools = "0.13"
move-core-types = "0.0.3"
tokio = { version = "1", features = ["rt"] }
url = "2.4"
