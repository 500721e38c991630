[package]
name = "group_commit"
version = "0.1.0"
edition = "2021"
publish = false

[dependencies]
anyhow = "1"
clap = { version = "4", features = ["derive"] }
crossbeam = "0.8"
flume = { version = "0.11", default-features = false }
oneshot = "0.1"
rand = "0.8"
redb = "2"
sled = "0.34"
