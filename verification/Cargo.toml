[package]
name = "harvest_sync"
version = "0.1.0"
edition = "2021"
publish = false

[dependencies]
chrono = { version = "0.4", features = ["serde"] }
hyper = "*"
juniper = "*"
serde = { version = "1", features = ["derive"] }
